use hmip_comm::msg::Event;
use hmip_comm::msg::Heartbeat;
use hmip_comm::msg::Hello;
use hmip_comm::msg::HelloAck;
use hmip_comm::msg::ProtoError;
use hmip_comm::msg::Request;
use hmip_comm::msg::Response;
use hmip_comm::msg::Role;
use hmip_comm::msg::decode_error;
use hmip_comm::msg::decode_event;
use hmip_comm::msg::decode_heartbeat;
use hmip_comm::msg::decode_hello;
use hmip_comm::msg::decode_hello_ack;
use hmip_comm::msg::decode_request;
use hmip_comm::msg::decode_response;
use hmip_comm::msg::encode_error;
use hmip_comm::msg::encode_event;
use hmip_comm::msg::encode_heartbeat;
use hmip_comm::msg::encode_hello;
use hmip_comm::msg::encode_hello_ack;
use hmip_comm::msg::encode_request;
use hmip_comm::msg::encode_response;

#[test]
fn role_codes_round_trip() {
    assert_eq!(Role::Client.as_u8(), 0);
    assert_eq!(Role::Server.as_u8(), 1);
    assert_eq!(Role::from_u8(0), Some(Role::Client));
    assert_eq!(Role::from_u8(1), Some(Role::Server));
    assert_eq!(Role::from_u8(2), None);
    assert_eq!(Role::from_u8(255), None);
}

#[test]
fn hello_round_trip() {
    let hello = Hello {
        role: Role::Server,
        capabilities: 0x01020304,
        name: "device-7".to_string(),
    };
    let bytes = encode_hello(&hello);
    assert_eq!(bytes[0], 1);
    assert_eq!(&bytes[1..5], &[0x04, 0x03, 0x02, 0x01]);
    assert_eq!(bytes[5], 8);
    let back = decode_hello(&bytes).unwrap();
    assert_eq!(back, hello);
}

#[test]
fn hello_name_truncated_to_255_bytes() {
    let hello = Hello {
        role: Role::Client,
        capabilities: 0,
        name: "a".repeat(300),
    };
    let bytes = encode_hello(&hello);
    assert_eq!(bytes[5], 255);
    assert_eq!(bytes.len(), 1 + 4 + 1 + 255);
    let back = decode_hello(&bytes).unwrap();
    assert_eq!(back.name.len(), 255);
}

#[test]
fn hello_errors() {
    assert_eq!(
        decode_hello(&[1]).unwrap_err().0,
        "HELLO payload too short"
    );
    assert_eq!(
        decode_hello(&[2, 0, 0, 0, 0, 0]).unwrap_err().0,
        "HELLO invalid role"
    );
    assert_eq!(
        decode_hello(&[0, 0, 0, 0, 0, 5, b'a']).unwrap_err().0,
        "HELLO name truncated"
    );
    assert_eq!(
        decode_hello(&[0, 0, 0, 0, 0, 2, 0xff, 0xfe]).unwrap_err().0,
        "HELLO name not utf8"
    );
}

#[test]
fn hello_ack_round_trip_and_errors() {
    let ack = HelloAck {
        capabilities: 0xDEADBEEF,
        name: "srv".to_string(),
    };
    let bytes = encode_hello_ack(&ack);
    assert_eq!(decode_hello_ack(&bytes).unwrap(), ack);

    assert_eq!(
        decode_hello_ack(&[0, 0, 0]).unwrap_err().0,
        "HELLO_ACK payload too short"
    );
    assert_eq!(
        decode_hello_ack(&[0, 0, 0, 0, 9]).unwrap_err().0,
        "HELLO_ACK name truncated"
    );
    assert_eq!(
        decode_hello_ack(&[0, 0, 0, 0, 1, 0xff]).unwrap_err().0,
        "HELLO_ACK name not utf8"
    );
}

#[test]
fn heartbeat_round_trip_and_errors() {
    let hb = Heartbeat { timestamp_ms: 0x1122334455667788 };
    let bytes = encode_heartbeat(&hb);
    assert_eq!(bytes, vec![0x88, 0x77, 0x66, 0x55, 0x44, 0x33, 0x22, 0x11]);
    assert_eq!(decode_heartbeat(&bytes).unwrap(), hb);
    assert_eq!(
        decode_heartbeat(&[0; 7]).unwrap_err().0,
        "HEARTBEAT payload must be 8 bytes"
    );
    assert_eq!(
        decode_heartbeat(&[0; 9]).unwrap_err().0,
        "HEARTBEAT payload must be 8 bytes"
    );
}

#[test]
fn request_round_trip_and_errors() {
    let req = Request {
        request_id: 7,
        method: 0x0203,
        body: vec![9, 8, 7],
    };
    let bytes = encode_request(&req);
    assert_eq!(&bytes[..8], &[7, 0, 0, 0, 0x03, 0x02, 0, 0]);
    assert_eq!(decode_request(&bytes).unwrap(), req);
    assert_eq!(
        decode_request(&[0; 7]).unwrap_err().0,
        "REQUEST payload too short"
    );
}

#[test]
fn response_round_trip_and_errors() {
    let resp = Response {
        request_id: 0xFFFFFFFF,
        status: 500,
        body: vec![],
    };
    let bytes = encode_response(&resp);
    assert_eq!(bytes.len(), 8);
    assert_eq!(decode_response(&bytes).unwrap(), resp);
    assert_eq!(
        decode_response(&[0; 3]).unwrap_err().0,
        "RESPONSE payload too short"
    );
}

#[test]
fn event_round_trip_and_errors() {
    let ev = Event {
        event_id: 0x0A0B,
        timestamp_ms: 123456789,
        body: vec![1, 2],
    };
    let bytes = encode_event(&ev);
    assert_eq!(&bytes[0..2], &[0x0B, 0x0A]);
    assert_eq!(&bytes[2..4], &[0, 0]);
    assert_eq!(decode_event(&bytes).unwrap(), ev);
    assert_eq!(
        decode_event(&[0; 11]).unwrap_err().0,
        "EVENT payload too short"
    );
}

#[test]
fn proto_error_round_trip_and_errors() {
    let err = ProtoError {
        code: 404,
        message: "not found".to_string(),
    };
    let bytes = encode_error(&err);
    assert_eq!(decode_error(&bytes).unwrap(), err);
    assert_eq!(
        decode_error(&[0; 5]).unwrap_err().0,
        "ERROR payload too short"
    );
    assert_eq!(
        decode_error(&[0, 0, 0, 0, 4, 0, b'x']).unwrap_err().0,
        "ERROR message truncated"
    );
    assert_eq!(
        decode_error(&[0, 0, 0, 0, 1, 0, 0xff]).unwrap_err().0,
        "ERROR message not utf8"
    );
}
