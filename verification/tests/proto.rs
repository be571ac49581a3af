use hmip_comm::frame::DecoderConfig;
use hmip_comm::frame::EncodeFrameParams;
use hmip_comm::frame::FrameDecoder;
use hmip_comm::frame::encode_frame;
use hmip_comm::msg::Heartbeat;
use hmip_comm::msg::Hello;
use hmip_comm::msg::Message;
use hmip_comm::msg::ProtoError;
use hmip_comm::msg::Role;
use hmip_comm::msg::decode_message;
use hmip_comm::msg::encode_error;
use hmip_comm::msg::encode_heartbeat;
use hmip_comm::msg::encode_hello;
use hmip_comm::msg_type;
use hmip_comm::wire::FLAG_CRC32;

#[test]
fn encode_decode_roundtrip_with_crc() {
    let payload = b"hello";
    let bytes = encode_frame(EncodeFrameParams {
        msg_type: msg_type::EVENT,
        flags: FLAG_CRC32,
        channel: 2,
        seq: 42,
        payload,
    });

    let mut dec = FrameDecoder::new(DecoderConfig::default());
    dec.push(&bytes).unwrap();

    let frame = dec.next_frame().unwrap().unwrap();
    assert_eq!(frame.header.msg_type, msg_type::EVENT);
    assert_eq!(frame.header.channel, 2);
    assert_eq!(frame.header.seq, 42);
    assert_eq!(frame.payload.as_slice(), payload);
}

#[test]
fn decoder_handles_split_frames() {
    let payload = vec![1u8, 2, 3, 4, 5, 6, 7, 8];
    let bytes = encode_frame(EncodeFrameParams {
        msg_type: msg_type::REQUEST,
        flags: 0,
        channel: 1,
        seq: 1,
        payload: &payload,
    });

    let mut dec = FrameDecoder::new(DecoderConfig::default());
    dec.push(&bytes[..5]).unwrap();
    assert_eq!(dec.next_frame().unwrap(), None);

    dec.push(&bytes[5..]).unwrap();
    let frame = dec.next_frame().unwrap().unwrap();
    assert_eq!(frame.payload.as_slice(), payload.as_slice());
}

#[test]
fn decode_message_hello() {
    let hello = Hello {
        role: Role::Client,
        capabilities: 0xAABBCCDD,
        name: "hmi-ui".to_string(),
    };
    let payload = encode_hello(&hello);
    let bytes = encode_frame(EncodeFrameParams {
        msg_type: msg_type::HELLO,
        flags: 0,
        channel: 0,
        seq: 1,
        payload: &payload,
    });

    let mut dec = FrameDecoder::new(DecoderConfig::default());
    dec.push(&bytes).unwrap();
    let frame = dec.next_frame().unwrap().unwrap();

    let msg = decode_message(&frame).unwrap();
    match msg {
        Message::Hello(v) => {
            assert_eq!(v.role, Role::Client);
            assert_eq!(v.capabilities, 0xAABBCCDD);
            assert_eq!(v.name, "hmi-ui");
        }
        _ => panic!("unexpected msg"),
    }
}

#[test]
fn decoder_handles_sticky_frames() {
    let a = encode_frame(EncodeFrameParams {
        msg_type: msg_type::HEARTBEAT,
        flags: 0,
        channel: 0,
        seq: 1,
        payload: &encode_heartbeat(&Heartbeat { timestamp_ms: 1 }),
    });
    let b = encode_frame(EncodeFrameParams {
        msg_type: msg_type::HEARTBEAT,
        flags: 0,
        channel: 0,
        seq: 2,
        payload: &encode_heartbeat(&Heartbeat { timestamp_ms: 2 }),
    });

    let mut bytes = Vec::with_capacity(a.len() + b.len());
    bytes.extend_from_slice(&a);
    bytes.extend_from_slice(&b);

    let mut dec = FrameDecoder::new(DecoderConfig::default());
    dec.push(&bytes).unwrap();

    let f1 = dec.next_frame().unwrap().unwrap();
    let f2 = dec.next_frame().unwrap().unwrap();
    assert_eq!(f1.header.seq, 1);
    assert_eq!(f2.header.seq, 2);
    assert_eq!(dec.next_frame().unwrap(), None);
}

#[test]
fn decoder_resync_drops_garbage_then_recovers() {
    let frame = encode_frame(EncodeFrameParams {
        msg_type: msg_type::REQUEST,
        flags: 0,
        channel: 0,
        seq: 9,
        payload: &[1, 2, 3],
    });

    let mut dec = FrameDecoder::new(DecoderConfig::default());
    dec.push(b"\x00\x01garbage").unwrap();
    dec.push(&frame).unwrap();

    let err = dec.next_frame().unwrap_err();
    assert!(err.message.contains("Resync"));
    assert!(err.dropped_bytes > 0);

    let parsed = dec.next_frame().unwrap().unwrap();
    assert_eq!(parsed.header.seq, 9);
    assert_eq!(parsed.payload.as_slice(), &[1, 2, 3]);
}

#[test]
fn decoder_crc_mismatch_is_error() {
    let payload = b"hello";
    let mut bytes = encode_frame(EncodeFrameParams {
        msg_type: msg_type::EVENT,
        flags: FLAG_CRC32,
        channel: 0,
        seq: 1,
        payload,
    });

    *bytes.last_mut().unwrap() ^= 0xFF;

    let mut dec = FrameDecoder::new(DecoderConfig::default());
    dec.push(&bytes).unwrap();

    let err = dec.next_frame().unwrap_err();
    assert!(err.message.contains("CRC32 mismatch"));
}

#[test]
fn decoder_rejects_too_large_payload_len() {
    let mut cfg = DecoderConfig::default();
    cfg.max_payload_len = 4;

    let bytes = encode_frame(EncodeFrameParams {
        msg_type: msg_type::REQUEST,
        flags: 0,
        channel: 0,
        seq: 1,
        payload: &[1, 2, 3, 4, 5],
    });

    let mut dec = FrameDecoder::new(cfg);
    dec.push(&bytes).unwrap();

    let err = dec.next_frame().unwrap_err();
    assert!(err.message.contains("Payload too large"));
}

#[test]
fn decoder_buffer_overflow_clears_buffer() {
    let cfg = DecoderConfig {
        max_payload_len: 1024,
        max_buffer_len: 32,
    };
    let mut dec = FrameDecoder::new(cfg);

    dec.push(&[0u8; 20]).unwrap();
    let err = dec.push(&[0u8; 20]).unwrap_err();
    assert!(err.message.contains("buffer overflow"));
    assert_eq!(err.dropped_bytes, 20);

    let frame = encode_frame(EncodeFrameParams {
        msg_type: msg_type::HEARTBEAT,
        flags: 0,
        channel: 0,
        seq: 1,
        payload: &encode_heartbeat(&Heartbeat { timestamp_ms: 1 }),
    });
    dec.push(&frame).unwrap();
    assert!(dec.next_frame().unwrap().is_some());
}

#[test]
fn decode_message_error() {
    let err = ProtoError {
        code: 0x0102,
        message: "boom".to_string(),
    };
    let payload = encode_error(&err);
    let bytes = encode_frame(EncodeFrameParams {
        msg_type: msg_type::ERROR,
        flags: 0,
        channel: 0,
        seq: 1,
        payload: &payload,
    });

    let mut dec = FrameDecoder::new(DecoderConfig::default());
    dec.push(&bytes).unwrap();
    let frame = dec.next_frame().unwrap().unwrap();

    let msg = decode_message(&frame).unwrap();
    match msg {
        Message::Error(v) => {
            assert_eq!(v.code, 0x0102);
            assert_eq!(v.message, "boom");
        }
        _ => panic!("unexpected msg"),
    }
}

#[test]
fn decoder_resync_magic_not_found_then_recovers() {
    let frame = encode_frame(EncodeFrameParams {
        msg_type: msg_type::HEARTBEAT,
        flags: 0,
        channel: 0,
        seq: 1,
        payload: &encode_heartbeat(&Heartbeat { timestamp_ms: 1 }),
    });

    let mut dec = FrameDecoder::new(DecoderConfig::default());
    dec.push(b"no magic here...").unwrap();

    let err = dec.next_frame().unwrap_err();
    assert!(err.message.contains("magic not found"));

    dec.push(&frame).unwrap();

    let _ = dec.next_frame();
    let parsed = dec.next_frame().unwrap().unwrap();
    assert_eq!(parsed.header.seq, 1);
}

#[test]
fn decoder_skips_unknown_version_then_recovers() {
    let mut bad = encode_frame(EncodeFrameParams {
        msg_type: msg_type::HEARTBEAT,
        flags: 0,
        channel: 0,
        seq: 1,
        payload: &encode_heartbeat(&Heartbeat { timestamp_ms: 1 }),
    });
    bad[4] = 2;

    let good = encode_frame(EncodeFrameParams {
        msg_type: msg_type::HEARTBEAT,
        flags: 0,
        channel: 0,
        seq: 2,
        payload: &encode_heartbeat(&Heartbeat { timestamp_ms: 2 }),
    });

    let mut bytes = Vec::with_capacity(bad.len() + good.len());
    bytes.extend_from_slice(&bad);
    bytes.extend_from_slice(&good);

    let mut dec = FrameDecoder::new(DecoderConfig::default());
    dec.push(&bytes).unwrap();

    let _ = dec.next_frame();

    let frame = dec.next_frame().unwrap().unwrap();
    assert_eq!(frame.header.seq, 2);
}
