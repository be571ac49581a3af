use hmip_comm::frame::DecoderConfig;
use hmip_comm::frame::EncodeFrameParams;
use hmip_comm::frame::FrameDecoder;
use hmip_comm::frame::encode_frame;
use hmip_comm::msg_type;
use hmip_comm::wire::FLAG_CRC32;

#[test]
fn frame_layout_without_crc() {
    let bytes = encode_frame(EncodeFrameParams {
        msg_type: 0x42,
        flags: 0,
        channel: 3,
        seq: 0x01020304,
        payload: &[0xAA, 0xBB],
    });
    assert_eq!(&bytes[0..4], b"HMIP");
    assert_eq!(bytes[4], 1);
    assert_eq!(bytes[5], 0x42);
    assert_eq!(bytes[6], 0);
    assert_eq!(bytes[7], 3);
    assert_eq!(&bytes[8..12], &[0x04, 0x03, 0x02, 0x01]);
    assert_eq!(&bytes[12..16], &[2, 0, 0, 0]);
    assert_eq!(&bytes[16..], &[0xAA, 0xBB]);
}

#[test]
fn frame_embeds_crc32_of_payload() {
    // The IEEE CRC-32 of "hello" is 0x3610A686; a wrapper that handed back
    // anything else would fail here.
    let bytes = encode_frame(EncodeFrameParams {
        msg_type: 0x42,
        flags: FLAG_CRC32,
        channel: 0,
        seq: 0,
        payload: b"hello",
    });
    assert_eq!(&bytes[16..20], &[0x86, 0xA6, 0x10, 0x36]);
}

#[test]
fn empty_payload_round_trip() {
    let bytes = encode_frame(EncodeFrameParams {
        msg_type: msg_type::HEARTBEAT,
        flags: FLAG_CRC32,
        channel: 1,
        seq: 7,
        payload: &[],
    });
    let mut dec = FrameDecoder::new(DecoderConfig::default());
    dec.push(&bytes).unwrap();
    let frame = dec.next_frame().unwrap().unwrap();
    assert_eq!(frame.header.seq, 7);
    assert_eq!(frame.header.payload_len, 0);
    assert!(frame.payload.is_empty());
    assert_eq!(dec.next_frame().unwrap(), None);
}

#[test]
fn max_payload_len_round_trip() {
    let cfg = DecoderConfig {
        max_payload_len: 5,
        max_buffer_len: 1024,
    };
    let bytes = encode_frame(EncodeFrameParams {
        msg_type: msg_type::REQUEST,
        flags: 0,
        channel: 0,
        seq: 1,
        payload: &[1, 2, 3, 4, 5],
    });
    let mut dec = FrameDecoder::new(cfg);
    dec.push(&bytes).unwrap();
    let frame = dec.next_frame().unwrap().unwrap();
    assert_eq!(frame.payload.as_slice(), &[1, 2, 3, 4, 5]);
}

#[test]
fn one_byte_at_a_time_matches_single_push() {
    let a = encode_frame(EncodeFrameParams {
        msg_type: msg_type::HEARTBEAT,
        flags: FLAG_CRC32,
        channel: 0,
        seq: 1,
        payload: &[1, 2, 3, 4, 5, 6, 7, 8],
    });
    let b = encode_frame(EncodeFrameParams {
        msg_type: msg_type::EVENT,
        flags: 0,
        channel: 2,
        seq: 2,
        payload: &[9, 9],
    });
    let mut stream = a.clone();
    stream.extend_from_slice(&b);

    let mut whole = FrameDecoder::new(DecoderConfig::default());
    whole.push(&stream).unwrap();
    let w1 = whole.next_frame().unwrap().unwrap();
    let w2 = whole.next_frame().unwrap().unwrap();
    assert_eq!(whole.next_frame().unwrap(), None);

    let mut split = FrameDecoder::new(DecoderConfig::default());
    let mut frames = Vec::new();
    for byte in stream.iter() {
        split.push(&[*byte]).unwrap();
        loop {
            match split.next_frame() {
                Ok(Some(f)) => frames.push(f),
                Ok(None) => break,
                Err(e) => panic!("unexpected decode error: {}", e.message),
            }
        }
    }
    assert_eq!(frames.len(), 2);
    assert_eq!(frames[0], w1);
    assert_eq!(frames[1], w2);
}

#[test]
fn single_bit_flip_in_payload_is_caught() {
    let payload = b"sensor-block";
    for bit in 0..8 {
        let mut bytes = encode_frame(EncodeFrameParams {
            msg_type: msg_type::EVENT,
            flags: FLAG_CRC32,
            channel: 0,
            seq: 1,
            payload,
        });
        let last = bytes.len() - 1;
        bytes[last] ^= 1 << bit;
        let mut dec = FrameDecoder::new(DecoderConfig::default());
        dec.push(&bytes).unwrap();
        let err = dec.next_frame().unwrap_err();
        assert!(err.message.contains("CRC32 mismatch"));
        assert_eq!(dec.next_frame().unwrap(), None);
    }
}

#[test]
fn resync_reports_full_garbage_length() {
    let garbage = b"\x01\x02\x03\x04\x05\x06\x07";
    let frame = encode_frame(EncodeFrameParams {
        msg_type: msg_type::HEARTBEAT,
        flags: 0,
        channel: 0,
        seq: 3,
        payload: &[0; 8],
    });
    let mut bytes = garbage.to_vec();
    bytes.extend_from_slice(&frame);

    let mut dec = FrameDecoder::new(DecoderConfig::default());
    dec.push(&bytes).unwrap();
    let err = dec.next_frame().unwrap_err();
    assert!(err.message.contains("Resync"));
    assert_eq!(err.dropped_bytes, garbage.len());
    let parsed = dec.next_frame().unwrap().unwrap();
    assert_eq!(parsed.header.seq, 3);
}

#[test]
fn overflow_reports_buffer_length_then_recovers() {
    let cfg = DecoderConfig {
        max_payload_len: 64,
        max_buffer_len: 40,
    };
    let mut dec = FrameDecoder::new(cfg);
    dec.push(&[0x11; 30]).unwrap();
    let err = dec.push(&[0x11; 11]).unwrap_err();
    assert_eq!(err.dropped_bytes, 30);
    assert!(err.message.contains("buffer overflow"));

    let frame = encode_frame(EncodeFrameParams {
        msg_type: msg_type::REQUEST,
        flags: 0,
        channel: 0,
        seq: 5,
        payload: &[1, 2, 3, 4],
    });
    dec.push(&frame).unwrap();
    let parsed = dec.next_frame().unwrap().unwrap();
    assert_eq!(parsed.header.seq, 5);
    assert_eq!(parsed.payload.as_slice(), &[1, 2, 3, 4]);
}
