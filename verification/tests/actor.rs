use hmip_comm::actor::ActorPhase;
use hmip_comm::actor::IoSource;
use hmip_comm::actor::SupervisorAction;
use hmip_comm::actor::SupervisorEvent;
use hmip_comm::actor::SupervisorState;
use hmip_comm::actor::WriteOutcome;
use hmip_comm::actor::compute_backoff_ms;
use hmip_comm::actor::handle_read_data;
use hmip_comm::actor::on_read_end;
use hmip_comm::actor::on_write_result;
use hmip_comm::actor::process_incoming;
use hmip_comm::actor::select_source;
use hmip_comm::actor::supervisor_step;
use hmip_comm::events::CommEvent;
use hmip_comm::events::ConnectionExit;
use hmip_comm::events::HmipEvent;
use hmip_comm::events::HmipMessageSummary;
use hmip_comm::frame::DecoderConfig;
use hmip_comm::frame::EncodeFrameParams;
use hmip_comm::frame::FrameDecoder;
use hmip_comm::frame::encode_frame;
use hmip_comm::msg::Heartbeat;
use hmip_comm::msg::encode_heartbeat;
use hmip_comm::msg_type;
use hmip_comm::sim::lcg_random;

#[test]
fn backoff_values_grow_then_cap() {
    assert_eq!(compute_backoff_ms(0), 200);
    assert_eq!(compute_backoff_ms(1), 400);
    assert_eq!(compute_backoff_ms(2), 800);
    assert_eq!(compute_backoff_ms(3), 1600);
    assert_eq!(compute_backoff_ms(4), 3200);
    assert_eq!(compute_backoff_ms(5), 5000);
    assert_eq!(compute_backoff_ms(6), 5000);
    assert_eq!(compute_backoff_ms(100), 5000);
    assert_eq!(compute_backoff_ms(u32::MAX), 5000);
    let mut prev = 0u64;
    for attempt in 0..32 {
        let d = compute_backoff_ms(attempt);
        assert!(d >= prev);
        prev = d;
    }
}

#[test]
fn selection_is_biased() {
    assert_eq!(select_source(true, true, true, true), Some(IoSource::Shutdown));
    assert_eq!(select_source(false, true, true, true), Some(IoSource::HighWrite));
    assert_eq!(select_source(false, false, true, true), Some(IoSource::NormalWrite));
    assert_eq!(select_source(false, false, false, true), Some(IoSource::Read));
    assert_eq!(select_source(false, false, false, false), None);
}

#[test]
fn write_outcomes_map_to_events_and_exits() {
    match on_write_result("tcp", 5, WriteOutcome::Completed, 99) {
        Ok(CommEvent::Tx { transport, size, timestamp_ms }) => {
            assert_eq!(transport, "tcp");
            assert_eq!(size, 5);
            assert_eq!(timestamp_ms, 99);
        }
        other => panic!("unexpected: {:?}", other),
    }
    match on_write_result("tcp", 5, WriteOutcome::Failed("broken pipe".to_string()), 99) {
        Err(ConnectionExit::IoError(m)) => assert_eq!(m, "Write failed: broken pipe"),
        other => panic!("unexpected: {:?}", other),
    }
    match on_write_result("tcp", 5, WriteOutcome::TimedOut, 99) {
        Err(ConnectionExit::IoError(m)) => assert_eq!(m, "Write timeout (2000ms)"),
        other => panic!("unexpected: {:?}", other),
    }
}

#[test]
fn read_end_messages() {
    match on_read_end(None) {
        ConnectionExit::IoError(m) => assert_eq!(m, "Remote closed"),
        other => panic!("unexpected: {:?}", other),
    }
    match on_read_end(Some("connection reset".to_string())) {
        ConnectionExit::IoError(m) => assert_eq!(m, "Read failed: connection reset"),
        other => panic!("unexpected: {:?}", other),
    }
}

#[test]
fn two_heartbeats_in_one_push_yield_two_messages_in_order() {
    let a = encode_frame(EncodeFrameParams {
        msg_type: msg_type::HEARTBEAT,
        flags: 0,
        channel: 0,
        seq: 1,
        payload: &encode_heartbeat(&Heartbeat { timestamp_ms: 10 }),
    });
    let b = encode_frame(EncodeFrameParams {
        msg_type: msg_type::HEARTBEAT,
        flags: 0,
        channel: 0,
        seq: 2,
        payload: &encode_heartbeat(&Heartbeat { timestamp_ms: 20 }),
    });
    let mut bytes = a;
    bytes.extend_from_slice(&b);

    let mut dec = FrameDecoder::new(DecoderConfig::default());
    let events = process_incoming(&mut dec, "tcp", &bytes, 7);
    assert_eq!(events.len(), 2);
    for (i, ev) in events.iter().enumerate() {
        match ev {
            HmipEvent::Message { transport, seq, msg_type: t, summary, timestamp_ms, .. } => {
                assert_eq!(transport, "tcp");
                assert_eq!(*seq, i as u32 + 1);
                assert_eq!(*t, msg_type::HEARTBEAT);
                assert_eq!(*timestamp_ms, 7);
                match summary {
                    HmipMessageSummary::Heartbeat { timestamp_ms } => {
                        assert_eq!(*timestamp_ms, 10 * (i as u64 + 1));
                    }
                    other => panic!("unexpected summary: {:?}", other),
                }
            }
            other => panic!("unexpected event: {:?}", other),
        }
    }
    assert_eq!(dec.next_frame().unwrap(), None);
}

#[test]
fn decode_errors_do_not_stop_the_pipeline() {
    let frame = encode_frame(EncodeFrameParams {
        msg_type: msg_type::HEARTBEAT,
        flags: 0,
        channel: 0,
        seq: 9,
        payload: &encode_heartbeat(&Heartbeat { timestamp_ms: 1 }),
    });
    let mut bytes = b"\x00\x01junk".to_vec();
    bytes.extend_from_slice(&frame);

    let mut dec = FrameDecoder::new(DecoderConfig::default());
    let events = process_incoming(&mut dec, "serial", &bytes, 0);
    assert_eq!(events.len(), 2);
    match &events[0] {
        HmipEvent::DecodeError { message, dropped_bytes, .. } => {
            assert!(message.contains("Resync"));
            assert_eq!(*dropped_bytes, 6);
        }
        other => panic!("unexpected event: {:?}", other),
    }
    match &events[1] {
        HmipEvent::Message { seq, .. } => assert_eq!(*seq, 9),
        other => panic!("unexpected event: {:?}", other),
    }
}

#[test]
fn overflowing_read_yields_one_error_event() {
    let cfg = DecoderConfig {
        max_payload_len: 16,
        max_buffer_len: 8,
    };
    let mut dec = FrameDecoder::new(cfg);
    let events = process_incoming(&mut dec, "tcp", &[0u8; 9], 3);
    assert_eq!(events.len(), 1);
    match &events[0] {
        HmipEvent::DecodeError { message, dropped_bytes, timestamp_ms, .. } => {
            assert!(message.contains("buffer overflow"));
            assert_eq!(*dropped_bytes, 0);
            assert_eq!(*timestamp_ms, 3);
        }
        other => panic!("unexpected event: {:?}", other),
    }
}

#[test]
fn handle_read_data_builds_rx_event() {
    let mut dec = FrameDecoder::new(DecoderConfig::default());
    let (rx, events) = handle_read_data(&mut dec, "tcp", b"hi", 42);
    match rx {
        CommEvent::Rx { transport, data_base64, text, size, timestamp_ms } => {
            assert_eq!(transport, "tcp");
            assert_eq!(data_base64, "aGk=");
            assert_eq!(text.as_deref(), Some("hi"));
            assert_eq!(size, 2);
            assert_eq!(timestamp_ms, 42);
        }
        other => panic!("unexpected event: {:?}", other),
    }
    assert!(events.is_empty());
}

#[test]
fn supervisor_walks_the_reconnect_cycle() {
    let transport = "tcp";
    let s0 = SupervisorState { phase: ActorPhase::Connecting, attempt: 0 };

    let (s1, a1, evs1) = supervisor_step(
        s0,
        SupervisorEvent::OpenFailed("refused".to_string()),
        transport,
        1,
    );
    assert_eq!(s1, SupervisorState { phase: ActorPhase::Reconnecting, attempt: 1 });
    assert_eq!(a1, SupervisorAction::Sleep(400));
    assert_eq!(evs1.len(), 2);
    match &evs1[0] {
        CommEvent::Error { message, .. } => assert_eq!(message, "refused"),
        other => panic!("unexpected event: {:?}", other),
    }
    match &evs1[1] {
        CommEvent::Reconnecting { attempt, delay_ms, .. } => {
            assert_eq!(*attempt, 1);
            assert_eq!(*delay_ms, 400);
        }
        other => panic!("unexpected event: {:?}", other),
    }

    let (s2, a2, evs2) = supervisor_step(s1, SupervisorEvent::BackoffElapsed, transport, 2);
    assert_eq!(s2.phase, ActorPhase::Connecting);
    assert_eq!(a2, SupervisorAction::OpenStream);
    assert!(evs2.is_empty());

    let (s3, a3, evs3) = supervisor_step(s2, SupervisorEvent::StreamReady, transport, 3);
    assert_eq!(s3, SupervisorState { phase: ActorPhase::Connected, attempt: 0 });
    assert_eq!(a3, SupervisorAction::RunConnection);
    assert_eq!(evs3.len(), 1);
    assert!(matches!(evs3[0], CommEvent::Connected { .. }));

    let (s4, a4, evs4) = supervisor_step(
        s3,
        SupervisorEvent::ConnectionLost("remote closed".to_string()),
        transport,
        4,
    );
    assert_eq!(s4, SupervisorState { phase: ActorPhase::Reconnecting, attempt: 1 });
    assert_eq!(a4, SupervisorAction::Sleep(400));
    assert_eq!(evs4.len(), 2);

    let (s5, a5, evs5) = supervisor_step(s4, SupervisorEvent::ShutdownRequested, transport, 5);
    assert_eq!(s5.phase, ActorPhase::Shutdown);
    assert_eq!(a5, SupervisorAction::Stop);
    assert_eq!(evs5.len(), 1);
    assert!(matches!(evs5[0], CommEvent::Disconnected { .. }));

    let (s6, a6, evs6) = supervisor_step(s5, SupervisorEvent::StreamReady, transport, 6);
    assert_eq!(s6, s5);
    assert_eq!(a6, SupervisorAction::Stop);
    assert!(evs6.is_empty());
}

#[test]
fn supervisor_backoff_caps_after_repeated_failures() {
    let state = SupervisorState { phase: ActorPhase::Connected, attempt: 9 };
    let (next, action, _) = supervisor_step(
        state,
        SupervisorEvent::ConnectionLost("gone".to_string()),
        "tcp",
        0,
    );
    assert_eq!(next, SupervisorState { phase: ActorPhase::Reconnecting, attempt: 10 });
    assert_eq!(action, SupervisorAction::Sleep(5000));
}

#[test]
fn lcg_random_known_values() {
    assert_eq!(lcg_random(0), 1442695040888963407);
    assert_eq!(lcg_random(1), 7806831264735756412);
    assert_eq!(
        lcg_random(1442695040888963407),
        1442695040888963407u64
            .wrapping_mul(6364136223846793005)
            .wrapping_add(1442695040888963407)
    );
}
