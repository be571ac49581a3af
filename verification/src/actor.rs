//! Pure decision logic of the reconnecting transport actor: the biased
//! selection order of its event loop, the handling of write and read
//! outcomes, the inbound byte pipeline from decoder to events, the
//! reconnect state machine, and the backoff policy. The surrounding I/O —
//! sockets, timers, channels — stays outside the library and only carries
//! out the actions these functions decide.
use crate::events::CommEvent;
use crate::events::ConnectionExit;
use crate::events::HmipEvent;
use crate::events::base64_encode;
use crate::events::base64_of;
use crate::events::maybe_utf8_preview;
use crate::events::spec_frame_summary_matches;
use crate::events::spec_maybe_utf8_preview;
use crate::events::summarize_frame;
use crate::frame::FrameDecoder;
use crate::wire::DecodeErrKind;
use crate::wire::DecodeStep;
use crate::wire::DrainItem;
use crate::wire::decode_step;
use crate::wire::kind_message;
use crate::wire::lemma_decode_step_shrinks;
use crate::wire::spec_drain;
use crate::wire::spec_drain_rest;
use crate::wire::spec_push_buf;
use crate::wire::spec_push_ok;
use vstd::prelude::*;
use vstd::string::StringExecFns;

verus! {

/// Size of the buffer one stream read fills.
pub const READ_BUFFER_SIZE: usize = 4096;

/// Bound on the time one outbound write may take.
pub const WRITE_TIMEOUT_MS: u64 = 2000;

/// Smallest delay between reconnect attempts.
pub const RECONNECT_MIN_DELAY_MS: u64 = 200;

/// Largest delay between reconnect attempts.
pub const RECONNECT_MAX_DELAY_MS: u64 = 5000;

/// Reconnect backoff: the smallest delay doubled per attempt, the exponent
/// capped at 6 and the delay itself capped at the largest delay.
pub open spec fn spec_backoff_ms(attempt: u32) -> u64 {
    let exp = if attempt < 6 {
        attempt as nat
    } else {
        6nat
    };
    let base = RECONNECT_MIN_DELAY_MS * vstd::arithmetic::power2::pow2(exp);
    if base < RECONNECT_MAX_DELAY_MS {
        base as u64
    } else {
        RECONNECT_MAX_DELAY_MS
    }
}

/// Delay in milliseconds before reconnect attempt number `attempt`.
pub fn compute_backoff_ms(attempt: u32) -> (delay: u64)
    ensures
        delay == spec_backoff_ms(attempt),
{
    let exp: u64 = if attempt < 6 {
        attempt as u64
    } else {
        6
    };
    proof {
        vstd::arithmetic::power2::lemma2_to64();
        vstd::bits::lemma_u64_shl_is_mul(1u64, exp);
    }
    let base: u64 = RECONNECT_MIN_DELAY_MS * (1u64 << exp);
    if base < RECONNECT_MAX_DELAY_MS {
        base
    } else {
        RECONNECT_MAX_DELAY_MS
    }
}

/// Backoff monotonicity: the delay never decreases with the attempt
/// number, starts at the smallest delay for attempt 0, and sits at the
/// largest delay from attempt 5 on.
pub proof fn lemma_backoff_monotone(a1: u32, a2: u32)
    requires
        a1 <= a2,
    ensures
        spec_backoff_ms(a1) <= spec_backoff_ms(a2),
        spec_backoff_ms(0) == RECONNECT_MIN_DELAY_MS,
        a1 >= 5 ==> spec_backoff_ms(a1) == RECONNECT_MAX_DELAY_MS,
{
    vstd::arithmetic::power2::lemma2_to64();
    let e1 = if a1 < 6 {
        a1 as nat
    } else {
        6nat
    };
    let e2 = if a2 < 6 {
        a2 as nat
    } else {
        6nat
    };
    if e1 < e2 {
        vstd::arithmetic::power2::lemma_pow2_strictly_increases(e1, e2);
    }
}

/// The four sources the connected event loop waits on.
#[derive(Debug, Clone, Copy, PartialEq, Eq)]
pub enum IoSource {
    Shutdown,
    HighWrite,
    NormalWrite,
    Read,
}

/// The biased selection order of the event loop: shutdown first, then
/// high-priority writes, then normal-priority writes, then reads.
pub open spec fn spec_select_source(
    shutdown_ready: bool,
    high_ready: bool,
    normal_ready: bool,
    read_ready: bool,
) -> Option<IoSource> {
    if shutdown_ready {
        Some(IoSource::Shutdown)
    } else if high_ready {
        Some(IoSource::HighWrite)
    } else if normal_ready {
        Some(IoSource::NormalWrite)
    } else if read_ready {
        Some(IoSource::Read)
    } else {
        None
    }
}

/// Pick which ready source the event loop services next.
pub fn select_source(
    shutdown_ready: bool,
    high_ready: bool,
    normal_ready: bool,
    read_ready: bool,
) -> (r: Option<IoSource>)
    ensures
        r == spec_select_source(shutdown_ready, high_ready, normal_ready, read_ready),
{
    if shutdown_ready {
        Some(IoSource::Shutdown)
    } else if high_ready {
        Some(IoSource::HighWrite)
    } else if normal_ready {
        Some(IoSource::NormalWrite)
    } else if read_ready {
        Some(IoSource::Read)
    } else {
        None
    }
}

/// How one outbound write ended.
#[derive(Debug, Clone, PartialEq, Eq)]
pub enum WriteOutcome {
    Completed,
    Failed(String),
    TimedOut,
}

/// Turn a write outcome into what the loop does next: a Tx event to
/// publish on success, or the connection's terminal error.
pub fn on_write_result(transport: &str, size: usize, outcome: WriteOutcome, timestamp_ms: u64) -> (r:
    Result<CommEvent, ConnectionExit>)
    ensures
        match outcome {
            WriteOutcome::Completed => r matches Ok(ev) && ev matches CommEvent::Tx {
                transport: t,
                size: sz,
                timestamp_ms: ts,
            } && t@ == transport@ && sz == size && ts == timestamp_ms,
            WriteOutcome::Failed(m) => r matches Err(x) && x matches ConnectionExit::IoError(msg)
                && msg@ == "Write failed: "@ + m@,
            WriteOutcome::TimedOut => r matches Err(x) && x matches ConnectionExit::IoError(msg)
                && msg@ == "Write timeout (2000ms)"@,
        },
{
    match outcome {
        WriteOutcome::Completed => Ok(
            CommEvent::Tx { transport: transport.to_owned(), size, timestamp_ms },
        ),
        WriteOutcome::Failed(m) => Err(
            ConnectionExit::IoError(String::from_str("Write failed: ").concat(m.as_str())),
        ),
        WriteOutcome::TimedOut => Err(
            ConnectionExit::IoError(String::from_str("Write timeout (2000ms)")),
        ),
    }
}

/// The connection's terminal error when a read ends it: the peer closed
/// the stream, or the read itself failed.
pub fn on_read_end(error: Option<String>) -> (x: ConnectionExit)
    ensures
        match error {
            None => x matches ConnectionExit::IoError(m) && m@ == "Remote closed"@,
            Some(e) => x matches ConnectionExit::IoError(m) && m@ == "Read failed: "@ + e@,
        },
{
    match error {
        None => ConnectionExit::IoError(String::from_str("Remote closed")),
        Some(e) => ConnectionExit::IoError(String::from_str("Read failed: ").concat(e.as_str())),
    }
}

/// One entry of the protocol event stream matches one drained item.
pub open spec fn hmip_item_matches(
    ev: HmipEvent,
    item: DrainItem,
    transport: Seq<char>,
    ts: u64,
) -> bool {
    match item {
        DrainItem::Failed { kind, dropped } => ev matches HmipEvent::DecodeError {
            transport: t,
            message,
            dropped_bytes,
            timestamp_ms,
        } && {
            &&& t@ == transport
            &&& message@ == kind_message(kind)
            &&& dropped_bytes == dropped
            &&& timestamp_ms == ts
        },
        DrainItem::GotFrame { frame } => ev matches HmipEvent::Message {
            transport: t,
            channel,
            seq,
            flags,
            msg_type,
            payload_len,
            payload_crc32,
            timestamp_ms,
            summary,
        } && {
            &&& t@ == transport
            &&& channel == frame.channel
            &&& seq == frame.seq
            &&& flags == frame.flags
            &&& msg_type == frame.msg_type
            &&& payload_len == frame.payload_len
            &&& payload_crc32 == frame.payload_crc32
            &&& timestamp_ms == ts
            &&& spec_frame_summary_matches(summary, frame.msg_type, frame.payload)
        },
    }
}

/// Feed received bytes to the decoder and drain it: push the bytes, then
/// extract frames and decode errors until the decoder asks for more data.
/// A decode error does not stop the loop — the decoder has already
/// resynchronized — and a push overflow yields a single error event. The
/// events are exactly the drained items of the combined buffer, in order.
pub fn process_incoming(
    dec: &mut FrameDecoder,
    transport: &str,
    bytes: &[u8],
    timestamp_ms: u64,
) -> (events: Vec<HmipEvent>)
    requires
        old(dec).wf(),
    ensures
        final(dec).wf(),
        final(dec).config() == old(dec).config(),
        ({
            let maxb = old(dec).config().max_buffer_len as nat;
            let maxp = old(dec).config().max_payload_len as nat;
            if spec_push_ok(old(dec)@, bytes@, maxb) {
                let full = spec_push_buf(old(dec)@, bytes@, maxb);
                let items = spec_drain(full, maxp);
                &&& events@.len() == items.len()
                &&& (forall|i: int|
                    0 <= i < items.len() ==> hmip_item_matches(
                        #[trigger] events@[i],
                        items[i],
                        transport@,
                        timestamp_ms,
                    ))
                &&& final(dec)@ == spec_drain_rest(full, maxp)
            } else {
                &&& events@.len() == 1
                &&& (events@[0] matches HmipEvent::DecodeError {
                    transport: t,
                    message,
                    dropped_bytes,
                    timestamp_ms: ts,
                } && t@ == transport@ && message@ == kind_message(DecodeErrKind::BufferOverflow)
                    && dropped_bytes == old(dec)@.len() && ts == timestamp_ms)
                &&& final(dec)@ == Seq::<u8>::empty()
            }
        }),
{
    let ghost maxp = dec.config().max_payload_len as nat;
    let mut events: Vec<HmipEvent> = Vec::new();
    match dec.push(bytes) {
        Err(e) => {
            events.push(
                HmipEvent::DecodeError {
                    transport: transport.to_owned(),
                    message: e.message,
                    dropped_bytes: e.dropped_bytes,
                    timestamp_ms,
                },
            );
            return events;
        },
        Ok(()) => {},
    }
    let ghost full = dec@;
    let ghost mut processed: Seq<DrainItem> = Seq::empty();
    #[verifier::loop_isolation(false)]
    loop
        invariant
            dec.wf(),
            dec.config() == old(dec).config(),
            spec_drain(full, maxp) == processed + spec_drain(dec@, maxp),
            spec_drain_rest(full, maxp) == spec_drain_rest(dec@, maxp),
            events@.len() == processed.len(),
            forall|i: int|
                0 <= i < processed.len() ==> hmip_item_matches(
                    #[trigger] events@[i],
                    processed[i],
                    transport@,
                    timestamp_ms,
                ),
        decreases dec@.len(),
    {
        let ghost pre = dec@;
        match dec.next_frame() {
            Ok(None) => {
                proof {
                    assert(spec_drain(pre, maxp) =~= Seq::<DrainItem>::empty());
                    assert(processed + spec_drain(pre, maxp) =~= processed);
                }
                return events;
            },
            Ok(Some(frame)) => {
                let summary = summarize_frame(&frame);
                events.push(
                    HmipEvent::Message {
                        transport: transport.to_owned(),
                        channel: frame.header.channel,
                        seq: frame.header.seq,
                        flags: frame.header.flags,
                        msg_type: frame.header.msg_type,
                        payload_len: frame.header.payload_len,
                        payload_crc32: frame.header.payload_crc32,
                        timestamp_ms,
                        summary,
                    },
                );
                proof {
                    lemma_decode_step_shrinks(pre, maxp);
                    match decode_step(pre, maxp) {
                        DecodeStep::Got { frame: f, buf } => {
                            processed = processed + seq![DrainItem::GotFrame { frame: f }];
                            assert(spec_drain(pre, maxp) =~= seq![DrainItem::GotFrame { frame: f }]
                                + spec_drain(buf, maxp));
                            assert(processed + spec_drain(dec@, maxp) =~= spec_drain(full, maxp));
                        },
                        _ => {
                            assert(false);
                        },
                    }
                }
            },
            Err(e) => {
                events.push(
                    HmipEvent::DecodeError {
                        transport: transport.to_owned(),
                        message: e.message,
                        dropped_bytes: e.dropped_bytes,
                        timestamp_ms,
                    },
                );
                proof {
                    lemma_decode_step_shrinks(pre, maxp);
                    match decode_step(pre, maxp) {
                        DecodeStep::Bad { kind, dropped, buf } => {
                            processed = processed + seq![DrainItem::Failed { kind, dropped }];
                            assert(spec_drain(pre, maxp) =~= seq![
                                DrainItem::Failed { kind, dropped },
                            ] + spec_drain(buf, maxp));
                            assert(processed + spec_drain(dec@, maxp) =~= spec_drain(full, maxp));
                        },
                        _ => {
                            assert(false);
                        },
                    }
                }
            },
        }
    }
}

/// One received chunk, handled in full: the Rx event describing the bytes,
/// and the protocol events its frames produce.
pub fn handle_read_data(
    dec: &mut FrameDecoder,
    transport: &str,
    data: &[u8],
    timestamp_ms: u64,
) -> (r: (CommEvent, Vec<HmipEvent>))
    requires
        old(dec).wf(),
        data@.len() <= 0x10000000,
    ensures
        final(dec).wf(),
        final(dec).config() == old(dec).config(),
        (r.0 matches CommEvent::Rx { transport: t, data_base64, text, size, timestamp_ms: ts } && {
            &&& t@ == transport@
            &&& data_base64@ == base64_of(data@)
            &&& (match text {
                Some(s) => spec_maybe_utf8_preview(data@) matches Some(v) && s@ == v,
                None => spec_maybe_utf8_preview(data@) is None,
            })
            &&& size == data@.len()
            &&& ts == timestamp_ms
        }),
        ({
            let maxb = old(dec).config().max_buffer_len as nat;
            let maxp = old(dec).config().max_payload_len as nat;
            if spec_push_ok(old(dec)@, data@, maxb) {
                let full = spec_push_buf(old(dec)@, data@, maxb);
                let items = spec_drain(full, maxp);
                &&& r.1@.len() == items.len()
                &&& (forall|i: int|
                    0 <= i < items.len() ==> hmip_item_matches(
                        #[trigger] r.1@[i],
                        items[i],
                        transport@,
                        timestamp_ms,
                    ))
                &&& final(dec)@ == spec_drain_rest(full, maxp)
            } else {
                &&& r.1@.len() == 1
                &&& (r.1@[0] matches HmipEvent::DecodeError {
                    transport: t,
                    message,
                    dropped_bytes,
                    timestamp_ms: ts,
                } && t@ == transport@ && message@ == kind_message(DecodeErrKind::BufferOverflow)
                    && dropped_bytes == old(dec)@.len() && ts == timestamp_ms)
                &&& final(dec)@ == Seq::<u8>::empty()
            }
        }),
{
    let rx = CommEvent::Rx {
        transport: transport.to_owned(),
        data_base64: base64_encode(data),
        text: maybe_utf8_preview(data),
        size: data.len(),
        timestamp_ms,
    };
    let events = process_incoming(dec, transport, data, timestamp_ms);
    (rx, events)
}

/// The states of one transport actor's reconnect supervisor.
#[derive(Debug, Clone, Copy, PartialEq, Eq)]
pub enum ActorPhase {
    /// Obtaining a byte stream.
    Connecting,
    /// Running the event loop on a live stream.
    Connected,
    /// Sleeping out a backoff delay before trying again.
    Reconnecting,
    /// Terminal: the actor has shut down.
    Shutdown,
}

/// Supervisor state: the phase and the failed-attempt counter, which
/// resets on every successful connection.
#[derive(Debug, Clone, Copy, PartialEq, Eq)]
pub struct SupervisorState {
    pub phase: ActorPhase,
    pub attempt: u32,
}

/// What happened, as reported to the supervisor by the surrounding loop.
#[derive(Debug, Clone, PartialEq, Eq)]
pub enum SupervisorEvent {
    /// A stream was obtained.
    StreamReady,
    /// Obtaining a stream failed, with the reason.
    OpenFailed(String),
    /// A live connection ended with an error, with the reason.
    ConnectionLost(String),
    /// The owner requested shutdown.
    ShutdownRequested,
    /// The backoff sleep ran out.
    BackoffElapsed,
}

/// What the surrounding loop must do next.
#[derive(Debug, Clone, Copy, PartialEq, Eq)]
pub enum SupervisorAction {
    /// Ask the transport for a byte stream.
    OpenStream,
    /// Run the connected event loop on the obtained stream.
    RunConnection,
    /// Sleep for the given delay, racing the shutdown signal.
    Sleep(u64),
    /// Emit nothing more and terminate the worker.
    Stop,
}

/// The action a phase is waiting on when no transition applies.
pub open spec fn spec_phase_action(s: SupervisorState) -> SupervisorAction {
    match s.phase {
        ActorPhase::Connecting => SupervisorAction::OpenStream,
        ActorPhase::Connected => SupervisorAction::RunConnection,
        ActorPhase::Reconnecting => SupervisorAction::Sleep(spec_backoff_ms(s.attempt)),
        ActorPhase::Shutdown => SupervisorAction::Stop,
    }
}

/// The attempt counter after one more failure, saturating.
pub open spec fn spec_next_attempt(attempt: u32) -> u32 {
    if attempt < u32::MAX {
        (attempt + 1) as u32
    } else {
        u32::MAX
    }
}

/// Whether an event/state pair is a failure that begins a backoff wait.
pub open spec fn spec_supervisor_failure(s: SupervisorState, ev: SupervisorEvent) -> bool {
    match ev {
        SupervisorEvent::OpenFailed(m) => s.phase is Connecting,
        SupervisorEvent::ConnectionLost(m) => s.phase is Connected,
        _ => false,
    }
}

/// One step of the reconnect state machine. Shutdown takes precedence and
/// is terminal, with a final Disconnected event; a ready stream resets the
/// attempt counter and connects; a failure increments it, publishes the
/// error and a Reconnecting notice, and sleeps out the backoff; an elapsed
/// backoff tries to connect again. An event that does not apply to the
/// phase changes nothing and repeats the phase's pending action.
pub fn supervisor_step(
    state: SupervisorState,
    event: SupervisorEvent,
    transport: &str,
    timestamp_ms: u64,
) -> (r: (SupervisorState, SupervisorAction, Vec<CommEvent>))
    ensures
        ({
            let (next, action, evs) = r;
            if state.phase is Shutdown {
                &&& next == state
                &&& action == SupervisorAction::Stop
                &&& evs@.len() == 0
            } else if event is ShutdownRequested {
                &&& next == (SupervisorState { phase: ActorPhase::Shutdown, ..state })
                &&& action == SupervisorAction::Stop
                &&& evs@.len() == 1
                &&& (evs@[0] matches CommEvent::Disconnected { transport: t, timestamp_ms: ts }
                    && t@ == transport@ && ts == timestamp_ms)
            } else if state.phase is Connecting && event is StreamReady {
                &&& next == SupervisorState { phase: ActorPhase::Connected, attempt: 0 }
                &&& action == SupervisorAction::RunConnection
                &&& evs@.len() == 1
                &&& (evs@[0] matches CommEvent::Connected { transport: t, timestamp_ms: ts } && t@
                    == transport@ && ts == timestamp_ms)
            } else if spec_supervisor_failure(state, event) {
                let reason = match event {
                    SupervisorEvent::OpenFailed(m) => m,
                    SupervisorEvent::ConnectionLost(m) => m,
                    _ => arbitrary(),
                };
                let a = spec_next_attempt(state.attempt);
                &&& next == SupervisorState { phase: ActorPhase::Reconnecting, attempt: a }
                &&& action == SupervisorAction::Sleep(spec_backoff_ms(a))
                &&& evs@.len() == 2
                &&& (evs@[0] matches CommEvent::Error { transport: t, message, timestamp_ms: ts }
                    && t@ == transport@ && message@ == reason@ && ts == timestamp_ms)
                &&& (evs@[1] matches CommEvent::Reconnecting {
                    transport: t,
                    attempt,
                    delay_ms,
                    timestamp_ms: ts,
                } && t@ == transport@ && attempt == a && delay_ms == spec_backoff_ms(a) && ts
                    == timestamp_ms)
            } else if state.phase is Reconnecting && event is BackoffElapsed {
                &&& next == (SupervisorState { phase: ActorPhase::Connecting, ..state })
                &&& action == SupervisorAction::OpenStream
                &&& evs@.len() == 0
            } else {
                &&& next == state
                &&& action == spec_phase_action(state)
                &&& evs@.len() == 0
            }
        }),
{
    let mut evs: Vec<CommEvent> = Vec::new();
    match state.phase {
        ActorPhase::Shutdown => (state, SupervisorAction::Stop, evs),
        _ => match event {
            SupervisorEvent::ShutdownRequested => {
                evs.push(
                    CommEvent::Disconnected { transport: transport.to_owned(), timestamp_ms },
                );
                (
                    SupervisorState { phase: ActorPhase::Shutdown, ..state },
                    SupervisorAction::Stop,
                    evs,
                )
            },
            SupervisorEvent::StreamReady => {
                if let ActorPhase::Connecting = state.phase {
                    evs.push(
                        CommEvent::Connected { transport: transport.to_owned(), timestamp_ms },
                    );
                    (
                        SupervisorState { phase: ActorPhase::Connected, attempt: 0 },
                        SupervisorAction::RunConnection,
                        evs,
                    )
                } else {
                    let action = phase_action(state);
                    (state, action, evs)
                }
            },
            SupervisorEvent::OpenFailed(reason) => {
                if let ActorPhase::Connecting = state.phase {
                    supervisor_fail(state, reason, transport, timestamp_ms)
                } else {
                    let action = phase_action(state);
                    (state, action, evs)
                }
            },
            SupervisorEvent::ConnectionLost(reason) => {
                if let ActorPhase::Connected = state.phase {
                    supervisor_fail(state, reason, transport, timestamp_ms)
                } else {
                    let action = phase_action(state);
                    (state, action, evs)
                }
            },
            SupervisorEvent::BackoffElapsed => {
                if let ActorPhase::Reconnecting = state.phase {
                    (
                        SupervisorState { phase: ActorPhase::Connecting, ..state },
                        SupervisorAction::OpenStream,
                        evs,
                    )
                } else {
                    let action = phase_action(state);
                    (state, action, evs)
                }
            },
        },
    }
}

/// The pending action of a phase, executable form of `spec_phase_action`.
fn phase_action(s: SupervisorState) -> (a: SupervisorAction)
    ensures
        a == spec_phase_action(s),
{
    match s.phase {
        ActorPhase::Connecting => SupervisorAction::OpenStream,
        ActorPhase::Connected => SupervisorAction::RunConnection,
        ActorPhase::Reconnecting => SupervisorAction::Sleep(compute_backoff_ms(s.attempt)),
        ActorPhase::Shutdown => SupervisorAction::Stop,
    }
}

/// A failure transition: count the attempt, publish the error and the
/// Reconnecting notice, and sleep out the backoff.
fn supervisor_fail(state: SupervisorState, reason: String, transport: &str, timestamp_ms: u64) -> (r:
    (SupervisorState, SupervisorAction, Vec<CommEvent>))
    ensures
        ({
            let (next, action, evs) = r;
            let a = spec_next_attempt(state.attempt);
            &&& next == SupervisorState { phase: ActorPhase::Reconnecting, attempt: a }
            &&& action == SupervisorAction::Sleep(spec_backoff_ms(a))
            &&& evs@.len() == 2
            &&& (evs@[0] matches CommEvent::Error { transport: t, message, timestamp_ms: ts } && t@
                == transport@ && message@ == reason@ && ts == timestamp_ms)
            &&& (evs@[1] matches CommEvent::Reconnecting {
                transport: t,
                attempt,
                delay_ms,
                timestamp_ms: ts,
            } && t@ == transport@ && attempt == a && delay_ms == spec_backoff_ms(a) && ts
                == timestamp_ms)
        }),
{
    let attempt = if state.attempt < u32::MAX {
        state.attempt + 1
    } else {
        u32::MAX
    };
    let delay_ms = compute_backoff_ms(attempt);
    let mut evs: Vec<CommEvent> = Vec::new();
    evs.push(
        CommEvent::Error { transport: transport.to_owned(), message: reason, timestamp_ms },
    );
    evs.push(
        CommEvent::Reconnecting { transport: transport.to_owned(), attempt, delay_ms, timestamp_ms },
    );
    (
        SupervisorState { phase: ActorPhase::Reconnecting, attempt },
        SupervisorAction::Sleep(delay_ms),
        evs,
    )
}

} // verus!
