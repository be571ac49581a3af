//! Mathematical model of the HMIP wire format.
//!
//! Everything here is specification-level: the byte layout of an encoded
//! frame, the search for the frame marker in a noisy stream, and
//! `decode_step`, the exact meaning of one `FrameDecoder::next_frame` call
//! on a given buffer. The executable code in `frame` is verified against
//! these definitions, and the laws in `laws` are proved from them.
use vstd::bytes::spec_u32_to_le_bytes;
use vstd::bytes::spec_u32_from_le_bytes;
use vstd::prelude::*;

verus! {

/// First byte of the frame marker, ASCII 'H'.
pub const MAGIC_0: u8 = 0x48;

/// Second byte of the frame marker, ASCII 'M'.
pub const MAGIC_1: u8 = 0x4D;

/// Third byte of the frame marker, ASCII 'I'.
pub const MAGIC_2: u8 = 0x49;

/// Fourth byte of the frame marker, ASCII 'P'.
pub const MAGIC_3: u8 = 0x50;

/// Protocol version carried in every frame header.
pub const VERSION: u8 = 1;

/// Header flag bit: a CRC32 of the payload follows the fixed header.
pub const FLAG_CRC32: u8 = 0x01;

/// Header length without the optional CRC32 word.
pub const HEADER_LEN_BASE: usize = 16;

/// Header length with the optional CRC32 word.
pub const HEADER_LEN_WITH_CRC: usize = 20;

/// The 4-byte frame marker "HMIP".
pub open spec fn spec_magic() -> Seq<u8> {
    seq![MAGIC_0, MAGIC_1, MAGIC_2, MAGIC_3]
}

/// The IEEE CRC-32 checksum of a byte sequence, as computed by the
/// `crc32fast` crate; left uninterpreted, the checksum is a function of the
/// bytes alone.
pub uninterp spec fn crc32_of(bytes: Seq<u8>) -> u32;

/// The frame marker occurs in `b` at offset `i`.
pub open spec fn magic_at(b: Seq<u8>, i: int) -> bool {
    &&& 0 <= i
    &&& i + 4 <= b.len()
    &&& b[i] == MAGIC_0
    &&& b[i + 1] == MAGIC_1
    &&& b[i + 2] == MAGIC_2
    &&& b[i + 3] == MAGIC_3
}

/// The frame marker occurs somewhere in `b`.
pub open spec fn has_magic(b: Seq<u8>) -> bool {
    exists|i: int| magic_at(b, i)
}

/// `i` is the earliest offset of the frame marker in `b`.
pub open spec fn is_first_magic(b: Seq<u8>, i: int) -> bool {
    &&& magic_at(b, i)
    &&& forall|j: int| 0 <= j < i ==> !magic_at(b, j)
}

/// The earliest offset of the frame marker in `b`; meaningful only when
/// `has_magic(b)` holds.
pub open spec fn first_magic_index(b: Seq<u8>) -> int {
    choose|i: int| is_first_magic(b, i)
}

/// Below any offset where the marker occurs there is an earliest occurrence.
proof fn lemma_first_magic_below(b: Seq<u8>, w: int)
    requires
        magic_at(b, w),
    ensures
        exists|i: int| is_first_magic(b, i),
    decreases w,
{
    if forall|j: int| 0 <= j < w ==> !magic_at(b, j) {
        assert(is_first_magic(b, w));
    } else {
        let j = choose|j: int| 0 <= j < w && magic_at(b, j);
        lemma_first_magic_below(b, j);
    }
}

/// When the marker occurs at all, `first_magic_index` names its earliest
/// occurrence, and that occurrence is unique.
pub proof fn lemma_first_magic_exists(b: Seq<u8>)
    requires
        has_magic(b),
    ensures
        is_first_magic(b, first_magic_index(b)),
        forall|i: int| is_first_magic(b, i) ==> i == first_magic_index(b),
{
    let w = choose|i: int| magic_at(b, i);
    lemma_first_magic_below(b, w);
    let f = first_magic_index(b);
    assert(is_first_magic(b, f));
    assert forall|i: int| is_first_magic(b, i) implies i == f by {
        if i < f {
            assert(!magic_at(b, i));
        }
        if f < i {
            assert(!magic_at(b, f));
        }
    }
}

/// One decoded frame, as a mathematical value: the header fields together
/// with the payload bytes.
pub struct SpecFrame {
    pub msg_type: u8,
    pub flags: u8,
    pub channel: u8,
    pub seq: u32,
    pub payload_len: u32,
    pub payload_crc32: Option<u32>,
    pub payload: Seq<u8>,
}

/// The reasons one `next_frame` or `push` call reports an error.
pub enum DecodeErrKind {
    /// Bytes before the next frame marker were discarded.
    ResyncSkipped,
    /// No frame marker anywhere; all but the last 3 bytes were discarded.
    MagicNotFound,
    /// The declared payload length exceeds the configured maximum.
    PayloadTooLarge,
    /// The embedded CRC32 does not match the payload.
    CrcMismatch,
    /// A push would have grown the buffer beyond its configured maximum.
    BufferOverflow,
}

/// The message text reported with each error kind.
pub open spec fn kind_message(kind: DecodeErrKind) -> Seq<char> {
    match kind {
        DecodeErrKind::ResyncSkipped => "Resync: dropped bytes before magic"@,
        DecodeErrKind::MagicNotFound => "Resync: magic not found"@,
        DecodeErrKind::PayloadTooLarge => "Payload too large"@,
        DecodeErrKind::CrcMismatch => "CRC32 mismatch"@,
        DecodeErrKind::BufferOverflow => "Decoder buffer overflow"@,
    }
}

/// The outcome of one `next_frame` call on a buffer: more data is needed, a
/// frame was extracted, or bytes were consumed while reporting an error. In
/// every case `buf` is the buffer left behind.
pub enum DecodeStep {
    NeedMore { buf: Seq<u8> },
    Got { frame: SpecFrame, buf: Seq<u8> },
    Bad { kind: DecodeErrKind, dropped: nat, buf: Seq<u8> },
}

/// The header length an encoded frame has under flag byte `flags`.
pub open spec fn spec_header_len(flags: u8) -> int {
    if flags & FLAG_CRC32 != 0 {
        20
    } else {
        16
    }
}

/// The bytes produced by `encode_frame`: marker, version, type, flags,
/// channel, sequence number and payload length little-endian, then the
/// payload CRC32 exactly when the CRC flag bit is set, then the payload.
pub open spec fn spec_encode_frame(
    msg_type: u8,
    flags: u8,
    channel: u8,
    seq: u32,
    payload: Seq<u8>,
) -> Seq<u8> {
    let head = spec_magic() + seq![VERSION, msg_type, flags, channel] + spec_u32_to_le_bytes(seq)
        + spec_u32_to_le_bytes(payload.len() as u32);
    if flags & FLAG_CRC32 != 0 {
        head + spec_u32_to_le_bytes(crc32_of(payload)) + payload
    } else {
        head + payload
    }
}

/// What one `next_frame` call does to a buffer `b` under payload bound
/// `max_payload`: resynchronize on the frame marker, validate the version
/// byte (dropping one byte and retrying on mismatch), bound the declared
/// payload length, then extract the frame and check its CRC when flagged.
pub open spec fn decode_step(b: Seq<u8>, max_payload: nat) -> DecodeStep
    decreases b.len(),
{
    if b.len() < 4 {
        DecodeStep::NeedMore { buf: b }
    } else if !magic_at(b, 0) {
        if has_magic(b) {
            let i = first_magic_index(b);
            DecodeStep::Bad { kind: DecodeErrKind::ResyncSkipped, dropped: i as nat, buf: b.skip(i) }
        } else {
            let n = b.len() - 3;
            DecodeStep::Bad { kind: DecodeErrKind::MagicNotFound, dropped: n as nat, buf: b.skip(n) }
        }
    } else if b.len() < HEADER_LEN_BASE {
        DecodeStep::NeedMore { buf: b }
    } else if b[4] != VERSION {
        match decode_step(b.skip(1), max_payload) {
            DecodeStep::Bad { kind, dropped, buf } => DecodeStep::Bad {
                kind,
                dropped: dropped + 1,
                buf,
            },
            step => step,
        }
    } else {
        let flags = b[6];
        let header_len: int = if flags & FLAG_CRC32 != 0 {
            HEADER_LEN_WITH_CRC as int
        } else {
            HEADER_LEN_BASE as int
        };
        if b.len() < header_len {
            DecodeStep::NeedMore { buf: b }
        } else {
            let payload_len = spec_u32_from_le_bytes(b.subrange(12, 16));
            if payload_len as nat > max_payload {
                DecodeStep::Bad {
                    kind: DecodeErrKind::PayloadTooLarge,
                    dropped: 1,
                    buf: b.skip(1),
                }
            } else {
                let frame_len = header_len + payload_len;
                if b.len() < frame_len {
                    DecodeStep::NeedMore { buf: b }
                } else {
                    let payload = b.subrange(header_len, frame_len);
                    let crc = if flags & FLAG_CRC32 != 0 {
                        Some(spec_u32_from_le_bytes(b.subrange(16, 20)))
                    } else {
                        None
                    };
                    if crc matches Some(expected) && expected != crc32_of(payload) {
                        DecodeStep::Bad {
                            kind: DecodeErrKind::CrcMismatch,
                            dropped: 0,
                            buf: b.skip(frame_len),
                        }
                    } else {
                        DecodeStep::Got {
                            frame: SpecFrame {
                                msg_type: b[5],
                                flags,
                                channel: b[7],
                                seq: spec_u32_from_le_bytes(b.subrange(8, 12)),
                                payload_len,
                                payload_crc32: crc,
                                payload,
                            },
                            buf: b.skip(frame_len),
                        }
                    }
                }
            }
        }
    }
}

/// The same step with `extra` earlier-dropped bytes folded into an error
/// report; frames and waits are unchanged. Relates a decoder that has
/// already skipped bytes to the step on the buffer it started from.
pub open spec fn add_dropped(step: DecodeStep, extra: nat) -> DecodeStep {
    match step {
        DecodeStep::Bad { kind, dropped, buf } => DecodeStep::Bad {
            kind,
            dropped: dropped + extra,
            buf,
        },
        s => s,
    }
}

/// Whether a `push` of `bytes` onto `buf` succeeds under buffer bound `max`.
pub open spec fn spec_push_ok(buf: Seq<u8>, bytes: Seq<u8>, max: nat) -> bool {
    bytes.len() == 0 || buf.len() + bytes.len() <= max
}

/// The buffer after a `push` of `bytes` onto `buf`: appended on success,
/// cleared on overflow.
pub open spec fn spec_push_buf(buf: Seq<u8>, bytes: Seq<u8>, max: nat) -> Seq<u8> {
    if spec_push_ok(buf, bytes, max) {
        buf + bytes
    } else {
        Seq::empty()
    }
}

/// A frame extracted, or an error reported, while draining the decoder.
pub enum DrainItem {
    GotFrame { frame: SpecFrame },
    Failed { kind: DecodeErrKind, dropped: nat },
}

/// Each step other than a wait consumes at least one buffered byte; a wait
/// leaves no more than was there. Forward progress of the decoder.
pub proof fn lemma_decode_step_shrinks(b: Seq<u8>, max_payload: nat)
    ensures
        match decode_step(b, max_payload) {
            DecodeStep::NeedMore { buf } => buf.len() <= b.len(),
            DecodeStep::Got { frame, buf } => buf.len() < b.len(),
            DecodeStep::Bad { kind, dropped, buf } => buf.len() < b.len(),
        },
    decreases b.len(),
{
    if b.len() >= 4 && !magic_at(b, 0) {
        if has_magic(b) {
            lemma_first_magic_exists(b);
            let i = first_magic_index(b);
            if i == 0 {
                assert(magic_at(b, 0));
            }
        }
    } else if b.len() >= HEADER_LEN_BASE && magic_at(b, 0) && b[4] != VERSION {
        lemma_decode_step_shrinks(b.skip(1), max_payload);
    }
}

/// The sequence of frames and errors that repeated `next_frame` calls
/// report on buffer `b`, up to the first wait for more data.
pub open spec fn spec_drain(b: Seq<u8>, max_payload: nat) -> Seq<DrainItem>
    decreases b.len(),
    via spec_drain_decreases
{
    match decode_step(b, max_payload) {
        DecodeStep::NeedMore { buf } => Seq::empty(),
        DecodeStep::Got { frame, buf } => seq![DrainItem::GotFrame { frame }] + spec_drain(
            buf,
            max_payload,
        ),
        DecodeStep::Bad { kind, dropped, buf } => seq![DrainItem::Failed { kind, dropped }]
            + spec_drain(buf, max_payload),
    }
}

#[via_fn]
proof fn spec_drain_decreases(b: Seq<u8>, max_payload: nat) {
    lemma_decode_step_shrinks(b, max_payload);
}

/// The buffer left after draining `b`: what the first wait reports.
pub open spec fn spec_drain_rest(b: Seq<u8>, max_payload: nat) -> Seq<u8>
    decreases b.len(),
    via spec_drain_rest_decreases
{
    match decode_step(b, max_payload) {
        DecodeStep::NeedMore { buf } => buf,
        DecodeStep::Got { frame, buf } => spec_drain_rest(buf, max_payload),
        DecodeStep::Bad { kind, dropped, buf } => spec_drain_rest(buf, max_payload),
    }
}

#[via_fn]
proof fn spec_drain_rest_decreases(b: Seq<u8>, max_payload: nat) {
    lemma_decode_step_shrinks(b, max_payload);
}

} // verus!
