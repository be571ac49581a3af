//! The frame codec's guarantees, stated and proved over the model in
//! `wire`: encode/decode round trip, split-delivery invariance, resync
//! liveness, CRC enforcement, and recovery after a buffer overflow.
use crate::wire::DecodeErrKind;
use crate::wire::DecodeStep;
use crate::wire::crc32_of;
use crate::wire::decode_step;
use crate::wire::first_magic_index;
use crate::wire::has_magic;
use crate::wire::is_first_magic;
use crate::wire::lemma_first_magic_exists;
use crate::wire::magic_at;
use crate::wire::spec_encode_frame;
use crate::wire::spec_header_len;
use crate::wire::spec_magic;
use crate::wire::spec_drain;
use crate::wire::spec_push_buf;
use crate::wire::spec_push_ok;
use crate::wire::FLAG_CRC32;
use crate::wire::MAGIC_0;
use crate::wire::VERSION;
use vstd::bytes::lemma_auto_spec_u32_to_from_le_bytes;
use vstd::bytes::spec_u32_to_le_bytes;
use vstd::prelude::*;

verus! {

/// Shape of an encoded frame: its length, the marker and header bytes at
/// their offsets, and the payload as the tail.
proof fn lemma_encode_frame_shape(
    msg_type: u8,
    flags: u8,
    channel: u8,
    seq: u32,
    payload: Seq<u8>,
)
    requires
        payload.len() <= u32::MAX,
    ensures
        ({
            let b = spec_encode_frame(msg_type, flags, channel, seq, payload);
            let hl = spec_header_len(flags);
            &&& b.len() == hl + payload.len()
            &&& magic_at(b, 0)
            &&& b[4] == VERSION
            &&& b[5] == msg_type
            &&& b[6] == flags
            &&& b[7] == channel
            &&& b.subrange(8, 12) == spec_u32_to_le_bytes(seq)
            &&& b.subrange(12, 16) == spec_u32_to_le_bytes(payload.len() as u32)
            &&& (flags & FLAG_CRC32 != 0 ==> b.subrange(16, 20) == spec_u32_to_le_bytes(
                crc32_of(payload),
            ))
            &&& b.subrange(hl, b.len() as int) == payload
        }),
{
    lemma_auto_spec_u32_to_from_le_bytes();
    let b = spec_encode_frame(msg_type, flags, channel, seq, payload);
    let hl = spec_header_len(flags);
    let head = spec_magic() + seq![VERSION, msg_type, flags, channel] + spec_u32_to_le_bytes(seq)
        + spec_u32_to_le_bytes(payload.len() as u32);
    assert(head.len() == 16);
    assert(b.len() == hl + payload.len());
    assert(b.subrange(8, 12) =~= spec_u32_to_le_bytes(seq));
    assert(b.subrange(12, 16) =~= spec_u32_to_le_bytes(payload.len() as u32));
    if flags & FLAG_CRC32 != 0 {
        assert(b.subrange(16, 20) =~= spec_u32_to_le_bytes(crc32_of(payload)));
    }
    assert(b.subrange(hl, b.len() as int) =~= payload);
}

/// Round trip: decoding the encoding of any frame whose payload respects
/// the decoder's payload bound yields exactly that frame, consuming every
/// byte, with the CRC word present exactly when the CRC flag bit is set.
pub proof fn lemma_encode_decode_round_trip(
    msg_type: u8,
    flags: u8,
    channel: u8,
    seq: u32,
    payload: Seq<u8>,
    max_payload: nat,
)
    requires
        payload.len() <= max_payload,
        payload.len() <= u32::MAX,
    ensures
        ({
            let b = spec_encode_frame(msg_type, flags, channel, seq, payload);
            decode_step(b, max_payload) matches DecodeStep::Got { frame, buf } && {
                &&& frame.msg_type == msg_type
                &&& frame.flags == flags
                &&& frame.channel == channel
                &&& frame.seq == seq
                &&& frame.payload_len == payload.len()
                &&& frame.payload == payload
                &&& frame.payload_crc32 == (if flags & FLAG_CRC32 != 0 {
                    Some(crc32_of(payload))
                } else {
                    None::<u32>
                })
                &&& buf == Seq::<u8>::empty()
            }
        }),
{
    lemma_auto_spec_u32_to_from_le_bytes();
    lemma_encode_frame_shape(msg_type, flags, channel, seq, payload);
    let b = spec_encode_frame(msg_type, flags, channel, seq, payload);
    let hl = spec_header_len(flags);
    assert(b.len() >= 16);
    assert(b.skip(b.len() as int) =~= Seq::<u8>::empty());
}

/// Concatenation of a sequence of byte chunks.
pub open spec fn concat_chunks(chunks: Seq<Seq<u8>>) -> Seq<u8>
    decreases chunks.len(),
{
    if chunks.len() == 0 {
        Seq::empty()
    } else {
        chunks[0] + concat_chunks(chunks.drop_first())
    }
}

/// The decoder buffer after pushing the chunks one by one.
pub open spec fn buf_after_pushes(buf: Seq<u8>, chunks: Seq<Seq<u8>>, max: nat) -> Seq<u8>
    decreases chunks.len(),
{
    if chunks.len() == 0 {
        buf
    } else {
        buf_after_pushes(spec_push_buf(buf, chunks[0], max), chunks.drop_first(), max)
    }
}

/// Every push along the way succeeds.
pub open spec fn pushes_ok(buf: Seq<u8>, chunks: Seq<Seq<u8>>, max: nat) -> bool
    decreases chunks.len(),
{
    chunks.len() == 0 || (spec_push_ok(buf, chunks[0], max) && pushes_ok(
        spec_push_buf(buf, chunks[0], max),
        chunks.drop_first(),
        max,
    ))
}

/// Split-delivery invariance: pushing a byte stream in arbitrarily many
/// chunks of arbitrary size leaves the decoder buffer identical to pushing
/// it in one call, as long as the whole fits in the buffer; every push
/// succeeds. Since `next_frame` is a function of the buffer alone, the
/// frames later extracted are the same in both cases.
pub proof fn lemma_split_delivery_invariance(
    buf: Seq<u8>,
    chunks: Seq<Seq<u8>>,
    max: nat,
    max_payload: nat,
)
    requires
        buf.len() + concat_chunks(chunks).len() <= max,
    ensures
        pushes_ok(buf, chunks, max),
        buf_after_pushes(buf, chunks, max) == buf + concat_chunks(chunks),
        buf_after_pushes(buf, chunks, max) == spec_push_buf(buf, concat_chunks(chunks), max),
        spec_drain(buf_after_pushes(buf, chunks, max), max_payload) == spec_drain(
            spec_push_buf(buf, concat_chunks(chunks), max),
            max_payload,
        ),
    decreases chunks.len(),
{
    if chunks.len() == 0 {
        assert(buf + concat_chunks(chunks) =~= buf);
    } else {
        let c0 = chunks[0];
        let rest = chunks.drop_first();
        assert(concat_chunks(chunks) == c0 + concat_chunks(rest));
        assert(spec_push_ok(buf, c0, max));
        assert(spec_push_buf(buf, c0, max) =~= buf + c0);
        lemma_split_delivery_invariance(buf + c0, rest, max, max_payload);
        assert((buf + c0) + concat_chunks(rest) =~= buf + concat_chunks(chunks));
    }
}

/// Resync liveness: when the buffer holds garbage free of the frame marker
/// followed by a well-formed frame, the first `next_frame` call drops
/// exactly the garbage, reporting its length, and the next call yields
/// exactly the frame.
pub proof fn lemma_resync_liveness(
    garbage: Seq<u8>,
    msg_type: u8,
    flags: u8,
    channel: u8,
    seq: u32,
    payload: Seq<u8>,
    max_payload: nat,
)
    requires
        garbage.len() > 0,
        forall|i: int| !magic_at(garbage, i),
        payload.len() <= max_payload,
        payload.len() <= u32::MAX,
    ensures
        ({
            let fb = spec_encode_frame(msg_type, flags, channel, seq, payload);
            let step = decode_step(garbage + fb, max_payload);
            &&& step matches DecodeStep::Bad { kind, dropped, buf } && {
                &&& kind is ResyncSkipped
                &&& dropped == garbage.len()
                &&& buf == fb
            }
            &&& decode_step(fb, max_payload) matches DecodeStep::Got { frame, buf } && {
                &&& frame.msg_type == msg_type
                &&& frame.seq == seq
                &&& frame.payload == payload
                &&& buf == Seq::<u8>::empty()
            }
        }),
{
    lemma_encode_frame_shape(msg_type, flags, channel, seq, payload);
    let fb = spec_encode_frame(msg_type, flags, channel, seq, payload);
    let b = garbage + fb;
    let g = garbage.len() as int;
    assert(magic_at(b, g)) by {
        assert(b[g] == fb[0]);
        assert(b[g + 1] == fb[1]);
        assert(b[g + 2] == fb[2]);
        assert(b[g + 3] == fb[3]);
    }
    assert forall|i: int| 0 <= i < g implies !magic_at(b, i) by {
        if magic_at(b, i) {
            if i + 4 <= g {
                assert(magic_at(garbage, i));
            } else {
                // The marker would straddle the boundary; but the byte at the
                // boundary is the marker's first byte, which no later marker
                // byte equals.
                let k = g - i;
                assert(1 <= k < 4);
                assert(b[g] == fb[0] == MAGIC_0);
                assert(b[i + k] == b[g]);
            }
        }
    }
    assert(is_first_magic(b, g));
    assert(!magic_at(b, 0));
    assert(has_magic(b));
    lemma_first_magic_exists(b);
    assert(first_magic_index(b) == g);
    assert(b.skip(g) =~= fb);
    lemma_encode_decode_round_trip(msg_type, flags, channel, seq, payload, max_payload);
}

/// CRC enforcement: a structurally valid CRC-flagged frame whose payload
/// bytes were replaced by any same-length bytes with a different CRC32 is
/// consumed whole and reported as a CRC mismatch; no frame comes out.
pub proof fn lemma_crc_enforcement(
    msg_type: u8,
    flags: u8,
    channel: u8,
    seq: u32,
    payload: Seq<u8>,
    corrupt: Seq<u8>,
    max_payload: nat,
)
    requires
        flags & FLAG_CRC32 != 0,
        payload.len() <= max_payload,
        payload.len() <= u32::MAX,
        corrupt.len() == payload.len(),
        crc32_of(corrupt) != crc32_of(payload),
    ensures
        ({
            let good = spec_encode_frame(msg_type, flags, channel, seq, payload);
            let bytes = good.take(20) + corrupt;
            decode_step(bytes, max_payload) matches DecodeStep::Bad { kind, dropped, buf } && {
                &&& kind is CrcMismatch
                &&& dropped == 0
                &&& buf == Seq::<u8>::empty()
            }
        }),
{
    lemma_auto_spec_u32_to_from_le_bytes();
    lemma_encode_frame_shape(msg_type, flags, channel, seq, payload);
    let good = spec_encode_frame(msg_type, flags, channel, seq, payload);
    let bytes = good.take(20) + corrupt;
    assert(bytes.len() == 20 + corrupt.len());
    assert(magic_at(bytes, 0)) by {
        assert(bytes[0] == good[0]);
        assert(bytes[1] == good[1]);
        assert(bytes[2] == good[2]);
        assert(bytes[3] == good[3]);
    }
    assert(bytes[4] == good[4]);
    assert(bytes[6] == good[6]);
    assert(bytes.subrange(12, 16) =~= good.subrange(12, 16));
    assert(bytes.subrange(16, 20) =~= good.subrange(16, 20));
    assert(bytes.subrange(20, bytes.len() as int) =~= corrupt);
    assert(bytes.skip(bytes.len() as int) =~= Seq::<u8>::empty());
}

/// Buffer bound: a push that would exceed the buffer bound reports exactly
/// the bytes held at that moment and clears the buffer, and the decoder
/// stays usable: a well-formed frame pushed afterwards decodes exactly.
pub proof fn lemma_overflow_reports_and_recovers(
    buf: Seq<u8>,
    bytes: Seq<u8>,
    msg_type: u8,
    flags: u8,
    channel: u8,
    seq: u32,
    payload: Seq<u8>,
    max_buffer: nat,
    max_payload: nat,
)
    requires
        bytes.len() > 0,
        buf.len() + bytes.len() > max_buffer,
        payload.len() <= max_payload,
        payload.len() <= u32::MAX,
        spec_header_len(flags) + payload.len() <= max_buffer,
    ensures
        !spec_push_ok(buf, bytes, max_buffer),
        spec_push_buf(buf, bytes, max_buffer) == Seq::<u8>::empty(),
        ({
            let fb = spec_encode_frame(msg_type, flags, channel, seq, payload);
            let after = spec_push_buf(spec_push_buf(buf, bytes, max_buffer), fb, max_buffer);
            &&& after == fb
            &&& decode_step(after, max_payload) matches DecodeStep::Got { frame, buf } && {
                &&& frame.msg_type == msg_type
                &&& frame.seq == seq
                &&& frame.payload == payload
                &&& buf == Seq::<u8>::empty()
            }
        }),
{
    lemma_encode_frame_shape(msg_type, flags, channel, seq, payload);
    let fb = spec_encode_frame(msg_type, flags, channel, seq, payload);
    assert(spec_push_buf(buf, bytes, max_buffer) == Seq::<u8>::empty());
    assert(Seq::<u8>::empty() + fb =~= fb);
    assert(spec_push_buf(Seq::<u8>::empty(), fb, max_buffer) =~= fb);
    lemma_encode_decode_round_trip(msg_type, flags, channel, seq, payload, max_payload);
}

} // verus!
