//! Executable HMIP frame codec: `encode_frame` and the streaming,
//! resynchronizing `FrameDecoder`, verified against the model in `wire`.
use crate::wire::DecodeErrKind;
use crate::wire::DecodeStep;
use crate::wire::SpecFrame;
use crate::wire::add_dropped;
use crate::wire::crc32_of;
use crate::wire::decode_step;
use crate::wire::first_magic_index;
use crate::wire::has_magic;
use crate::wire::is_first_magic;
use crate::wire::kind_message;
use crate::wire::lemma_first_magic_exists;
use crate::wire::magic_at;
use crate::wire::spec_encode_frame;
use crate::wire::spec_header_len;
use crate::wire::spec_push_buf;
use crate::wire::spec_push_ok;
use crate::wire::FLAG_CRC32;
use crate::wire::HEADER_LEN_BASE;
use crate::wire::HEADER_LEN_WITH_CRC;
use crate::wire::MAGIC_0;
use crate::wire::MAGIC_1;
use crate::wire::MAGIC_2;
use crate::wire::MAGIC_3;
use crate::wire::VERSION;
use vstd::bytes::u32_from_le_bytes;
use vstd::bytes::u32_to_le_bytes;
use vstd::prelude::*;
use vstd::slice::slice_subrange;
use vstd::slice::slice_to_vec;
use vstd::string::StringExecFns;

verus! {

/// The fixed-layout header of one frame.
#[derive(Debug, Clone, Copy, PartialEq, Eq)]
pub struct FrameHeader {
    pub msg_type: u8,
    pub flags: u8,
    pub channel: u8,
    pub seq: u32,
    pub payload_len: u32,
    /// Present exactly when bit 0 of `flags` is set.
    pub payload_crc32: Option<u32>,
}

/// One length-delimited unit of the wire protocol; the payload holds
/// exactly `header.payload_len` bytes.
#[derive(Debug, Clone, PartialEq, Eq)]
pub struct Frame {
    pub header: FrameHeader,
    pub payload: Vec<u8>,
}

impl View for Frame {
    type V = SpecFrame;

    open spec fn view(&self) -> SpecFrame {
        SpecFrame {
            msg_type: self.header.msg_type,
            flags: self.header.flags,
            channel: self.header.channel,
            seq: self.header.seq,
            payload_len: self.header.payload_len,
            payload_crc32: self.header.payload_crc32,
            payload: self.payload@,
        }
    }
}

/// An error reported by the decoder, with the number of bytes discarded to
/// regain synchronization.
#[derive(Debug, Clone, PartialEq, Eq)]
pub struct DecodeError {
    pub message: String,
    pub dropped_bytes: usize,
}

/// Bounds that keep a noisy or malicious stream from growing the decoder
/// without limit.
#[derive(Debug, Clone, Copy)]
pub struct DecoderConfig {
    pub max_payload_len: usize,
    pub max_buffer_len: usize,
}

impl Default for DecoderConfig {
    /// 8 MiB of payload and 16 MiB of buffered stream at most.
    fn default() -> (c: Self)
        ensures
            c.max_payload_len == 8388608,
            c.max_buffer_len == 16777216,
    {
        DecoderConfig { max_payload_len: 8 * 1024 * 1024, max_buffer_len: 16 * 1024 * 1024 }
    }
}

/// Relies on `crc32fast::hash`: the IEEE CRC-32 of the bytes, a function of
/// the bytes alone, named by `crc32_of`.
#[verifier::external_body]
fn crc32_bytes(bytes: &[u8]) -> (r: u32)
    ensures
        r == crc32_of(bytes@),
{
    crc32fast::hash(bytes)
}

/// The inputs of `encode_frame`.
pub struct EncodeFrameParams<'a> {
    pub msg_type: u8,
    pub flags: u8,
    pub channel: u8,
    pub seq: u32,
    pub payload: &'a [u8],
}

/// Encode one frame: marker, version, header fields little-endian, the
/// payload CRC32 exactly when the CRC flag bit is set, then the payload.
pub fn encode_frame(params: EncodeFrameParams<'_>) -> (out: Vec<u8>)
    requires
        params.payload@.len() <= u32::MAX,
    ensures
        out@ == spec_encode_frame(
            params.msg_type,
            params.flags,
            params.channel,
            params.seq,
            params.payload@,
        ),
        out@.len() == spec_header_len(params.flags) + params.payload@.len(),
{
    let has_crc = params.flags & FLAG_CRC32 != 0;
    let mut out: Vec<u8> = Vec::new();
    out.push(MAGIC_0);
    out.push(MAGIC_1);
    out.push(MAGIC_2);
    out.push(MAGIC_3);
    out.push(VERSION);
    out.push(params.msg_type);
    out.push(params.flags);
    out.push(params.channel);
    let seq_bytes = u32_to_le_bytes(params.seq);
    out.extend_from_slice(seq_bytes.as_slice());
    let len_bytes = u32_to_le_bytes(params.payload.len() as u32);
    out.extend_from_slice(len_bytes.as_slice());
    if has_crc {
        let crc_bytes = u32_to_le_bytes(crc32_bytes(params.payload));
        out.extend_from_slice(crc_bytes.as_slice());
    }
    out.extend_from_slice(params.payload);
    proof {
        assert(out@ =~= spec_encode_frame(
            params.msg_type,
            params.flags,
            params.channel,
            params.seq,
            params.payload@,
        ));
    }
    out
}

/// Streaming frame parser: an internal byte buffer fed by `push` and
/// drained by `next_frame`. Its view is the buffered byte sequence.
pub struct FrameDecoder {
    cfg: DecoderConfig,
    buf: Vec<u8>,
}

impl View for FrameDecoder {
    type V = Seq<u8>;

    closed spec fn view(&self) -> Seq<u8> {
        self.buf@
    }
}

impl FrameDecoder {
    /// The bounds this decoder was created with.
    pub closed spec fn config(&self) -> DecoderConfig {
        self.cfg
    }

    /// The buffer never exceeds the configured bound.
    pub open spec fn wf(&self) -> bool {
        self@.len() <= self.config().max_buffer_len
    }

    /// A fresh decoder with an empty buffer.
    pub fn new(cfg: DecoderConfig) -> (d: Self)
        ensures
            d@ == Seq::<u8>::empty(),
            d.config() == cfg,
            d.wf(),
    {
        FrameDecoder { cfg, buf: Vec::with_capacity(8192) }
    }

    /// Drop the first `n` buffered bytes.
    fn advance(&mut self, n: usize)
        requires
            n <= old(self)@.len(),
        ensures
            final(self)@ == old(self)@.skip(n as int),
            final(self).config() == old(self).config(),
    {
        let rest = slice_to_vec(slice_subrange(self.buf.as_slice(), n, self.buf.len()));
        self.buf = rest;
    }

    /// Append bytes to the buffer. On overflow the whole buffer is cleared,
    /// and the loss is reported, so that the decoder stays usable.
    pub fn push(&mut self, bytes: &[u8]) -> (r: Result<(), DecodeError>)
        requires
            old(self).wf(),
        ensures
            final(self).wf(),
            final(self).config() == old(self).config(),
            r is Ok <==> spec_push_ok(
                old(self)@,
                bytes@,
                old(self).config().max_buffer_len as nat,
            ),
            final(self)@ == spec_push_buf(
                old(self)@,
                bytes@,
                old(self).config().max_buffer_len as nat,
            ),
            r matches Err(e) ==> e.dropped_bytes == old(self)@.len() && e.message@ == kind_message(
                DecodeErrKind::BufferOverflow,
            ),
    {
        if bytes.len() == 0 {
            proof {
                assert(final(self)@ =~= old(self)@ + bytes@);
            }
            return Ok(());
        }
        if bytes.len() > self.cfg.max_buffer_len - self.buf.len() {
            let dropped = self.buf.len();
            self.buf.clear();
            return Err(
                DecodeError {
                    message: String::from_str("Decoder buffer overflow"),
                    dropped_bytes: dropped,
                },
            );
        }
        self.buf.extend_from_slice(bytes);
        Ok(())
    }

    /// Try to extract one frame, resynchronizing past noise. The result and
    /// the new buffer are exactly `decode_step` on the old buffer: `Ok(None)`
    /// asks for more data, `Ok(Some(frame))` hands out one frame, and an
    /// error reports how many bytes were dropped, the decoder staying usable.
    pub fn next_frame(&mut self) -> (r: Result<Option<Frame>, DecodeError>)
        requires
            old(self).wf(),
        ensures
            final(self).wf(),
            final(self).config() == old(self).config(),
            ({
                let step = decode_step(old(self)@, old(self).config().max_payload_len as nat);
                match r {
                    Ok(opt) => match opt {
                        None => step matches DecodeStep::NeedMore { buf } && final(self)@ == buf,
                        Some(frame) => step matches DecodeStep::Got { frame: f, buf } && frame@
                            == f && final(self)@ == buf,
                    },
                    Err(e) => step matches DecodeStep::Bad { kind, dropped, buf }
                        && e.dropped_bytes == dropped && e.message@ == kind_message(kind)
                        && final(self)@ == buf,
                }
            }),
    {
        let ghost b0 = self.buf@;
        let ghost maxp = self.cfg.max_payload_len as nat;
        let mut dropped: usize = 0;
        #[verifier::loop_isolation(false)]
        loop
            invariant
                self.cfg == old(self).cfg,
                self.wf(),
                self@.len() + dropped == b0.len(),
                decode_step(b0, maxp) == add_dropped(decode_step(self@, maxp), dropped as nat),
            decreases self@.len(),
        {
            let ghost cur = self.buf@;
            if self.buf.len() < 4 {
                return Ok(None);
            }
            let aligned = self.buf[0] == MAGIC_0 && self.buf[1] == MAGIC_1 && self.buf[2]
                == MAGIC_2 && self.buf[3] == MAGIC_3;
            if !aligned {
                assert(!magic_at(cur, 0));
                match find_magic(self.buf.as_slice()) {
                    Some(i) => {
                        proof {
                            lemma_first_magic_exists(cur);
                        }
                        self.advance(i);
                        dropped = dropped + i;
                        return Err(
                            DecodeError {
                                message: String::from_str("Resync: dropped bytes before magic"),
                                dropped_bytes: dropped,
                            },
                        );
                    },
                    None => {
                        let n = self.buf.len() - 3;
                        self.advance(n);
                        dropped = dropped + n;
                        return Err(
                            DecodeError {
                                message: String::from_str("Resync: magic not found"),
                                dropped_bytes: dropped,
                            },
                        );
                    },
                }
            }
            if self.buf.len() < HEADER_LEN_BASE {
                return Ok(None);
            }
            let version = self.buf[4];
            if version != VERSION {
                self.advance(1);
                dropped = dropped + 1;
                continue;
            }
            let msg_type = self.buf[5];
            let flags = self.buf[6];
            let channel = self.buf[7];
            let seq = u32_from_le_bytes(slice_subrange(self.buf.as_slice(), 8, 12));
            let payload_len = u32_from_le_bytes(slice_subrange(self.buf.as_slice(), 12, 16));
            let has_crc = flags & FLAG_CRC32 != 0;
            let header_len: usize = if has_crc {
                HEADER_LEN_WITH_CRC
            } else {
                HEADER_LEN_BASE
            };
            if self.buf.len() < header_len {
                return Ok(None);
            }
            if payload_len as usize > self.cfg.max_payload_len {
                self.advance(1);
                dropped = dropped + 1;
                return Err(
                    DecodeError {
                        message: String::from_str("Payload too large"),
                        dropped_bytes: dropped,
                    },
                );
            }
            if self.buf.len() - header_len < payload_len as usize {
                return Ok(None);
            }
            let frame_len = header_len + payload_len as usize;
            let payload = slice_to_vec(
                slice_subrange(self.buf.as_slice(), header_len, frame_len),
            );
            let payload_crc32 = if has_crc {
                Some(u32_from_le_bytes(slice_subrange(self.buf.as_slice(), 16, 20)))
            } else {
                None
            };
            self.advance(frame_len);
            if let Some(expected) = payload_crc32 {
                let actual = crc32_bytes(payload.as_slice());
                if actual != expected {
                    return Err(
                        DecodeError {
                            message: String::from_str("CRC32 mismatch"),
                            dropped_bytes: dropped,
                        },
                    );
                }
            }
            return Ok(
                Some(
                    Frame {
                        header: FrameHeader {
                            msg_type,
                            flags,
                            channel,
                            seq,
                            payload_len,
                            payload_crc32,
                        },
                        payload,
                    },
                ),
            );
        }
    }
}

/// Scan for the earliest occurrence of the frame marker.
fn find_magic(buf: &[u8]) -> (r: Option<usize>)
    ensures
        match r {
            Some(i) => is_first_magic(buf@, i as int),
            None => !has_magic(buf@),
        },
{
    let n = buf.len();
    if n < 4 {
        return None;
    }
    let mut i: usize = 0;
    while i <= n - 4
        invariant
            4 <= n == buf@.len(),
            i <= n - 3,
            forall|j: int| 0 <= j < i ==> !magic_at(buf@, j),
        decreases n - i,
    {
        if buf[i] == MAGIC_0 && buf[i + 1] == MAGIC_1 && buf[i + 2] == MAGIC_2 && buf[i + 3]
            == MAGIC_3 {
            return Some(i);
        }
        i = i + 1;
    }
    None
}

} // verus!
