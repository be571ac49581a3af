//! Observability events the transport layer publishes to its owner, and the
//! verified construction of their contents: base64 previews of payloads, a
//! readable-text preview of received bytes, and per-message summaries.
use crate::frame::Frame;
use crate::msg::Message;
use crate::msg::Role;
use crate::msg::decode_message;
use crate::msg::spec_hello_ack_ok;
use crate::msg::spec_hello_ok;
use crate::msg::spec_proto_error_ok;
use crate::msg_type;
use base64::Engine;
use vstd::bytes::spec_u16_from_le_bytes;
use vstd::bytes::spec_u32_from_le_bytes;
use vstd::bytes::spec_u64_from_le_bytes;
use vstd::prelude::*;
use vstd::string::StringExecFns;
use vstd::string::StrSliceExecFns;
use vstd::utf8::decode_utf8;
use vstd::utf8::encode_utf8_decode_utf8;
use vstd::utf8::valid_utf8;

verus! {

/// Which outbound queue a caller enqueues on.
#[derive(Debug, Clone, Copy, PartialEq, Eq)]
pub enum CommPriority {
    High,
    Normal,
}

impl Default for CommPriority {
    fn default() -> (r: Self)
        ensures
            r == CommPriority::Normal,
    {
        CommPriority::Normal
    }
}

/// Transport-level events: connection lifecycle and raw traffic.
#[derive(Debug, Clone, PartialEq, Eq)]
pub enum CommEvent {
    Connected { transport: String, timestamp_ms: u64 },
    Disconnected { transport: String, timestamp_ms: u64 },
    Reconnecting { transport: String, attempt: u32, delay_ms: u64, timestamp_ms: u64 },
    Rx {
        transport: String,
        data_base64: String,
        text: Option<String>,
        size: usize,
        timestamp_ms: u64,
    },
    Tx { transport: String, size: usize, timestamp_ms: u64 },
    Error { transport: String, message: String, timestamp_ms: u64 },
}

/// Protocol-level events: one per decoded frame or decoder error.
#[derive(Debug, Clone, PartialEq, Eq)]
pub enum HmipEvent {
    DecodeError { transport: String, message: String, dropped_bytes: usize, timestamp_ms: u64 },
    Message {
        transport: String,
        channel: u8,
        seq: u32,
        flags: u8,
        msg_type: u8,
        payload_len: u32,
        payload_crc32: Option<u32>,
        timestamp_ms: u64,
        summary: HmipMessageSummary,
    },
}

/// A compact, typed rendering of one decoded message.
#[derive(Debug, Clone, PartialEq, Eq)]
pub enum HmipMessageSummary {
    Hello { role: String, capabilities: u32, name: String },
    HelloAck { capabilities: u32, name: String },
    Heartbeat { timestamp_ms: u64 },
    Request {
        request_id: u32,
        method: u16,
        body_len: usize,
        body_base64: Option<String>,
        body_truncated: bool,
    },
    Response {
        request_id: u32,
        status: u16,
        body_len: usize,
        body_base64: Option<String>,
        body_truncated: bool,
    },
    Event {
        event_id: u16,
        timestamp_ms: u64,
        body_len: usize,
        body_base64: Option<String>,
        body_truncated: bool,
    },
    Error { code: u16, message: String },
    Raw { msg_type: u8, payload_len: usize, payload_base64: Option<String>, payload_truncated: bool },
}

/// Terminal outcome of one connection attempt.
#[derive(Debug, Clone, PartialEq, Eq)]
pub enum ConnectionExit {
    Shutdown,
    IoError(String),
}

/// Payloads above this size are truncated before being carried in an event.
pub const HMIP_PAYLOAD_EMIT_MAX: usize = 2048;

/// The padded base64 encoding of a byte sequence, as produced by the
/// base64 crate's standard engine; left uninterpreted, the encoding is a
/// function of the bytes alone.
pub uninterp spec fn base64_of(bytes: Seq<u8>) -> Seq<char>;

/// Relies on `base64::engine::general_purpose::STANDARD` (`Engine::encode`):
/// the padded base64 text of the bytes, a function of the bytes alone,
/// named by `base64_of`; four output characters per three input bytes,
/// rounded up. The length bound keeps the engine's output-size computation,
/// which panics on overflow, far from it.
#[verifier::external_body]
pub(crate) fn base64_encode(bytes: &[u8]) -> (r: String)
    requires
        bytes@.len() <= 0x10000000,
    ensures
        r@ == base64_of(bytes@),
        r@.len() == 4 * ((bytes@.len() + 2) / 3),
{
    base64::engine::general_purpose::STANDARD.encode(bytes)
}

/// The base64 text an event carries for a body: absent when empty,
/// truncated to the emit bound when large.
pub open spec fn spec_preview_b64(b: Seq<u8>) -> Option<Seq<char>> {
    if b.len() == 0 {
        None
    } else if b.len() <= HMIP_PAYLOAD_EMIT_MAX {
        Some(base64_of(b))
    } else {
        Some(base64_of(b.take(HMIP_PAYLOAD_EMIT_MAX as int)))
    }
}

/// Whether the carried base64 text covers only a prefix of the body.
pub open spec fn spec_preview_truncated(b: Seq<u8>) -> bool {
    b.len() > HMIP_PAYLOAD_EMIT_MAX
}

/// Base64 text for an event, and whether it was truncated.
pub fn base64_preview(bytes: &[u8]) -> (r: (Option<String>, bool))
    ensures
        match r.0 {
            Some(s) => spec_preview_b64(bytes@) matches Some(v) && s@ == v,
            None => spec_preview_b64(bytes@) is None,
        },
        r.1 == spec_preview_truncated(bytes@),
{
    if bytes.len() == 0 {
        return (None, false);
    }
    if bytes.len() <= HMIP_PAYLOAD_EMIT_MAX {
        return (Some(base64_encode(bytes)), false);
    }
    (Some(base64_encode(vstd::slice::slice_subrange(bytes, 0, HMIP_PAYLOAD_EMIT_MAX))), true)
}

/// A control character in the Unicode `Cc` category.
pub open spec fn spec_is_control(c: char) -> bool {
    (c as u32) < 0x20 || (0x7f <= c as u32 && c as u32 <= 0x9f)
}

/// A character with the Unicode `White_Space` property.
pub open spec fn spec_is_whitespace(c: char) -> bool {
    ||| (0x09 <= c as u32 && c as u32 <= 0x0d)
    ||| c as u32 == 0x20
    ||| c as u32 == 0x85
    ||| c as u32 == 0xa0
    ||| c as u32 == 0x1680
    ||| (0x2000 <= c as u32 && c as u32 <= 0x200a)
    ||| c as u32 == 0x2028
    ||| c as u32 == 0x2029
    ||| c as u32 == 0x202f
    ||| c as u32 == 0x205f
    ||| c as u32 == 0x3000
}

/// A control character other than newline, carriage return and tab: a sign
/// the content is binary rather than readable text.
pub open spec fn spec_is_binary_noise(c: char) -> bool {
    spec_is_control(c) && c != '\n' && c != '\r' && c != '\t'
}

fn is_whitespace_char(c: char) -> (r: bool)
    ensures
        r == spec_is_whitespace(c),
{
    let v = c as u32;
    (0x09 <= v && v <= 0x0d) || v == 0x20 || v == 0x85 || v == 0xa0 || v == 0x1680 || (0x2000 <= v
        && v <= 0x200a) || v == 0x2028 || v == 0x2029 || v == 0x202f || v == 0x205f || v == 0x3000
}

fn is_binary_noise_char(c: char) -> (r: bool)
    ensures
        r == spec_is_binary_noise(c),
{
    let v = c as u32;
    (v < 0x20 || (0x7f <= v && v <= 0x9f)) && c != '\n' && c != '\r' && c != '\t'
}

/// The sequence with its longest prefix of NUL characters removed.
pub open spec fn drop_front_nul(s: Seq<char>) -> Seq<char>
    decreases s.len(),
{
    if s.len() > 0 && s[0] == '\0' {
        drop_front_nul(s.drop_first())
    } else {
        s
    }
}

/// The sequence with its longest suffix of NUL characters removed.
pub open spec fn drop_back_nul(s: Seq<char>) -> Seq<char>
    decreases s.len(),
{
    if s.len() > 0 && s[s.len() - 1] == '\0' {
        drop_back_nul(s.drop_last())
    } else {
        s
    }
}

/// The sequence with its longest prefix of whitespace removed.
pub open spec fn drop_front_ws(s: Seq<char>) -> Seq<char>
    decreases s.len(),
{
    if s.len() > 0 && spec_is_whitespace(s[0]) {
        drop_front_ws(s.drop_first())
    } else {
        s
    }
}

/// The sequence with its longest suffix of whitespace removed.
pub open spec fn drop_back_ws(s: Seq<char>) -> Seq<char>
    decreases s.len(),
{
    if s.len() > 0 && spec_is_whitespace(s[s.len() - 1]) {
        drop_back_ws(s.drop_last())
    } else {
        s
    }
}

/// NUL characters trimmed at both ends, then whitespace at both ends.
pub open spec fn spec_trimmed(s: Seq<char>) -> Seq<char> {
    drop_back_ws(drop_front_ws(drop_back_nul(drop_front_nul(s))))
}

proof fn lemma_drop_front_nul_skip(s: Seq<char>, k: int)
    requires
        0 <= k <= s.len(),
        forall|j: int| 0 <= j < k ==> s[j] == '\0',
        k == s.len() || s[k] != '\0',
    ensures
        drop_front_nul(s) == s.skip(k),
    decreases k,
{
    if k == 0 {
        assert(s.skip(0) =~= s);
    } else {
        lemma_drop_front_nul_skip(s.drop_first(), k - 1);
        assert(s.drop_first() =~= s.skip(1));
        assert(s.skip(1).skip(k - 1) =~= s.skip(k));
    }
}

proof fn lemma_drop_back_nul_take(s: Seq<char>, k: int)
    requires
        0 <= k <= s.len(),
        forall|j: int| k <= j < s.len() ==> s[j] == '\0',
        k == 0 || s[k - 1] != '\0',
    ensures
        drop_back_nul(s) == s.take(k),
    decreases s.len(),
{
    if k == s.len() {
        assert(s.take(k) =~= s);
    } else {
        lemma_drop_back_nul_take(s.drop_last(), k);
        assert(s.drop_last() =~= s.take(s.len() - 1));
        assert(s.take(s.len() - 1).take(k) =~= s.take(k));
    }
}

proof fn lemma_drop_front_ws_skip(s: Seq<char>, k: int)
    requires
        0 <= k <= s.len(),
        forall|j: int| 0 <= j < k ==> spec_is_whitespace(s[j]),
        k == s.len() || !spec_is_whitespace(s[k]),
    ensures
        drop_front_ws(s) == s.skip(k),
    decreases k,
{
    if k == 0 {
        assert(s.skip(0) =~= s);
    } else {
        lemma_drop_front_ws_skip(s.drop_first(), k - 1);
        assert(s.drop_first() =~= s.skip(1));
        assert(s.skip(1).skip(k - 1) =~= s.skip(k));
    }
}

proof fn lemma_drop_back_ws_take(s: Seq<char>, k: int)
    requires
        0 <= k <= s.len(),
        forall|j: int| k <= j < s.len() ==> spec_is_whitespace(s[j]),
        k == 0 || !spec_is_whitespace(s[k - 1]),
    ensures
        drop_back_ws(s) == s.take(k),
    decreases s.len(),
{
    if k == s.len() {
        assert(s.take(k) =~= s);
    } else {
        lemma_drop_back_ws_take(s.drop_last(), k);
        assert(s.drop_last() =~= s.take(s.len() - 1));
        assert(s.take(s.len() - 1).take(k) =~= s.take(k));
    }
}

/// How many characters of a sequence are binary noise.
pub open spec fn spec_noise_count(s: Seq<char>) -> nat
    decreases s.len(),
{
    if s.len() == 0 {
        0
    } else {
        spec_noise_count(s.drop_last()) + if spec_is_binary_noise(s[s.len() - 1]) {
            1nat
        } else {
            0nat
        }
    }
}

/// The readable-text preview of received bytes: `None` unless the bytes are
/// UTF-8, something remains after trimming NULs and whitespace, and fewer
/// than a quarter of the first 512 trimmed characters are binary noise;
/// otherwise the first 2048 trimmed characters.
pub open spec fn spec_maybe_utf8_preview(bytes: Seq<u8>) -> Option<Seq<char>> {
    if !valid_utf8(bytes) {
        None
    } else {
        let t = spec_trimmed(decode_utf8(bytes));
        if t.len() == 0 {
            None
        } else {
            let total = if t.len() < 512 {
                t.len() as int
            } else {
                512
            };
            if spec_noise_count(t.take(total)) * 4 > total {
                None
            } else {
                Some(
                    t.take(
                        if t.len() < HMIP_PAYLOAD_EMIT_MAX {
                            t.len() as int
                        } else {
                            HMIP_PAYLOAD_EMIT_MAX as int
                        },
                    ),
                )
            }
        }
    }
}

/// The window of `s` left after trimming NUL characters at both ends.
fn trim_nul_window(s: &str) -> (r: (usize, usize))
    ensures
        r.0 <= r.1 <= s@.len(),
        drop_back_nul(drop_front_nul(s@)) == s@.subrange(r.0 as int, r.1 as int),
{
    let ghost chars = s@;
    let n = s.unicode_len();
    let mut lo: usize = 0;
    let mut hi: usize = n;
    while lo < hi && s.get_char(lo) == '\0'
        invariant
            chars == s@,
            lo <= hi <= n == chars.len(),
            forall|j: int| 0 <= j < lo ==> chars[j] == '\0',
        decreases hi - lo,
    {
        lo = lo + 1;
    }
    while hi > lo && s.get_char(hi - 1) == '\0'
        invariant
            chars == s@,
            lo <= hi <= n == chars.len(),
            forall|j: int| 0 <= j < lo ==> chars[j] == '\0',
            forall|j: int| hi <= j < n ==> chars[j] == '\0',
            lo == hi || chars[lo as int] != '\0',
        decreases hi,
    {
        hi = hi - 1;
    }
    proof {
        if lo < hi {
            assert(chars[lo as int] != '\0');
        }
        lemma_drop_front_nul_skip(chars, lo as int);
        lemma_drop_back_nul_take(chars.skip(lo as int), hi - lo);
        assert(chars.skip(lo as int).take(hi - lo) =~= chars.subrange(lo as int, hi as int));
    }
    (lo, hi)
}

/// The window of `s@.subrange(lo0, hi0)` left after trimming whitespace at
/// both ends, as a window of `s` itself.
fn trim_ws_window(s: &str, lo0: usize, hi0: usize) -> (r: (usize, usize))
    requires
        lo0 <= hi0 <= s@.len(),
    ensures
        lo0 <= r.0 <= r.1 <= hi0,
        drop_back_ws(drop_front_ws(s@.subrange(lo0 as int, hi0 as int)))
            == s@.subrange(r.0 as int, r.1 as int),
{
    let ghost chars = s@;
    let ghost win = s@.subrange(lo0 as int, hi0 as int);
    let mut lo: usize = lo0;
    let mut hi: usize = hi0;
    while lo < hi && is_whitespace_char(s.get_char(lo))
        invariant
            chars == s@,
            lo0 <= lo <= hi <= hi0 <= chars.len(),
            hi == hi0,
            forall|j: int| lo0 <= j < lo ==> spec_is_whitespace(chars[j]),
        decreases hi - lo,
    {
        lo = lo + 1;
    }
    while hi > lo && is_whitespace_char(s.get_char(hi - 1))
        invariant
            chars == s@,
            lo0 <= lo <= hi <= hi0 <= chars.len(),
            forall|j: int| lo0 <= j < lo ==> spec_is_whitespace(chars[j]),
            forall|j: int| hi <= j < hi0 ==> spec_is_whitespace(chars[j]),
            lo == hi0 || !spec_is_whitespace(chars[lo as int]),
        decreases hi,
    {
        hi = hi - 1;
    }
    proof {
        assert(forall|j: int| 0 <= j < win.len() ==> win[j] == chars[lo0 + j]);
        lemma_drop_front_ws_skip(win, lo - lo0);
        lemma_drop_back_ws_take(win.skip(lo - lo0), hi - lo);
        assert(win.skip(lo - lo0).take(hi - lo) =~= chars.subrange(lo as int, hi as int));
    }
    (lo, hi)
}

/// How many of the `total` characters of `s` from `lo` on are binary noise.
fn count_noise(s: &str, lo: usize, total: usize) -> (noise: usize)
    requires
        lo + total <= s@.len(),
        lo + total <= usize::MAX,
    ensures
        noise == spec_noise_count(s@.subrange(lo as int, (lo + total) as int)),
        noise <= total,
{
    let ghost chars = s@;
    let mut noise: usize = 0;
    let mut i: usize = 0;
    while i < total
        invariant
            chars == s@,
            lo + total <= chars.len(),
            lo + total <= usize::MAX,
            i <= total,
            noise == spec_noise_count(chars.subrange(lo as int, lo + i)),
            noise <= i,
        decreases total - i,
    {
        let c = s.get_char(lo + i);
        proof {
            assert(chars.subrange(lo as int, lo + i + 1).drop_last() =~= chars.subrange(
                lo as int,
                lo + i,
            ));
            assert(chars.subrange(lo as int, lo + i + 1)[i as int] == chars[lo + i]);
        }
        if is_binary_noise_char(c) {
            noise = noise + 1;
        }
        i = i + 1;
    }
    noise
}

/// A readable-text preview of received bytes, when they look like text.
#[verifier::rlimit(60)]
pub fn maybe_utf8_preview(bytes: &[u8]) -> (r: Option<String>)
    ensures
        match r {
            Some(s) => spec_maybe_utf8_preview(bytes@) matches Some(v) && s@ == v,
            None => spec_maybe_utf8_preview(bytes@) is None,
        },
{
    let s = match crate::msg::bytes_as_str(bytes) {
        Some(s) => s,
        None => {
            return None;
        },
    };
    proof {
        encode_utf8_decode_utf8(s@);
    }
    let ghost chars = s@;
    let (lo1, hi1) = trim_nul_window(s);
    let (lo, hi) = trim_ws_window(s, lo1, hi1);
    let ghost t = spec_trimmed(chars);
    proof {
        assert(t == chars.subrange(lo as int, hi as int));
    }
    if lo == hi {
        return None;
    }
    let len = hi - lo;
    let total = if len < 512 {
        len
    } else {
        512
    };
    let noise = count_noise(s, lo, total);
    proof {
        assert(chars.subrange(lo as int, (lo + total) as int) =~= t.take(total as int));
    }
    if noise * 4 > total {
        return None;
    }
    let end = if len < HMIP_PAYLOAD_EMIT_MAX {
        len
    } else {
        HMIP_PAYLOAD_EMIT_MAX
    };
    let preview = s.substring_char(lo, lo + end);
    proof {
        assert(preview@ =~= t.take(end as int));
    }
    Some(preview.to_owned())
}

/// Whether a summary is the rendering of a message: same variant, fields
/// copied, bodies described by length and a possibly truncated base64 text.
pub open spec fn spec_summary_matches(s: HmipMessageSummary, m: Message) -> bool {
    match m {
        Message::Hello(v) => s matches HmipMessageSummary::Hello { role, capabilities, name } && {
            &&& role@ == (if v.role is Client {
                "client"@
            } else {
                "server"@
            })
            &&& capabilities == v.capabilities
            &&& name@ == v.name@
        },
        Message::HelloAck(v) => s matches HmipMessageSummary::HelloAck { capabilities, name } && {
            &&& capabilities == v.capabilities
            &&& name@ == v.name@
        },
        Message::Heartbeat(v) => s matches HmipMessageSummary::Heartbeat { timestamp_ms }
            && timestamp_ms == v.timestamp_ms,
        Message::Request(v) => s matches HmipMessageSummary::Request {
            request_id,
            method,
            body_len,
            body_base64,
            body_truncated,
        } && {
            &&& request_id == v.request_id
            &&& method == v.method
            &&& body_len == v.body@.len()
            &&& spec_b64_field_matches(body_base64, v.body@)
            &&& body_truncated == spec_preview_truncated(v.body@)
        },
        Message::Response(v) => s matches HmipMessageSummary::Response {
            request_id,
            status,
            body_len,
            body_base64,
            body_truncated,
        } && {
            &&& request_id == v.request_id
            &&& status == v.status
            &&& body_len == v.body@.len()
            &&& spec_b64_field_matches(body_base64, v.body@)
            &&& body_truncated == spec_preview_truncated(v.body@)
        },
        Message::Event(v) => s matches HmipMessageSummary::Event {
            event_id,
            timestamp_ms,
            body_len,
            body_base64,
            body_truncated,
        } && {
            &&& event_id == v.event_id
            &&& timestamp_ms == v.timestamp_ms
            &&& body_len == v.body@.len()
            &&& spec_b64_field_matches(body_base64, v.body@)
            &&& body_truncated == spec_preview_truncated(v.body@)
        },
        Message::Error(v) => s matches HmipMessageSummary::Error { code, message } && {
            &&& code == v.code
            &&& message@ == v.message@
        },
        Message::Raw { msg_type, payload } => s matches HmipMessageSummary::Raw {
            msg_type: mt,
            payload_len,
            payload_base64,
            payload_truncated,
        } && {
            &&& mt == msg_type
            &&& payload_len == payload@.len()
            &&& spec_b64_field_matches(payload_base64, payload@)
            &&& payload_truncated == spec_preview_truncated(payload@)
        },
    }
}

/// The optional base64 field carries exactly the preview of the body.
pub open spec fn spec_b64_field_matches(f: Option<String>, body: Seq<u8>) -> bool {
    match f {
        Some(s) => spec_preview_b64(body) matches Some(v) && s@ == v,
        None => spec_preview_b64(body) is None,
    }
}

/// Render one decoded message as its summary.
pub fn summarize_message(m: &Message) -> (s: HmipMessageSummary)
    ensures
        spec_summary_matches(s, *m),
{
    match m {
        Message::Hello(v) => HmipMessageSummary::Hello {
            role: match v.role {
                Role::Client => String::from_str("client"),
                Role::Server => String::from_str("server"),
            },
            capabilities: v.capabilities,
            name: v.name.clone(),
        },
        Message::HelloAck(v) => HmipMessageSummary::HelloAck {
            capabilities: v.capabilities,
            name: v.name.clone(),
        },
        Message::Heartbeat(v) => HmipMessageSummary::Heartbeat { timestamp_ms: v.timestamp_ms },
        Message::Request(v) => {
            let (b64, truncated) = base64_preview(v.body.as_slice());
            HmipMessageSummary::Request {
                request_id: v.request_id,
                method: v.method,
                body_len: v.body.len(),
                body_base64: b64,
                body_truncated: truncated,
            }
        },
        Message::Response(v) => {
            let (b64, truncated) = base64_preview(v.body.as_slice());
            HmipMessageSummary::Response {
                request_id: v.request_id,
                status: v.status,
                body_len: v.body.len(),
                body_base64: b64,
                body_truncated: truncated,
            }
        },
        Message::Event(v) => {
            let (b64, truncated) = base64_preview(v.body.as_slice());
            HmipMessageSummary::Event {
                event_id: v.event_id,
                timestamp_ms: v.timestamp_ms,
                body_len: v.body.len(),
                body_base64: b64,
                body_truncated: truncated,
            }
        },
        Message::Error(v) => HmipMessageSummary::Error {
            code: v.code,
            message: v.message.clone(),
        },
        Message::Raw { msg_type, payload } => {
            let (b64, truncated) = base64_preview(payload.as_slice());
            HmipMessageSummary::Raw {
                msg_type: *msg_type,
                payload_len: payload.len(),
                payload_base64: b64,
                payload_truncated: truncated,
            }
        },
    }
}

/// The summary is the opaque rendering of an uninterpreted payload.
pub open spec fn spec_raw_summary_matches(s: HmipMessageSummary, t: u8, p: Seq<u8>) -> bool {
    s matches HmipMessageSummary::Raw {
        msg_type,
        payload_len,
        payload_base64,
        payload_truncated,
    } && {
        &&& msg_type == t
        &&& payload_len == p.len()
        &&& spec_b64_field_matches(payload_base64, p)
        &&& payload_truncated == spec_preview_truncated(p)
    }
}

/// The summary the pipeline renders for a frame with message type `t` and
/// payload `p`: the typed fields when the payload decodes as a known type,
/// the opaque rendering otherwise.
pub open spec fn spec_frame_summary_matches(s: HmipMessageSummary, t: u8, p: Seq<u8>) -> bool {
    if t == msg_type::HELLO {
        if spec_hello_ok(p) {
            s matches HmipMessageSummary::Hello { role, capabilities, name } && {
                &&& role@ == (if p[0] == 0 {
                    "client"@
                } else {
                    "server"@
                })
                &&& capabilities == spec_u32_from_le_bytes(p.subrange(1, 5))
                &&& name@ == decode_utf8(p.subrange(6, 6 + p[5]))
            }
        } else {
            spec_raw_summary_matches(s, t, p)
        }
    } else if t == msg_type::HELLO_ACK {
        if spec_hello_ack_ok(p) {
            s matches HmipMessageSummary::HelloAck { capabilities, name } && {
                &&& capabilities == spec_u32_from_le_bytes(p.subrange(0, 4))
                &&& name@ == decode_utf8(p.subrange(5, 5 + p[4]))
            }
        } else {
            spec_raw_summary_matches(s, t, p)
        }
    } else if t == msg_type::HEARTBEAT {
        if p.len() == 8 {
            s matches HmipMessageSummary::Heartbeat { timestamp_ms } && timestamp_ms
                == spec_u64_from_le_bytes(p)
        } else {
            spec_raw_summary_matches(s, t, p)
        }
    } else if t == msg_type::REQUEST {
        if p.len() >= 8 {
            s matches HmipMessageSummary::Request {
                request_id,
                method,
                body_len,
                body_base64,
                body_truncated,
            } && {
                &&& request_id == spec_u32_from_le_bytes(p.subrange(0, 4))
                &&& method == spec_u16_from_le_bytes(p.subrange(4, 6))
                &&& body_len == p.skip(8).len()
                &&& spec_b64_field_matches(body_base64, p.skip(8))
                &&& body_truncated == spec_preview_truncated(p.skip(8))
            }
        } else {
            spec_raw_summary_matches(s, t, p)
        }
    } else if t == msg_type::RESPONSE {
        if p.len() >= 8 {
            s matches HmipMessageSummary::Response {
                request_id,
                status,
                body_len,
                body_base64,
                body_truncated,
            } && {
                &&& request_id == spec_u32_from_le_bytes(p.subrange(0, 4))
                &&& status == spec_u16_from_le_bytes(p.subrange(4, 6))
                &&& body_len == p.skip(8).len()
                &&& spec_b64_field_matches(body_base64, p.skip(8))
                &&& body_truncated == spec_preview_truncated(p.skip(8))
            }
        } else {
            spec_raw_summary_matches(s, t, p)
        }
    } else if t == msg_type::EVENT {
        if p.len() >= 12 {
            s matches HmipMessageSummary::Event {
                event_id,
                timestamp_ms,
                body_len,
                body_base64,
                body_truncated,
            } && {
                &&& event_id == spec_u16_from_le_bytes(p.subrange(0, 2))
                &&& timestamp_ms == spec_u64_from_le_bytes(p.subrange(4, 12))
                &&& body_len == p.skip(12).len()
                &&& spec_b64_field_matches(body_base64, p.skip(12))
                &&& body_truncated == spec_preview_truncated(p.skip(12))
            }
        } else {
            spec_raw_summary_matches(s, t, p)
        }
    } else if t == msg_type::ERROR {
        if spec_proto_error_ok(p) {
            s matches HmipMessageSummary::Error { code, message } && {
                &&& code == spec_u16_from_le_bytes(p.subrange(0, 2))
                &&& message@ == decode_utf8(
                    p.subrange(6, 6 + spec_u16_from_le_bytes(p.subrange(4, 6))),
                )
            }
        } else {
            spec_raw_summary_matches(s, t, p)
        }
    } else {
        spec_raw_summary_matches(s, t, p)
    }
}

/// Render the summary of one decoded frame: its typed message when the
/// payload decodes, the opaque rendering when it does not.
pub fn summarize_frame(frame: &Frame) -> (s: HmipMessageSummary)
    ensures
        spec_frame_summary_matches(s, frame@.msg_type, frame@.payload),
{
    match decode_message(frame) {
        Ok(m) => summarize_message(&m),
        Err(_) => {
            let (b64, truncated) = base64_preview(frame.payload.as_slice());
            HmipMessageSummary::Raw {
                msg_type: frame.header.msg_type,
                payload_len: frame.payload.len(),
                payload_base64: b64,
                payload_truncated: truncated,
            }
        },
    }
}

} // verus!
