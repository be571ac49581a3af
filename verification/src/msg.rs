//! Typed protocol messages layered on frame payloads: a pure mapping from
//! `(msg_type, payload)` to a `Message` and back. Every layout is fixed and
//! little-endian; decoding a known type fails only on a short payload, a
//! truncated length-prefixed string, or a non-UTF-8 string; unknown types
//! fall back to an opaque raw message.
use crate::frame::Frame;
use crate::msg_type;
use vstd::bytes::spec_u16_to_le_bytes;
use vstd::bytes::spec_u16_from_le_bytes;
use vstd::bytes::spec_u32_to_le_bytes;
use vstd::bytes::spec_u32_from_le_bytes;
use vstd::bytes::spec_u64_to_le_bytes;
use vstd::bytes::spec_u64_from_le_bytes;
use vstd::bytes::u16_from_le_bytes;
use vstd::bytes::u16_to_le_bytes;
use vstd::bytes::u32_from_le_bytes;
use vstd::bytes::u32_to_le_bytes;
use vstd::bytes::u64_from_le_bytes;
use vstd::bytes::u64_to_le_bytes;
use vstd::prelude::*;
use vstd::slice::slice_subrange;
use vstd::slice::slice_to_vec;
use vstd::string::StringSliceAdditionalSpecFns;
use vstd::string::StringExecFns;
use vstd::utf8::decode_utf8;
use vstd::utf8::encode_utf8;
use vstd::utf8::encode_utf8_decode_utf8;
use vstd::utf8::valid_utf8;

verus! {

/// The role a peer announces in a HELLO message.
#[derive(Debug, Clone, Copy, PartialEq, Eq)]
pub enum Role {
    Client,
    Server,
}

/// The wire code of a role.
pub open spec fn spec_role_u8(r: Role) -> u8 {
    match r {
        Role::Client => 0,
        Role::Server => 1,
    }
}

/// The role a wire code names, if any.
pub open spec fn spec_role_of(v: u8) -> Option<Role> {
    if v == 0 {
        Some(Role::Client)
    } else if v == 1 {
        Some(Role::Server)
    } else {
        None
    }
}

impl Role {
    pub fn as_u8(self) -> (v: u8)
        ensures
            v == spec_role_u8(self),
    {
        match self {
            Role::Client => 0,
            Role::Server => 1,
        }
    }

    pub fn from_u8(v: u8) -> (r: Option<Self>)
        ensures
            r == spec_role_of(v),
    {
        match v {
            0 => Some(Self::Client),
            1 => Some(Self::Server),
            _ => None,
        }
    }
}

#[derive(Debug, Clone, PartialEq, Eq)]
pub struct Hello {
    pub role: Role,
    pub capabilities: u32,
    pub name: String,
}

#[derive(Debug, Clone, PartialEq, Eq)]
pub struct HelloAck {
    pub capabilities: u32,
    pub name: String,
}

#[derive(Debug, Clone, Copy, PartialEq, Eq)]
pub struct Heartbeat {
    pub timestamp_ms: u64,
}

#[derive(Debug, Clone, PartialEq, Eq)]
pub struct Request {
    pub request_id: u32,
    pub method: u16,
    pub body: Vec<u8>,
}

#[derive(Debug, Clone, PartialEq, Eq)]
pub struct Response {
    pub request_id: u32,
    pub status: u16,
    pub body: Vec<u8>,
}

#[derive(Debug, Clone, PartialEq, Eq)]
pub struct Event {
    pub event_id: u16,
    pub timestamp_ms: u64,
    pub body: Vec<u8>,
}

#[derive(Debug, Clone, PartialEq, Eq)]
pub struct ProtoError {
    pub code: u16,
    pub message: String,
}

/// The typed interpretation of one frame's payload.
#[derive(Debug, Clone, PartialEq, Eq)]
pub enum Message {
    Hello(Hello),
    HelloAck(HelloAck),
    Heartbeat(Heartbeat),
    Request(Request),
    Response(Response),
    Event(Event),
    Error(ProtoError),
    Raw { msg_type: u8, payload: Vec<u8> },
}

/// Why a payload failed to decode as its declared message type.
#[derive(Debug, Clone, PartialEq, Eq)]
pub struct MessageDecodeError(pub String);

/// Relies on `core::str::from_utf8`: succeeds exactly on UTF-8 input, and
/// the returned slice is the input viewed as a string.
#[verifier::external_body]
pub(crate) fn bytes_as_str(bytes: &[u8]) -> (r: Option<&str>)
    ensures
        match r {
            Some(s) => valid_utf8(bytes@) && s.spec_bytes() == bytes@,
            None => !valid_utf8(bytes@),
        },
{
    core::str::from_utf8(bytes).ok()
}

/// A UTF-8 decode of `bytes` into an owned string.
fn utf8_to_string(bytes: &[u8]) -> (r: Option<String>)
    ensures
        match r {
            Some(s) => valid_utf8(bytes@) && s@ == decode_utf8(bytes@),
            None => !valid_utf8(bytes@),
        },
{
    match bytes_as_str(bytes) {
        Some(s) => {
            proof {
                encode_utf8_decode_utf8(s@);
            }
            Some(s.to_owned())
        },
        None => None,
    }
}

/// HELLO layout: `role:u8, capabilities:u32, name_len:u8, name:bytes`.
pub open spec fn spec_hello_ok(p: Seq<u8>) -> bool {
    &&& p.len() >= 6
    &&& spec_role_of(p[0]) is Some
    &&& p.len() >= 6 + p[5]
    &&& valid_utf8(p.subrange(6, 6 + p[5]))
}

/// The fields a decoded HELLO carries, read off the payload.
pub open spec fn spec_hello_matches(h: Hello, p: Seq<u8>) -> bool {
    &&& Some(h.role) == spec_role_of(p[0])
    &&& h.capabilities == spec_u32_from_le_bytes(p.subrange(1, 5))
    &&& h.name@ == decode_utf8(p.subrange(6, 6 + p[5]))
}

/// The message reported for an ill-formed HELLO payload.
pub open spec fn spec_hello_err(p: Seq<u8>) -> Seq<char> {
    if p.len() < 6 {
        "HELLO payload too short"@
    } else if spec_role_of(p[0]) is None {
        "HELLO invalid role"@
    } else if p.len() < 6 + p[5] {
        "HELLO name truncated"@
    } else {
        "HELLO name not utf8"@
    }
}

pub fn decode_hello(payload: &[u8]) -> (r: Result<Hello, MessageDecodeError>)
    ensures
        ({
            let p = payload@;
            match r {
                Ok(h) => spec_hello_ok(p) && spec_hello_matches(h, p),
                Err(e) => !spec_hello_ok(p) && e.0@ == spec_hello_err(p),
            }
        }),
{
    if payload.len() < 6 {
        return Err(MessageDecodeError(String::from_str("HELLO payload too short")));
    }
    let role = match Role::from_u8(payload[0]) {
        Some(r) => r,
        None => {
            return Err(MessageDecodeError(String::from_str("HELLO invalid role")));
        },
    };
    let capabilities = u32_from_le_bytes(slice_subrange(payload, 1, 5));
    let name_len = payload[5] as usize;
    if payload.len() < 6 + name_len {
        return Err(MessageDecodeError(String::from_str("HELLO name truncated")));
    }
    let name = match utf8_to_string(slice_subrange(payload, 6, 6 + name_len)) {
        Some(s) => s,
        None => {
            return Err(MessageDecodeError(String::from_str("HELLO name not utf8")));
        },
    };
    Ok(Hello { role, capabilities, name })
}

/// HELLO_ACK layout: `capabilities:u32, name_len:u8, name:bytes`.
pub open spec fn spec_hello_ack_ok(p: Seq<u8>) -> bool {
    &&& p.len() >= 5
    &&& p.len() >= 5 + p[4]
    &&& valid_utf8(p.subrange(5, 5 + p[4]))
}

/// The fields a decoded HELLO_ACK carries, read off the payload.
pub open spec fn spec_hello_ack_matches(a: HelloAck, p: Seq<u8>) -> bool {
    &&& a.capabilities == spec_u32_from_le_bytes(p.subrange(0, 4))
    &&& a.name@ == decode_utf8(p.subrange(5, 5 + p[4]))
}

/// The message reported for an ill-formed HELLO_ACK payload.
pub open spec fn spec_hello_ack_err(p: Seq<u8>) -> Seq<char> {
    if p.len() < 5 {
        "HELLO_ACK payload too short"@
    } else if p.len() < 5 + p[4] {
        "HELLO_ACK name truncated"@
    } else {
        "HELLO_ACK name not utf8"@
    }
}

pub fn decode_hello_ack(payload: &[u8]) -> (r: Result<HelloAck, MessageDecodeError>)
    ensures
        ({
            let p = payload@;
            match r {
                Ok(a) => spec_hello_ack_ok(p) && spec_hello_ack_matches(a, p),
                Err(e) => !spec_hello_ack_ok(p) && e.0@ == spec_hello_ack_err(p),
            }
        }),
{
    if payload.len() < 5 {
        return Err(MessageDecodeError(String::from_str("HELLO_ACK payload too short")));
    }
    let capabilities = u32_from_le_bytes(slice_subrange(payload, 0, 4));
    let name_len = payload[4] as usize;
    if payload.len() < 5 + name_len {
        return Err(MessageDecodeError(String::from_str("HELLO_ACK name truncated")));
    }
    let name = match utf8_to_string(slice_subrange(payload, 5, 5 + name_len)) {
        Some(s) => s,
        None => {
            return Err(MessageDecodeError(String::from_str("HELLO_ACK name not utf8")));
        },
    };
    Ok(HelloAck { capabilities, name })
}

/// HEARTBEAT layout: exactly one `timestamp_ms:u64`.
pub fn decode_heartbeat(payload: &[u8]) -> (r: Result<Heartbeat, MessageDecodeError>)
    ensures
        ({
            let p = payload@;
            match r {
                Ok(h) => p.len() == 8 && h.timestamp_ms == spec_u64_from_le_bytes(p),
                Err(e) => p.len() != 8 && e.0@ == "HEARTBEAT payload must be 8 bytes"@,
            }
        }),
{
    if payload.len() != 8 {
        return Err(MessageDecodeError(String::from_str("HEARTBEAT payload must be 8 bytes")));
    }
    let ts = u64_from_le_bytes(slice_subrange(payload, 0, 8));
    proof {
        assert(payload@.subrange(0, 8) =~= payload@);
    }
    Ok(Heartbeat { timestamp_ms: ts })
}

/// The fields a decoded REQUEST carries: `request_id:u32, method:u16,
/// reserved:u16, body:rest`.
pub open spec fn spec_request_matches(q: Request, p: Seq<u8>) -> bool {
    &&& q.request_id == spec_u32_from_le_bytes(p.subrange(0, 4))
    &&& q.method == spec_u16_from_le_bytes(p.subrange(4, 6))
    &&& q.body@ == p.skip(8)
}

pub fn decode_request(payload: &[u8]) -> (r: Result<Request, MessageDecodeError>)
    ensures
        ({
            let p = payload@;
            match r {
                Ok(q) => p.len() >= 8 && spec_request_matches(q, p),
                Err(e) => p.len() < 8 && e.0@ == "REQUEST payload too short"@,
            }
        }),
{
    if payload.len() < 8 {
        return Err(MessageDecodeError(String::from_str("REQUEST payload too short")));
    }
    let request_id = u32_from_le_bytes(slice_subrange(payload, 0, 4));
    let method = u16_from_le_bytes(slice_subrange(payload, 4, 6));
    let body = slice_to_vec(slice_subrange(payload, 8, payload.len()));
    Ok(Request { request_id, method, body })
}

/// The fields a decoded RESPONSE carries: `request_id:u32, status:u16,
/// reserved:u16, body:rest`.
pub open spec fn spec_response_matches(s: Response, p: Seq<u8>) -> bool {
    &&& s.request_id == spec_u32_from_le_bytes(p.subrange(0, 4))
    &&& s.status == spec_u16_from_le_bytes(p.subrange(4, 6))
    &&& s.body@ == p.skip(8)
}

pub fn decode_response(payload: &[u8]) -> (r: Result<Response, MessageDecodeError>)
    ensures
        ({
            let p = payload@;
            match r {
                Ok(s) => p.len() >= 8 && spec_response_matches(s, p),
                Err(e) => p.len() < 8 && e.0@ == "RESPONSE payload too short"@,
            }
        }),
{
    if payload.len() < 8 {
        return Err(MessageDecodeError(String::from_str("RESPONSE payload too short")));
    }
    let request_id = u32_from_le_bytes(slice_subrange(payload, 0, 4));
    let status = u16_from_le_bytes(slice_subrange(payload, 4, 6));
    let body = slice_to_vec(slice_subrange(payload, 8, payload.len()));
    Ok(Response { request_id, status, body })
}

/// The fields a decoded EVENT carries: `event_id:u16, reserved:u16,
/// timestamp_ms:u64, body:rest`.
pub open spec fn spec_event_matches(v: Event, p: Seq<u8>) -> bool {
    &&& v.event_id == spec_u16_from_le_bytes(p.subrange(0, 2))
    &&& v.timestamp_ms == spec_u64_from_le_bytes(p.subrange(4, 12))
    &&& v.body@ == p.skip(12)
}

pub fn decode_event(payload: &[u8]) -> (r: Result<Event, MessageDecodeError>)
    ensures
        ({
            let p = payload@;
            match r {
                Ok(v) => p.len() >= 12 && spec_event_matches(v, p),
                Err(e) => p.len() < 12 && e.0@ == "EVENT payload too short"@,
            }
        }),
{
    if payload.len() < 12 {
        return Err(MessageDecodeError(String::from_str("EVENT payload too short")));
    }
    let event_id = u16_from_le_bytes(slice_subrange(payload, 0, 2));
    let timestamp_ms = u64_from_le_bytes(slice_subrange(payload, 4, 12));
    let body = slice_to_vec(slice_subrange(payload, 12, payload.len()));
    Ok(Event { event_id, timestamp_ms, body })
}

/// ERROR layout: `code:u16, reserved:u16, message_len:u16, message:bytes`.
pub open spec fn spec_proto_error_ok(p: Seq<u8>) -> bool {
    &&& p.len() >= 6
    &&& p.len() >= 6 + spec_u16_from_le_bytes(p.subrange(4, 6))
    &&& valid_utf8(p.subrange(6, 6 + spec_u16_from_le_bytes(p.subrange(4, 6))))
}

/// The fields a decoded ERROR carries, read off the payload.
pub open spec fn spec_proto_error_matches(pe: ProtoError, p: Seq<u8>) -> bool {
    &&& pe.code == spec_u16_from_le_bytes(p.subrange(0, 2))
    &&& pe.message@ == decode_utf8(
        p.subrange(6, 6 + spec_u16_from_le_bytes(p.subrange(4, 6))),
    )
}

/// The message reported for an ill-formed ERROR payload.
pub open spec fn spec_proto_error_err(p: Seq<u8>) -> Seq<char> {
    if p.len() < 6 {
        "ERROR payload too short"@
    } else if p.len() < 6 + spec_u16_from_le_bytes(p.subrange(4, 6)) {
        "ERROR message truncated"@
    } else {
        "ERROR message not utf8"@
    }
}

pub fn decode_error(payload: &[u8]) -> (r: Result<ProtoError, MessageDecodeError>)
    ensures
        ({
            let p = payload@;
            match r {
                Ok(pe) => spec_proto_error_ok(p) && spec_proto_error_matches(pe, p),
                Err(e) => !spec_proto_error_ok(p) && e.0@ == spec_proto_error_err(p),
            }
        }),
{
    if payload.len() < 6 {
        return Err(MessageDecodeError(String::from_str("ERROR payload too short")));
    }
    let code = u16_from_le_bytes(slice_subrange(payload, 0, 2));
    let msg_len = u16_from_le_bytes(slice_subrange(payload, 4, 6)) as usize;
    if payload.len() < 6 + msg_len {
        return Err(MessageDecodeError(String::from_str("ERROR message truncated")));
    }
    let message = match utf8_to_string(slice_subrange(payload, 6, 6 + msg_len)) {
        Some(s) => s,
        None => {
            return Err(MessageDecodeError(String::from_str("ERROR message not utf8")));
        },
    };
    Ok(ProtoError { code, message })
}

/// Classify one frame's payload by its message type. Decoding of a known
/// type fails exactly as the type's own decoder says; an unrecognized
/// `msg_type` always succeeds as an opaque raw message, so unknown types
/// never break the pipeline.
pub fn decode_message(frame: &Frame) -> (r: Result<Message, MessageDecodeError>)
    ensures
        ({
            let t = frame@.msg_type;
            let p = frame@.payload;
            if t == msg_type::HELLO {
                match r {
                    Ok(m) => m matches Message::Hello(h) && spec_hello_ok(p)
                        && spec_hello_matches(h, p),
                    Err(e) => !spec_hello_ok(p) && e.0@ == spec_hello_err(p),
                }
            } else if t == msg_type::HELLO_ACK {
                match r {
                    Ok(m) => m matches Message::HelloAck(a) && spec_hello_ack_ok(p)
                        && spec_hello_ack_matches(a, p),
                    Err(e) => !spec_hello_ack_ok(p) && e.0@ == spec_hello_ack_err(p),
                }
            } else if t == msg_type::HEARTBEAT {
                match r {
                    Ok(m) => m matches Message::Heartbeat(h) && p.len() == 8 && h.timestamp_ms
                        == spec_u64_from_le_bytes(p),
                    Err(e) => p.len() != 8 && e.0@ == "HEARTBEAT payload must be 8 bytes"@,
                }
            } else if t == msg_type::REQUEST {
                match r {
                    Ok(m) => m matches Message::Request(q) && p.len() >= 8
                        && spec_request_matches(q, p),
                    Err(e) => p.len() < 8 && e.0@ == "REQUEST payload too short"@,
                }
            } else if t == msg_type::RESPONSE {
                match r {
                    Ok(m) => m matches Message::Response(s) && p.len() >= 8
                        && spec_response_matches(s, p),
                    Err(e) => p.len() < 8 && e.0@ == "RESPONSE payload too short"@,
                }
            } else if t == msg_type::EVENT {
                match r {
                    Ok(m) => m matches Message::Event(v) && p.len() >= 12 && spec_event_matches(
                        v,
                        p,
                    ),
                    Err(e) => p.len() < 12 && e.0@ == "EVENT payload too short"@,
                }
            } else if t == msg_type::ERROR {
                match r {
                    Ok(m) => m matches Message::Error(pe) && spec_proto_error_ok(p)
                        && spec_proto_error_matches(pe, p),
                    Err(e) => !spec_proto_error_ok(p) && e.0@ == spec_proto_error_err(p),
                }
            } else {
                r matches Ok(m) && m matches Message::Raw { msg_type: mt, payload: pl } && mt == t
                    && pl@ == p
            }
        }),
{
    let payload = frame.payload.as_slice();
    match frame.header.msg_type {
        msg_type::HELLO => match decode_hello(payload) {
            Ok(h) => Ok(Message::Hello(h)),
            Err(e) => Err(e),
        },
        msg_type::HELLO_ACK => match decode_hello_ack(payload) {
            Ok(a) => Ok(Message::HelloAck(a)),
            Err(e) => Err(e),
        },
        msg_type::HEARTBEAT => match decode_heartbeat(payload) {
            Ok(h) => Ok(Message::Heartbeat(h)),
            Err(e) => Err(e),
        },
        msg_type::REQUEST => match decode_request(payload) {
            Ok(q) => Ok(Message::Request(q)),
            Err(e) => Err(e),
        },
        msg_type::RESPONSE => match decode_response(payload) {
            Ok(s) => Ok(Message::Response(s)),
            Err(e) => Err(e),
        },
        msg_type::EVENT => match decode_event(payload) {
            Ok(v) => Ok(Message::Event(v)),
            Err(e) => Err(e),
        },
        msg_type::ERROR => match decode_error(payload) {
            Ok(pe) => Ok(Message::Error(pe)),
            Err(e) => Err(e),
        },
        other => Ok(
            Message::Raw { msg_type: other, payload: slice_to_vec(payload) },
        ),
    }
}

/// The bytes `encode_hello` produces: the name's UTF-8 bytes are truncated
/// to 255 and length-prefixed.
pub open spec fn spec_encode_hello(role: Role, capabilities: u32, name: Seq<char>) -> Seq<u8> {
    let nb = encode_utf8(name);
    let nl = if nb.len() < 255 {
        nb.len() as int
    } else {
        255
    };
    seq![spec_role_u8(role)] + spec_u32_to_le_bytes(capabilities) + seq![nl as u8] + nb.take(nl)
}

pub fn encode_hello(hello: &Hello) -> (out: Vec<u8>)
    ensures
        out@ == spec_encode_hello(hello.role, hello.capabilities, hello.name@),
{
    let name_bytes = hello.name.as_str().as_bytes();
    let name_len = if name_bytes.len() < 255 {
        name_bytes.len()
    } else {
        255
    };
    let mut out: Vec<u8> = Vec::new();
    out.push(hello.role.as_u8());
    let cap = u32_to_le_bytes(hello.capabilities);
    out.extend_from_slice(cap.as_slice());
    out.push(name_len as u8);
    out.extend_from_slice(slice_subrange(name_bytes, 0, name_len));
    proof {
        assert(out@ =~= spec_encode_hello(hello.role, hello.capabilities, hello.name@));
    }
    out
}

/// The bytes `encode_hello_ack` produces.
pub open spec fn spec_encode_hello_ack(capabilities: u32, name: Seq<char>) -> Seq<u8> {
    let nb = encode_utf8(name);
    let nl = if nb.len() < 255 {
        nb.len() as int
    } else {
        255
    };
    spec_u32_to_le_bytes(capabilities) + seq![nl as u8] + nb.take(nl)
}

pub fn encode_hello_ack(ack: &HelloAck) -> (out: Vec<u8>)
    ensures
        out@ == spec_encode_hello_ack(ack.capabilities, ack.name@),
{
    let name_bytes = ack.name.as_str().as_bytes();
    let name_len = if name_bytes.len() < 255 {
        name_bytes.len()
    } else {
        255
    };
    let mut out: Vec<u8> = Vec::new();
    let cap = u32_to_le_bytes(ack.capabilities);
    out.extend_from_slice(cap.as_slice());
    out.push(name_len as u8);
    out.extend_from_slice(slice_subrange(name_bytes, 0, name_len));
    proof {
        assert(out@ =~= spec_encode_hello_ack(ack.capabilities, ack.name@));
    }
    out
}

pub fn encode_heartbeat(hb: &Heartbeat) -> (out: Vec<u8>)
    ensures
        out@ == spec_u64_to_le_bytes(hb.timestamp_ms),
{
    u64_to_le_bytes(hb.timestamp_ms)
}

/// The bytes `encode_request` produces; the reserved field is written zero.
pub open spec fn spec_encode_request(request_id: u32, method: u16, body: Seq<u8>) -> Seq<u8> {
    spec_u32_to_le_bytes(request_id) + spec_u16_to_le_bytes(method) + spec_u16_to_le_bytes(0)
        + body
}

pub fn encode_request(req: &Request) -> (out: Vec<u8>)
    ensures
        out@ == spec_encode_request(req.request_id, req.method, req.body@),
{
    let mut out: Vec<u8> = Vec::new();
    let id = u32_to_le_bytes(req.request_id);
    out.extend_from_slice(id.as_slice());
    let m = u16_to_le_bytes(req.method);
    out.extend_from_slice(m.as_slice());
    let z = u16_to_le_bytes(0);
    out.extend_from_slice(z.as_slice());
    out.extend_from_slice(req.body.as_slice());
    proof {
        assert(out@ =~= spec_encode_request(req.request_id, req.method, req.body@));
    }
    out
}

/// The bytes `encode_response` produces; the reserved field is written zero.
pub open spec fn spec_encode_response(request_id: u32, status: u16, body: Seq<u8>) -> Seq<u8> {
    spec_u32_to_le_bytes(request_id) + spec_u16_to_le_bytes(status) + spec_u16_to_le_bytes(0)
        + body
}

pub fn encode_response(resp: &Response) -> (out: Vec<u8>)
    ensures
        out@ == spec_encode_response(resp.request_id, resp.status, resp.body@),
{
    let mut out: Vec<u8> = Vec::new();
    let id = u32_to_le_bytes(resp.request_id);
    out.extend_from_slice(id.as_slice());
    let s = u16_to_le_bytes(resp.status);
    out.extend_from_slice(s.as_slice());
    let z = u16_to_le_bytes(0);
    out.extend_from_slice(z.as_slice());
    out.extend_from_slice(resp.body.as_slice());
    proof {
        assert(out@ =~= spec_encode_response(resp.request_id, resp.status, resp.body@));
    }
    out
}

/// The bytes `encode_event` produces; the reserved field is written zero.
pub open spec fn spec_encode_event(event_id: u16, timestamp_ms: u64, body: Seq<u8>) -> Seq<u8> {
    spec_u16_to_le_bytes(event_id) + spec_u16_to_le_bytes(0) + spec_u64_to_le_bytes(timestamp_ms)
        + body
}

pub fn encode_event(ev: &Event) -> (out: Vec<u8>)
    ensures
        out@ == spec_encode_event(ev.event_id, ev.timestamp_ms, ev.body@),
{
    let mut out: Vec<u8> = Vec::new();
    let id = u16_to_le_bytes(ev.event_id);
    out.extend_from_slice(id.as_slice());
    let z = u16_to_le_bytes(0);
    out.extend_from_slice(z.as_slice());
    let ts = u64_to_le_bytes(ev.timestamp_ms);
    out.extend_from_slice(ts.as_slice());
    out.extend_from_slice(ev.body.as_slice());
    proof {
        assert(out@ =~= spec_encode_event(ev.event_id, ev.timestamp_ms, ev.body@));
    }
    out
}

/// The bytes `encode_error` produces: the message's UTF-8 bytes are
/// truncated to 65535 and length-prefixed; the reserved field is zero.
pub open spec fn spec_encode_error(code: u16, message: Seq<char>) -> Seq<u8> {
    let mb = encode_utf8(message);
    let ml = if mb.len() < 65535 {
        mb.len() as int
    } else {
        65535
    };
    spec_u16_to_le_bytes(code) + spec_u16_to_le_bytes(0) + spec_u16_to_le_bytes(ml as u16)
        + mb.take(ml)
}

pub fn encode_error(err: &ProtoError) -> (out: Vec<u8>)
    ensures
        out@ == spec_encode_error(err.code, err.message@),
{
    let msg_bytes = err.message.as_str().as_bytes();
    let msg_len = if msg_bytes.len() < 65535 {
        msg_bytes.len()
    } else {
        65535
    };
    let mut out: Vec<u8> = Vec::new();
    let c = u16_to_le_bytes(err.code);
    out.extend_from_slice(c.as_slice());
    let z = u16_to_le_bytes(0);
    out.extend_from_slice(z.as_slice());
    let l = u16_to_le_bytes(msg_len as u16);
    out.extend_from_slice(l.as_slice());
    out.extend_from_slice(slice_subrange(msg_bytes, 0, msg_len));
    proof {
        assert(out@ =~= spec_encode_error(err.code, err.message@));
    }
    out
}

} // verus!
