//! Recommended message type codes; any other `msg_type` value decodes as an
//! opaque raw message.
use vstd::prelude::*;

verus! {

pub const HELLO: u8 = 0x01;

pub const HELLO_ACK: u8 = 0x02;

pub const HEARTBEAT: u8 = 0x03;

pub const REQUEST: u8 = 0x10;

pub const RESPONSE: u8 = 0x11;

pub const EVENT: u8 = 0x20;

pub const ERROR: u8 = 0x7F;

} // verus!
