//! Plain configuration values for the two transports. Opening a port or a
//! socket from them is I/O and happens outside the library.
use vstd::prelude::*;
use vstd::string::StringExecFns;

verus! {

/// Settings for one serial connection.
#[derive(Debug, Clone, PartialEq, Eq)]
pub struct SerialConfig {
    pub port: String,
    pub baud_rate: u32,
    pub data_bits: u8,
    pub stop_bits: u8,
    pub parity: String,
}

impl Default for SerialConfig {
    /// No port chosen yet; 9600 baud, 8 data bits, 1 stop bit, no parity.
    fn default() -> (c: Self)
        ensures
            c.port@.len() == 0,
            c.baud_rate == 9600,
            c.data_bits == 8,
            c.stop_bits == 1,
            c.parity@ == "none"@,
    {
        SerialConfig {
            port: String::new(),
            baud_rate: 9600,
            data_bits: 8,
            stop_bits: 1,
            parity: String::from_str("none"),
        }
    }
}

/// Settings for one TCP connection.
#[derive(Debug, Clone, PartialEq, Eq)]
pub struct TcpConfig {
    pub host: String,
    pub port: u16,
    pub timeout_ms: u64,
}

impl Default for TcpConfig {
    /// The local Modbus port, with a five-second connect timeout.
    fn default() -> (c: Self)
        ensures
            c.host@ == "127.0.0.1"@,
            c.port == 502,
            c.timeout_ms == 5000,
    {
        TcpConfig { host: String::from_str("127.0.0.1"), port: 502, timeout_ms: 5000 }
    }
}

} // verus!
