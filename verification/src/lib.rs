//! Verified core of an HMI field-device bridge: the HMIP binary framing
//! protocol (streaming, resynchronizing frame decoder and frame encoder),
//! the typed message codec layered on frame payloads, and the pure decision
//! logic of the reconnecting transport actor (priority selection, backoff,
//! event construction). I/O itself stays outside the library; everything
//! here is computation on plain values.
pub mod actor;
pub mod config;
pub mod events;
pub mod frame;
pub mod laws;
pub mod msg;
pub mod msg_type;
pub mod sim;
pub mod wire;
