//! Handshake with a single peer of the Bitcoin peer-to-peer network: the wire
//! codec, address validation, and the `version`/`verack` state machine.

pub mod buffer;
pub mod digest;
pub mod encoding;
pub mod handshake;
pub mod message;
