//! The protocol layer: errors, codec, connection decisions and the driver.

pub mod codec;
pub mod error;
pub mod message;
pub mod network;
