//! The VBAN audio protocol: packets on the wire and the buffer that orders them.

pub mod bridge;
pub mod jitter;
pub mod laws;
pub mod packet;
pub mod receive;
pub mod wire;
