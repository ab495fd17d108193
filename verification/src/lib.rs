//! Wire-level protocol layer for a peer-to-peer communication fabric:
//! protocol sniffing on a shared port, a fixed 25-byte session handshake, a
//! length-prefixed binary framing of typed messages, and the serializable
//! address model that identifies dialable endpoints.
//!
//! Everything here works on plain bytes and values; moving those bytes over
//! live transports (dialing, non-blocking reads and writes) is the caller's
//! affair.

pub mod addr;
pub mod frame;
pub mod handshake;
pub mod message;
pub mod sniff;
