//! Transport abstraction for relaying encrypted packets.

use vstd::prelude::*;
use crate::error::ProtocolResult;

verus! {

/// Unified trait for secure transport layers (TLS, Noise, SOCKS5); users
/// implement it for their transport.
pub trait SecureTransport: Send + Sync {
    /// Send an encrypted packet over the secure transport.
    fn send_packet(&self, data: &[u8]) -> ProtocolResult<()>;

    /// Receive a packet from the transport.
    fn recv_packet(&self) -> ProtocolResult<Vec<u8>>;
}

} // verus!
