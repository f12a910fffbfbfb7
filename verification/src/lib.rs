//! Sibna core: message padding, constant-time comparison, secure random
//! generation, chain-key ratcheting, ratchet wire formats, signed envelopes,
//! storage manifests, peer-address screening and discovery naming, the
//! hybrid router's decisions, and the relay's handling of envelopes.

pub mod error;
pub mod padding;
pub mod backend;
pub mod random;
pub mod secure_compare;
pub mod secure_memory;
pub mod clock;
pub mod ratchet;
pub mod metadata;
pub mod storage;
pub mod transport;
pub mod p2p;
pub mod routing;
pub mod relay;
