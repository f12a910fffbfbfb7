//! Error types shared by the protocol modules.

use vstd::prelude::*;

verus! {

/// Errors of the protocol layer.
#[derive(Debug, Clone, Copy, PartialEq, Eq, Structural)]
pub enum ProtocolError {
    InvalidArgument,
    InvalidMessage,
    InvalidState,
    InternalError,
    MessageTooOld,
    EncryptionFailed,
    DecryptionFailed,
    StorageError,
    SerializationError,
    DeserializationError,
    Timeout,
}

/// Errors of the cryptographic primitives.
#[derive(Debug, Clone, Copy, PartialEq, Eq, Structural)]
pub enum CryptoError {
    RandomFailed,
    InsufficientEntropy,
    InvalidKeyLength,
    ClockError,
}

/// Result type of the protocol layer.
pub type ProtocolResult<T> = Result<T, ProtocolError>;

/// Result type of the cryptographic primitives.
pub type CryptoResult<T> = Result<T, CryptoError>;

} // verus!
