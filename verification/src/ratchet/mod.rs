//! Double Ratchet building blocks: chains, headers, wire messages.
//!
//! Plaintext header wire format (56 bytes): `dh_public (32) ||
//! message_number (8, LE) || previous_chain_length (8, LE) || timestamp (8,
//! LE)`. Encrypted header (84 bytes): `nonce (12) || ChaCha20-Poly1305 of the
//! plaintext header (56 + 16)`.

use vstd::prelude::*;
use vstd::bytes::{spec_u64_to_le_bytes, spec_u64_from_le_bytes, lemma_auto_spec_u64_to_from_le_bytes};
use crate::backend::{aead_seal, aead_open, chacha20poly1305_seal, hkdf_sha256, hkdf_sha256_expand, zeroize_slice};
use crate::clock::current_timestamp;
use crate::error::{ProtocolError, ProtocolResult};
use crate::padding::append_bytes;
use crate::random::SecureRandom;

pub mod chain;

pub use chain::ChainKey;

verus! {

/// Largest number of message keys kept for skipped messages.
pub const MAX_SKIPPED_MESSAGES: usize = 2000;

/// Largest age in seconds of a kept message key.
pub const MAX_MESSAGE_KEY_AGE_SECS: u64 = 86400;

/// Plaintext header size.
pub const HEADER_SIZE: usize = 56;

/// Nonce size of an encrypted header.
pub const ENCRYPTED_HEADER_NONCE_SIZE: usize = 12;

/// Encrypted header size: nonce, header, Poly1305 tag.
pub const ENCRYPTED_HEADER_SIZE: usize = 12 + 56 + 16;

/// Protocol version with header encryption.
pub const PROTOCOL_VERSION_V3_1: u32 = 10;

/// Smallest ciphertext a wire message carries.
pub const MIN_CIPHERTEXT_SIZE: usize = 29;

/// Largest message number a header may carry.
pub const MAX_MESSAGE_NUMBER: u64 = 1_000_000_000_000;

/// How far in the future (seconds) a header timestamp may lie.
pub const MAX_CLOCK_SKEW_SECS: u64 = 300;

/// Largest age (seconds) of a header timestamp.
pub const MAX_HEADER_AGE_SECS: u64 = 86400;

/// Header of a ratchet message.
#[derive(Clone, Debug)]
pub struct RatchetHeader {
    pub dh_public: [u8; 32],
    pub message_number: u64,
    pub previous_chain_length: u64,
    pub timestamp: u64,
}

/// The 56-byte encoding of a header.
pub open spec fn header_bytes(h: RatchetHeader) -> Seq<u8> {
    h.dh_public@ + spec_u64_to_le_bytes(h.message_number) + spec_u64_to_le_bytes(h.previous_chain_length)
        + spec_u64_to_le_bytes(h.timestamp)
}

/// `h` is the header that the 56 bytes `b` encode.
pub open spec fn header_matches(h: RatchetHeader, b: Seq<u8>) -> bool {
    &&& b.len() == 56
    &&& h.dh_public@ == b.subrange(0, 32)
    &&& h.message_number == spec_u64_from_le_bytes(b.subrange(32, 40))
    &&& h.previous_chain_length == spec_u64_from_le_bytes(b.subrange(40, 48))
    &&& h.timestamp == spec_u64_from_le_bytes(b.subrange(48, 56))
}

/// An encrypted header: the nonce followed by the sealed encoding.
pub open spec fn sealed_header(key: Seq<u8>, nonce: Seq<u8>, h: RatchetHeader) -> Seq<u8> {
    nonce + chacha20poly1305_seal(key, nonce, header_bytes(h))
}

/// The outcome of checking header `h` at time `now`.
pub open spec fn header_check(h: RatchetHeader, now: u64) -> ProtocolResult<()> {
    if forall|i: int| 0 <= i < 32 ==> h.dh_public@[i] == 0 {
        Err(ProtocolError::InvalidMessage)
    } else if h.message_number > MAX_MESSAGE_NUMBER {
        Err(ProtocolError::InvalidMessage)
    } else if h.timestamp > now + MAX_CLOCK_SKEW_SECS {
        Err(ProtocolError::InvalidMessage)
    } else if now > h.timestamp + MAX_HEADER_AGE_SECS {
        Err(ProtocolError::MessageTooOld)
    } else {
        Ok(())
    }
}

/// Encoding and decoding of headers are inverse: the encoding is 56 bytes
/// and the header it encodes is the one encoded, and the only one.
pub proof fn lemma_header_bytes_roundtrip(h: RatchetHeader, h2: RatchetHeader)
    ensures
        header_bytes(h).len() == 56,
        header_matches(h, header_bytes(h)),
        header_matches(h2, header_bytes(h)) ==> h2 == h,
{
    lemma_auto_spec_u64_to_from_le_bytes();
    let b = header_bytes(h);
    assert(b.subrange(0, 32) =~= h.dh_public@);
    assert(b.subrange(32, 40) =~= spec_u64_to_le_bytes(h.message_number));
    assert(b.subrange(40, 48) =~= spec_u64_to_le_bytes(h.previous_chain_length));
    assert(b.subrange(48, 56) =~= spec_u64_to_le_bytes(h.timestamp));
    if header_matches(h2, b) {
        assert(h2.dh_public@ =~= h.dh_public@);
        assert(h2.dh_public == h.dh_public);
    }
}

/// Every 56 bytes encode a header, whose encoding gives them back.
pub proof fn lemma_header_bytes_of_match(h: RatchetHeader, b: Seq<u8>)
    requires
        header_matches(h, b),
    ensures
        header_bytes(h) == b,
{
    lemma_auto_spec_u64_to_from_le_bytes();
    assert(b.subrange(32, 40).len() == 8);
    assert(spec_u64_to_le_bytes(spec_u64_from_le_bytes(b.subrange(32, 40))) == b.subrange(32, 40));
    assert(spec_u64_to_le_bytes(spec_u64_from_le_bytes(b.subrange(40, 48))) == b.subrange(40, 48));
    assert(spec_u64_to_le_bytes(spec_u64_from_le_bytes(b.subrange(48, 56))) == b.subrange(48, 56));
    assert(header_bytes(h) =~= b);
}

/// A header stamped with time 0 is rejected as too old at any time after the
/// first day of the epoch, whatever else it holds (if its other checks pass).
pub proof fn lemma_zero_timestamp_too_old(h: RatchetHeader, now: u64)
    requires
        h.timestamp == 0,
        now > MAX_HEADER_AGE_SECS,
        !(forall|i: int| 0 <= i < 32 ==> h.dh_public@[i] == 0),
        h.message_number <= MAX_MESSAGE_NUMBER,
    ensures
        header_check(h, now) == Err::<(), ProtocolError>(ProtocolError::MessageTooOld),
{
}

/// What header validation is for: a header is accepted exactly when its DH
/// key has a non-zero byte, its message number is at most
/// `MAX_MESSAGE_NUMBER`, and its timestamp lies between a day before `now`
/// and five minutes after it. A zero byte inside an otherwise random key is
/// no ground for rejection; only the all-zero key is.
pub proof fn lemma_header_accepted_iff_fresh(h: RatchetHeader, now: u64)
    ensures
        header_check(h, now) == Ok::<(), ProtocolError>(()) <==> {
            &&& exists|i: int| 0 <= i < 32 && h.dh_public@[i] != 0
            &&& h.message_number <= MAX_MESSAGE_NUMBER
            &&& now - MAX_HEADER_AGE_SECS <= h.timestamp <= now + MAX_CLOCK_SKEW_SECS
        },
        header_check(h, now) is Err ==> header_check(h, now) == Err::<(), ProtocolError>(ProtocolError::InvalidMessage)
            || (header_check(h, now) == Err::<(), ProtocolError>(ProtocolError::MessageTooOld)
                && now > h.timestamp + MAX_HEADER_AGE_SECS),
{
}

impl RatchetHeader {
    /// The 56-byte plaintext encoding.
    pub fn to_bytes(&self) -> (r: Vec<u8>)
        ensures
            r@ == header_bytes(*self),
    {
        let mut out: Vec<u8> = Vec::with_capacity(HEADER_SIZE);
        append_bytes(&mut out, &self.dh_public);
        let mn = vstd::bytes::u64_to_le_bytes(self.message_number);
        append_bytes(&mut out, mn.as_slice());
        let pcl = vstd::bytes::u64_to_le_bytes(self.previous_chain_length);
        append_bytes(&mut out, pcl.as_slice());
        let ts = vstd::bytes::u64_to_le_bytes(self.timestamp);
        append_bytes(&mut out, ts.as_slice());
        out
    }

    /// Decodes the header from the first 56 bytes of `data`; shorter input is
    /// `InvalidMessage`.
    pub fn from_bytes(data: &[u8]) -> (r: ProtocolResult<Self>)
        ensures
            data@.len() < 56 ==> r == Err::<RatchetHeader, ProtocolError>(ProtocolError::InvalidMessage),
            data@.len() >= 56 ==> (r matches Ok(h) && header_matches(h, data@.subrange(0, 56))),
    {
        if data.len() < HEADER_SIZE {
            return Err(ProtocolError::InvalidMessage);
        }
        let mut dh_public = [0u8; 32];
        let mut i: usize = 0;
        while i < 32
            invariant
                0 <= i <= 32,
                data@.len() >= 56,
                forall|j: int| 0 <= j < i ==> dh_public@[j] == data@[j],
            decreases 32 - i,
        {
            dh_public[i] = data[i];
            i = i + 1;
        }
        assert(dh_public@ =~= data@.subrange(0, 56).subrange(0, 32));
        let message_number = vstd::bytes::u64_from_le_bytes(vstd::slice::slice_subrange(data, 32, 40));
        let previous_chain_length = vstd::bytes::u64_from_le_bytes(vstd::slice::slice_subrange(data, 40, 48));
        let timestamp = vstd::bytes::u64_from_le_bytes(vstd::slice::slice_subrange(data, 48, 56));
        assert(data@.subrange(32, 40) =~= data@.subrange(0, 56).subrange(32, 40));
        assert(data@.subrange(40, 48) =~= data@.subrange(0, 56).subrange(40, 48));
        assert(data@.subrange(48, 56) =~= data@.subrange(0, 56).subrange(48, 56));
        Ok(RatchetHeader { dh_public, message_number, previous_chain_length, timestamp })
    }

    /// Whether the DH public key is all zero.
    fn dh_public_is_zero(&self) -> (r: bool)
        ensures
            r == (forall|i: int| 0 <= i < 32 ==> self.dh_public@[i] == 0),
    {
        let mut all_zero = true;
        let mut i: usize = 0;
        while i < 32
            invariant
                0 <= i <= 32,
                all_zero == (forall|j: int| 0 <= j < i ==> self.dh_public@[j] == 0),
            decreases 32 - i,
        {
            if self.dh_public[i] != 0 {
                all_zero = false;
            }
            i = i + 1;
        }
        all_zero
    }

    /// Checks the header at time `now`: an all-zero DH key, a message number
    /// above `MAX_MESSAGE_NUMBER` or a timestamp more than five minutes ahead
    /// is `InvalidMessage`; a timestamp more than a day old (0 included) is
    /// `MessageTooOld`.
    pub fn validate_at(&self, now: u64) -> (r: ProtocolResult<()>)
        requires
            now <= u64::MAX - MAX_CLOCK_SKEW_SECS,
        ensures
            r == header_check(*self, now),
            (exists|i: int| 0 <= i < 32 && self.dh_public@[i] != 0) && self.message_number <= MAX_MESSAGE_NUMBER
                && now - MAX_HEADER_AGE_SECS <= self.timestamp <= now + MAX_CLOCK_SKEW_SECS
                ==> r == Ok::<(), ProtocolError>(()),
            r is Ok ==> (exists|i: int| 0 <= i < 32 && self.dh_public@[i] != 0)
                && self.message_number <= MAX_MESSAGE_NUMBER
                && now - MAX_HEADER_AGE_SECS <= self.timestamp <= now + MAX_CLOCK_SKEW_SECS,
    {
        if self.dh_public_is_zero() {
            return Err(ProtocolError::InvalidMessage);
        }
        if self.message_number > MAX_MESSAGE_NUMBER {
            return Err(ProtocolError::InvalidMessage);
        }
        if self.timestamp > now + MAX_CLOCK_SKEW_SECS {
            return Err(ProtocolError::InvalidMessage);
        }
        if now > self.timestamp.saturating_add(MAX_HEADER_AGE_SECS) {
            return Err(ProtocolError::MessageTooOld);
        }
        Ok(())
    }

    /// Checks the header against the current time (see `validate_at`). The
    /// key and the message number are checked before the clock is read; an
    /// unusable clock is `InternalError`.
    pub fn validate(&self) -> (r: ProtocolResult<()>)
        ensures
            r == Err::<(), ProtocolError>(ProtocolError::InternalError)
                || exists|now: u64| r == header_check(*self, now),
            (forall|i: int| 0 <= i < 32 ==> self.dh_public@[i] == 0)
                ==> r == Err::<(), ProtocolError>(ProtocolError::InvalidMessage),
            self.message_number > MAX_MESSAGE_NUMBER ==> r == Err::<(), ProtocolError>(ProtocolError::InvalidMessage),
    {
        if self.dh_public_is_zero() || self.message_number > MAX_MESSAGE_NUMBER {
            assert(header_check(*self, 0) == Err::<(), ProtocolError>(ProtocolError::InvalidMessage));
            return Err(ProtocolError::InvalidMessage);
        }
        let now = match current_timestamp() {
            Ok(t) => t,
            Err(_) => return Err(ProtocolError::InternalError),
        };
        if now > u64::MAX - MAX_CLOCK_SKEW_SECS {
            return Err(ProtocolError::InternalError);
        }
        self.validate_at(now)
    }

    /// Encrypts the header under `header_key` with the given nonce:
    /// `nonce || ChaCha20-Poly1305(header)`.
    pub fn encrypt_with_nonce(&self, header_key: &[u8; 32], nonce: &[u8; 12]) -> (r: ProtocolResult<Vec<u8>>)
        ensures
            r matches Ok(out) && out@ == sealed_header(header_key@, nonce@, *self),
            r matches Ok(out) && out@.len() == ENCRYPTED_HEADER_SIZE,
    {
        let plaintext = self.to_bytes();
        proof {
            lemma_header_bytes_roundtrip(*self, *self);
        }
        match aead_seal(header_key, nonce, plaintext.as_slice()) {
            Some(encrypted) => {
                let mut out: Vec<u8> = Vec::with_capacity(ENCRYPTED_HEADER_NONCE_SIZE + encrypted.len());
                append_bytes(&mut out, nonce);
                append_bytes(&mut out, encrypted.as_slice());
                Ok(out)
            },
            None => Err(ProtocolError::EncryptionFailed),
        }
    }

    /// Encrypts the header under `header_key` with a fresh random nonce;
    /// `InternalError` when no generator can be set up.
    pub fn encrypt(&self, header_key: &[u8; 32]) -> (r: ProtocolResult<Vec<u8>>)
        ensures
            r matches Ok(out) ==> exists|nonce: Seq<u8>| nonce.len() == 12
                && out@ == #[trigger] sealed_header(header_key@, nonce, *self),
            r matches Ok(out) ==> out@.len() == ENCRYPTED_HEADER_SIZE,
            r matches Err(e) ==> e == ProtocolError::InternalError,
    {
        let mut rng = match SecureRandom::new() {
            Ok(g) => g,
            Err(_) => return Err(ProtocolError::InternalError),
        };
        let mut nonce_bytes = [0u8; 12];
        rng.fill_bytes(&mut nonce_bytes);
        self.encrypt_with_nonce(header_key, &nonce_bytes)
    }

    /// Decrypts an encrypted header (`nonce || sealed header`). Input shorter
    /// than a nonce and a tag is `InvalidMessage`; a failed authentication is
    /// `DecryptionFailed`; an opened plaintext shorter than a header is
    /// `InvalidMessage`.
    pub fn decrypt(data: &[u8], header_key: &[u8; 32]) -> (r: ProtocolResult<Self>)
        ensures
            data@.len() < 28 ==> r == Err::<RatchetHeader, ProtocolError>(ProtocolError::InvalidMessage),
            r matches Ok(h) ==> data@.len() >= 28 && exists|p: Seq<u8>| p.len() >= 56
                && data@.subrange(12, data@.len() as int) == #[trigger] chacha20poly1305_seal(header_key@, data@.subrange(0, 12), p)
                && header_matches(h, p.subrange(0, 56)),
            r == Err::<RatchetHeader, ProtocolError>(ProtocolError::DecryptionFailed) ==> forall|p: Seq<u8>|
                p.len() / 64 < u32::MAX ==> #[trigger] chacha20poly1305_seal(header_key@, data@.subrange(0, 12), p)
                    != data@.subrange(12, data@.len() as int),
            forall|h: RatchetHeader| data@.len() >= 28
                && #[trigger] sealed_header(header_key@, data@.subrange(0, 12), h) == data@
                ==> r == Ok::<RatchetHeader, ProtocolError>(h),
            forall|p: Seq<u8>| data@.len() >= 28 && p.len() >= 56 && p.len() / 64 < u32::MAX
                && data@.subrange(12, data@.len() as int) == #[trigger] chacha20poly1305_seal(header_key@, data@.subrange(0, 12), p)
                ==> (r matches Ok(h) && header_matches(h, p.subrange(0, 56))),
    {
        if data.len() < ENCRYPTED_HEADER_NONCE_SIZE + 16 {
            return Err(ProtocolError::InvalidMessage);
        }
        let nonce = vstd::slice::slice_subrange(data, 0, ENCRYPTED_HEADER_NONCE_SIZE);
        let ciphertext = vstd::slice::slice_subrange(data, ENCRYPTED_HEADER_NONCE_SIZE, data.len());
        let opened = aead_open(header_key, nonce, ciphertext);
        proof {
            assert forall|h: RatchetHeader| data@.len() >= 28
                && #[trigger] sealed_header(header_key@, data@.subrange(0, 12), h) == data@
                implies opened matches Some(p) && p@ == header_bytes(h) by {
                lemma_header_bytes_roundtrip(h, h);
                let n = data@.subrange(0, 12);
                assert(data@.subrange(12, data@.len() as int)
                    =~= sealed_header(header_key@, n, h).subrange(12, data@.len() as int));
                assert(sealed_header(header_key@, n, h).subrange(12, data@.len() as int)
                    =~= chacha20poly1305_seal(header_key@, n, header_bytes(h)));
                assert(chacha20poly1305_seal(header_key@, n, header_bytes(h)) == ciphertext@);
            }
        }
        match opened {
            None => Err(ProtocolError::DecryptionFailed),
            Some(plaintext) => {
                let r = Self::from_bytes(plaintext.as_slice());
                proof {
                    assert forall|h: RatchetHeader| data@.len() >= 28
                        && #[trigger] sealed_header(header_key@, data@.subrange(0, 12), h) == data@
                        implies r == Ok::<RatchetHeader, ProtocolError>(h) by {
                        lemma_header_bytes_roundtrip(h, h);
                        assert(plaintext@ == header_bytes(h));
                        assert(plaintext@.subrange(0, 56) =~= plaintext@);
                        let h2 = r->Ok_0;
                        lemma_header_bytes_roundtrip(h, h2);
                    }
                }
                r
            },
        }
    }
}

/// A message key kept for a skipped message.
#[derive(Clone, Debug)]
pub struct SkippedMessageKey {
    pub key: [u8; 32],
    pub created_at: u64,
    pub message_number: u64,
}

impl SkippedMessageKey {
    /// A kept key for message `message_number`, stamped with the current
    /// time (0 when the clock is unusable).
    pub fn new(key: [u8; 32], message_number: u64) -> (r: Self)
        ensures
            r.key == key,
            r.message_number == message_number,
    {
        let created_at = match current_timestamp() {
            Ok(t) => t,
            Err(_) => 0,
        };
        Self::new_at(key, message_number, created_at)
    }

    /// A kept key for message `message_number`, stamped with time `now`.
    pub fn new_at(key: [u8; 32], message_number: u64, now: u64) -> (r: Self)
        ensures
            r.key == key,
            r.message_number == message_number,
            r.created_at == now,
    {
        SkippedMessageKey { key, message_number, created_at: now }
    }

    /// The key is expired at `now` when it is older than
    /// `MAX_MESSAGE_KEY_AGE_SECS`.
    pub open spec fn expired_at(&self, now: u64) -> bool {
        now > self.created_at + MAX_MESSAGE_KEY_AGE_SECS
    }

    /// Whether the key is past its maximum age at time `now`.
    pub fn is_expired_at(&self, now: u64) -> (r: bool)
        requires
            self.created_at <= u64::MAX - MAX_MESSAGE_KEY_AGE_SECS,
        ensures
            r == self.expired_at(now),
    {
        now > self.created_at + MAX_MESSAGE_KEY_AGE_SECS
    }

    /// Whether the key is past its maximum age now (an unusable clock counts
    /// as the creation time, so the key is then not expired).
    pub fn is_expired(&self) -> (r: bool)
        requires
            self.created_at <= u64::MAX - MAX_MESSAGE_KEY_AGE_SECS,
        ensures
            exists|now: u64| r == #[trigger] self.expired_at(now),
    {
        let now = match current_timestamp() {
            Ok(t) => t,
            Err(_) => self.created_at,
        };
        self.is_expired_at(now)
    }
}

/// A ratchet message: header and AEAD ciphertext.
#[derive(Clone, Debug)]
pub struct RatchetMessage {
    pub header: RatchetHeader,
    pub ciphertext: Vec<u8>,
}

impl RatchetMessage {
    /// Wire format with a plaintext header: `header (56) || ciphertext`.
    pub fn to_bytes(&self) -> (r: Vec<u8>)
        ensures
            r@ == header_bytes(self.header) + self.ciphertext@,
    {
        let mut out = self.header.to_bytes();
        append_bytes(&mut out, self.ciphertext.as_slice());
        out
    }

    /// Wire format with an encrypted header under the given nonce:
    /// `encrypted header (84) || ciphertext`.
    pub fn to_bytes_encrypted_with_nonce(&self, header_key: &[u8; 32], nonce: &[u8; 12]) -> (r: ProtocolResult<Vec<u8>>)
        ensures
            r matches Ok(out) && out@ == sealed_header(header_key@, nonce@, self.header) + self.ciphertext@,
            r matches Ok(out) ==> out@.len() == ENCRYPTED_HEADER_SIZE + self.ciphertext@.len(),
    {
        let encrypted_header = self.header.encrypt_with_nonce(header_key, nonce)?;
        let mut out = encrypted_header;
        append_bytes(&mut out, self.ciphertext.as_slice());
        Ok(out)
    }

    /// Wire format with an encrypted header under a fresh random nonce;
    /// `InternalError` when no generator can be set up.
    pub fn to_bytes_encrypted(&self, header_key: &[u8; 32]) -> (r: ProtocolResult<Vec<u8>>)
        ensures
            r matches Ok(out) ==> exists|nonce: Seq<u8>| nonce.len() == 12
                && out@ == #[trigger] sealed_header(header_key@, nonce, self.header) + self.ciphertext@,
            r matches Ok(out) ==> out@.len() == ENCRYPTED_HEADER_SIZE + self.ciphertext@.len(),
            r matches Err(e) ==> e == ProtocolError::InternalError,
    {
        let encrypted_header = self.header.encrypt(header_key)?;
        let mut out = encrypted_header;
        append_bytes(&mut out, self.ciphertext.as_slice());
        Ok(out)
    }

    /// Parses the plaintext-header wire format. Input shorter than a header
    /// and `MIN_CIPHERTEXT_SIZE` ciphertext bytes is `InvalidMessage`.
    pub fn from_bytes(data: &[u8]) -> (r: ProtocolResult<Self>)
        ensures
            data@.len() < 85 ==> (r matches Err(e) && e == ProtocolError::InvalidMessage),
            data@.len() >= 85 ==> (r matches Ok(m) && header_matches(m.header, data@.subrange(0, 56))
                && m.ciphertext@ == data@.subrange(56, data@.len() as int)),
    {
        if data.len() < HEADER_SIZE + MIN_CIPHERTEXT_SIZE {
            return Err(ProtocolError::InvalidMessage);
        }
        let header = RatchetHeader::from_bytes(vstd::slice::slice_subrange(data, 0, HEADER_SIZE))?;
        let ciphertext = vstd::slice::slice_to_vec(vstd::slice::slice_subrange(data, HEADER_SIZE, data.len()));
        assert(data@.subrange(0, 56).subrange(0, 56) =~= data@.subrange(0, 56));
        Ok(RatchetMessage { header, ciphertext })
    }

    /// Parses the encrypted-header wire format. Input shorter than an
    /// encrypted header and `MIN_CIPHERTEXT_SIZE` ciphertext bytes is
    /// `InvalidMessage`; otherwise the header is decrypted as by
    /// `RatchetHeader::decrypt`.
    pub fn from_bytes_encrypted(data: &[u8], header_key: &[u8; 32]) -> (r: ProtocolResult<Self>)
        ensures
            data@.len() < 113 ==> (r matches Err(e) && e == ProtocolError::InvalidMessage),
            r matches Ok(m) ==> data@.len() >= 113
                && m.ciphertext@ == data@.subrange(84, data@.len() as int)
                && exists|p: Seq<u8>| p.len() >= 56
                    && data@.subrange(12, 84) == #[trigger] chacha20poly1305_seal(header_key@, data@.subrange(0, 12), p)
                    && header_matches(m.header, p.subrange(0, 56)),
            forall|h: RatchetHeader| data@.len() >= 113
                && #[trigger] sealed_header(header_key@, data@.subrange(0, 12), h) == data@.subrange(0, 84)
                ==> (r matches Ok(m) && m.header == h && m.ciphertext@ == data@.subrange(84, data@.len() as int)),
    {
        if data.len() < ENCRYPTED_HEADER_SIZE + MIN_CIPHERTEXT_SIZE {
            return Err(ProtocolError::InvalidMessage);
        }
        let head = vstd::slice::slice_subrange(data, 0, ENCRYPTED_HEADER_SIZE);
        assert(head@.subrange(0, 12) =~= data@.subrange(0, 12));
        assert(head@.subrange(12, 84) =~= data@.subrange(12, 84));
        let header = RatchetHeader::decrypt(head, header_key)?;
        let ciphertext = vstd::slice::slice_to_vec(vstd::slice::slice_subrange(data, ENCRYPTED_HEADER_SIZE, data.len()));
        Ok(RatchetMessage { header, ciphertext })
    }

    /// Whether the input is long enough to carry an encrypted header.
    pub fn is_encrypted_header(data: &[u8]) -> (r: bool)
        ensures
            r == (data@.len() >= 113),
    {
        data.len() >= ENCRYPTED_HEADER_SIZE + MIN_CIPHERTEXT_SIZE
    }

    /// Size of the plaintext-header wire format.
    pub fn size(&self) -> (r: usize)
        requires
            self.ciphertext@.len() <= usize::MAX - 56,
        ensures
            r == 56 + self.ciphertext@.len(),
    {
        HEADER_SIZE + self.ciphertext.len()
    }
}

/// Roundtrip law of the plaintext-header wire format: a message with at
/// least `MIN_CIPHERTEXT_SIZE` ciphertext bytes parses back to itself.
pub proof fn lemma_message_bytes_roundtrip(h: RatchetHeader, ct: Seq<u8>, h2: RatchetHeader, ct2: Seq<u8>)
    requires
        ct.len() >= 29,
        header_matches(h2, (header_bytes(h) + ct).subrange(0, 56)),
        ct2 == (header_bytes(h) + ct).subrange(56, (header_bytes(h) + ct).len() as int),
    ensures
        (header_bytes(h) + ct).len() >= 85,
        h2 == h,
        ct2 == ct,
{
    lemma_header_bytes_roundtrip(h, h2);
    assert((header_bytes(h) + ct).subrange(0, 56) =~= header_bytes(h));
    assert(ct2 =~= ct);
}

/// Roundtrip law of the encrypted-header wire format: the output of
/// `to_bytes_encrypted` (an 84-byte sealed header followed by at least
/// `MIN_CIPHERTEXT_SIZE` ciphertext bytes) has the layout under which
/// `from_bytes_encrypted` with the same key gives back the header and the
/// ciphertext, whatever nonce was used.
pub proof fn lemma_encrypted_message_layout(key: Seq<u8>, nonce: Seq<u8>, h: RatchetHeader, ct: Seq<u8>)
    requires
        nonce.len() == 12,
        sealed_header(key, nonce, h).len() == ENCRYPTED_HEADER_SIZE,
        ct.len() >= 29,
    ensures
        ({
            let data = sealed_header(key, nonce, h) + ct;
            &&& data.len() >= 113
            &&& data.subrange(0, 12) == nonce
            &&& sealed_header(key, data.subrange(0, 12), h) == data.subrange(0, 84)
            &&& data.subrange(84, data.len() as int) == ct
        }),
{
    let data = sealed_header(key, nonce, h) + ct;
    assert(data.subrange(0, 12) =~= nonce);
    assert(data.subrange(0, 84) =~= sealed_header(key, nonce, h));
    assert(data.subrange(84, data.len() as int) =~= ct);
}

/// HKDF salt of the session key schedule: "SibnaSession_v3".
pub open spec fn session_salt() -> Seq<u8> {
    seq![83u8, 105, 98, 110, 97, 83, 101, 115, 115, 105, 111, 110, 95, 118, 51]
}

/// HKDF info of the session key schedule: "SibnaRootAndChainKey_v3".
pub open spec fn session_info() -> Seq<u8> {
    seq![83u8, 105, 98, 110, 97, 82, 111, 111, 116, 65, 110, 100, 67, 104, 97, 105, 110, 75, 101, 121, 95, 118, 51]
}

/// The 64 bytes that the session key schedule expands a shared secret to:
/// the root key followed by the first chain key.
pub open spec fn session_okm(shared_secret: Seq<u8>) -> Seq<u8> {
    hkdf_sha256(session_salt(), shared_secret, session_info(), 64)
}

/// The key schedule that starts a session from an agreed secret: an
/// all-zero secret is `InvalidArgument`; otherwise one 64-byte HKDF-SHA256
/// expansion is split into the root key (first 32 bytes) and the first
/// chain key (last 32 bytes).
pub fn session_key_schedule(shared_secret: &[u8; 32]) -> (r: ProtocolResult<([u8; 32], [u8; 32])>)
    ensures
        (forall|i: int| 0 <= i < 32 ==> shared_secret@[i] == 0)
            ==> r == Err::<([u8; 32], [u8; 32]), ProtocolError>(ProtocolError::InvalidArgument),
        !(forall|i: int| 0 <= i < 32 ==> shared_secret@[i] == 0) ==> (r matches Ok(keys)
            && keys.0@ == session_okm(shared_secret@).subrange(0, 32)
            && keys.1@ == session_okm(shared_secret@).subrange(32, 64)),
{
    let mut all_zero = true;
    let mut i: usize = 0;
    while i < 32
        invariant
            0 <= i <= 32,
            all_zero == (forall|j: int| 0 <= j < i ==> shared_secret@[j] == 0),
        decreases 32 - i,
    {
        if shared_secret[i] != 0 {
            all_zero = false;
        }
        i = i + 1;
    }
    if all_zero {
        return Err(ProtocolError::InvalidArgument);
    }
    let salt: [u8; 15] = [83u8, 105, 98, 110, 97, 83, 101, 115, 115, 105, 111, 110, 95, 118, 51];
    let info: [u8; 23] = [83u8, 105, 98, 110, 97, 82, 111, 111, 116, 65, 110, 100, 67, 104, 97, 105, 110, 75, 101,
        121, 95, 118, 51];
    assert(salt@ =~= session_salt());
    assert(info@ =~= session_info());
    let mut okm = [0u8; 64];
    let _ = hkdf_sha256_expand(&salt, shared_secret, &info, &mut okm);
    let mut root_key = [0u8; 32];
    let mut chain_key = [0u8; 32];
    let mut k: usize = 0;
    while k < 32
        invariant
            0 <= k <= 32,
            okm@ == session_okm(shared_secret@),
            okm@.len() == 64,
            forall|j: int| 0 <= j < k ==> root_key@[j] == okm@[j] && chain_key@[j] == okm@[32 + j],
        decreases 32 - k,
    {
        root_key[k] = okm[k];
        chain_key[k] = okm[32 + k];
        k = k + 1;
    }
    assert(root_key@ =~= session_okm(shared_secret@).subrange(0, 32));
    assert(chain_key@ =~= session_okm(shared_secret@).subrange(32, 64));
    zeroize_slice(&mut okm);
    Ok((root_key, chain_key))
}

/// Summary of a ratchet state.
#[derive(Clone, Debug)]
pub struct RatchetStateSummary {
    pub sending_index: u64,
    pub receiving_index: u64,
    pub skipped_keys: usize,
    pub ratchet_count: u64,
}

/// Short summary of a ratchet state.
#[derive(Clone, Debug)]
pub struct StateSummary {
    pub sending_index: u64,
    pub skipped_keys: usize,
}

/// Tunable ratchet-level parameters.
#[derive(Clone, Debug)]
pub struct RatchetConfig {
    pub max_skipped_messages: usize,
    pub message_key_max_age_secs: u64,
    pub max_chain_messages: u64,
}

impl Default for RatchetConfig {
    /// The chain limit is twice the skipped-message window, so an adversary
    /// cannot exhaust a chain before the window closes.
    fn default() -> (r: Self)
        ensures
            r.max_skipped_messages == MAX_SKIPPED_MESSAGES,
            r.message_key_max_age_secs == MAX_MESSAGE_KEY_AGE_SECS,
            r.max_chain_messages == 2 * MAX_SKIPPED_MESSAGES,
    {
        RatchetConfig {
            max_skipped_messages: MAX_SKIPPED_MESSAGES,
            message_key_max_age_secs: MAX_MESSAGE_KEY_AGE_SECS,
            max_chain_messages: (MAX_SKIPPED_MESSAGES as u64) * 2,
        }
    }
}

} // verus!
