//! Metadata resistance: constant-size padding of payloads, delivery jitter,
//! and envelopes signed end to end.

use vstd::prelude::*;
use vstd::utf8::encode_utf8;
use vstd::bytes::spec_u64_to_le_bytes;
use crate::backend::{sha512, sha512_digest, hex_decode, hex_decode_spec, ed25519_check,
    ed25519_key_valid, ed25519_verify, thread_rng_up_to, utc_now_timestamp};
use crate::padding::{pad_message, unpad_message, spec_unpad, well_padded, padded_layout, PaddingMode,
    BLOCK_SIZE_STANDARD, append_bytes};

verus! {

/// Padding block size of payloads.
pub const PADDING_BLOCK_SIZE: usize = BLOCK_SIZE_STANDARD;

/// Largest delivery jitter in milliseconds.
pub const MAX_JITTER_MS: u64 = 500;

/// Largest clock difference in seconds an envelope may show.
pub const MAX_ENVELOPE_AGE_SECS: i64 = 300;

/// Padding error.
#[derive(Debug, Clone, Copy, PartialEq, Eq, Structural)]
pub enum PaddingError {
    TooShort,
    InvalidPadding,
}

/// Pads a payload to a multiple of `PADDING_BLOCK_SIZE` (standard mode).
pub fn pad_payload(payload: &[u8]) -> (r: Result<Vec<u8>, PaddingError>)
    requires
        payload@.len() <= usize::MAX - 65546,
    ensures
        r matches Ok(out) ==> exists|noise: Seq<u8>, fill: Seq<u8>, extra: nat|
            #[trigger] well_padded(payload@, 1024, noise, fill, extra) && padded_layout(payload@, noise, fill) == out@,
        r matches Ok(out) ==> spec_unpad(out@) == Some(payload@) && out@.len() % 1024 == 0,
        r matches Err(e) ==> e == PaddingError::InvalidPadding,
{
    match pad_message(payload, PaddingMode::Standard) {
        Ok(v) => Ok(v),
        Err(_) => Err(PaddingError::InvalidPadding),
    }
}

/// Removes the padding of a received payload.
pub fn unpad_payload(padded: &[u8]) -> (r: Result<Vec<u8>, PaddingError>)
    ensures
        r matches Ok(v) ==> spec_unpad(padded@) == Some(v@),
        r matches Err(e) ==> spec_unpad(padded@) is None && e == PaddingError::InvalidPadding,
{
    match unpad_message(padded) {
        Ok(v) => Ok(v),
        Err(_) => Err(PaddingError::InvalidPadding),
    }
}

/// `len` rounded up to a whole number of blocks (one block for 0).
#[allow(dead_code)]
fn round_up_to_block(len: usize) -> (r: usize)
    requires
        len <= usize::MAX - 1024,
    ensures
        r % 1024 == 0,
        len == 0 ==> r == 1024,
        len > 0 ==> len <= r < len + 1024,
{
    if len == 0 {
        return PADDING_BLOCK_SIZE;
    }
    let r = ((len + PADDING_BLOCK_SIZE - 1) / PADDING_BLOCK_SIZE) * PADDING_BLOCK_SIZE;
    assert(r % 1024 == 0 && len <= r < len + 1024) by (nonlinear_arith)
        requires r == ((len + 1023) / 1024) * 1024, len > 0;
    r
}

/// A random delivery delay between 0 and `MAX_JITTER_MS` milliseconds.
pub fn random_jitter_ms() -> (r: u64)
    ensures
        r <= MAX_JITTER_MS,
{
    thread_rng_up_to(MAX_JITTER_MS)
}

/// Signed envelope for end-to-end integrity. The sender signs
/// SHA-512(recipient_id || payload_hex || timestamp || message_id || is_dummy)
/// with its Ed25519 identity key; the recipient verifies before decrypting.
#[derive(Debug, Clone)]
pub struct SignedEnvelope {
    /// Recipient identity key hex.
    pub recipient_id: String,
    /// Encrypted payload hex.
    pub payload_hex: String,
    /// Sender's identity key hex.
    pub sender_id: String,
    /// Unix timestamp.
    pub timestamp: i64,
    /// Unique message ID.
    pub message_id: String,
    /// Ed25519 signature hex over the signing payload.
    pub signature_hex: String,
    /// Whether the payload is compressed.
    pub compressed: bool,
    /// Whether this is a cover-traffic packet.
    pub is_dummy: bool,
}

/// Envelope error.
#[derive(Debug, Clone, Copy, PartialEq, Eq, Structural)]
pub enum EnvelopeError {
    MalformedSignature,
    MalformedSenderKey,
    InvalidSenderKey,
    SignatureInvalid,
    Expired,
}

/// The bytes that are hashed into the signing payload.
pub open spec fn signing_input(e: SignedEnvelope) -> Seq<u8> {
    encode_utf8(e.recipient_id@) + encode_utf8(e.payload_hex@) + spec_u64_to_le_bytes(e.timestamp as u64)
        + encode_utf8(e.message_id@) + seq![if e.is_dummy { 1u8 } else { 0u8 }]
}

/// The cover-traffic flag is signed: two envelopes that differ only in
/// `is_dummy` have different signing inputs, so a relay cannot turn a real
/// message into a dummy one (or back) without breaking the signature.
pub proof fn lemma_dummy_flag_is_signed(e1: SignedEnvelope, e2: SignedEnvelope)
    requires
        e1.recipient_id@ == e2.recipient_id@,
        e1.payload_hex@ == e2.payload_hex@,
        e1.timestamp == e2.timestamp,
        e1.message_id@ == e2.message_id@,
        e1.is_dummy != e2.is_dummy,
    ensures
        signing_input(e1) != signing_input(e2),
{
    let a = signing_input(e1);
    let b = signing_input(e2);
    assert(a.len() == b.len());
    assert(a[a.len() - 1] != b[b.len() - 1]);
}

/// An envelope stamped `timestamp` is expired at `now` when the two differ
/// by more than five minutes, in either direction.
pub open spec fn envelope_expired(timestamp: i64, now: i64) -> bool {
    now - timestamp > MAX_ENVELOPE_AGE_SECS || timestamp - now > MAX_ENVELOPE_AGE_SECS
}

/// The outcome of verifying an envelope.
pub open spec fn envelope_check(e: SignedEnvelope) -> Result<(), EnvelopeError> {
    let sig = hex_decode_spec(encode_utf8(e.signature_hex@));
    let key = hex_decode_spec(encode_utf8(e.sender_id@));
    if sig is None {
        Err(EnvelopeError::MalformedSignature)
    } else if key is None {
        Err(EnvelopeError::MalformedSenderKey)
    } else if key->Some_0.len() != 32 || sig->Some_0.len() != 64 {
        Err(EnvelopeError::MalformedSignature)
    } else if !ed25519_key_valid(key->Some_0) {
        Err(EnvelopeError::InvalidSenderKey)
    } else if !ed25519_verify(key->Some_0, sha512(signing_input(e)), sig->Some_0) {
        Err(EnvelopeError::SignatureInvalid)
    } else {
        Ok(())
    }
}

fn copy_to_array_32(v: &Vec<u8>) -> (r: [u8; 32])
    requires
        v@.len() == 32,
    ensures
        r@ == v@,
{
    let mut out = [0u8; 32];
    let mut i: usize = 0;
    while i < 32
        invariant
            0 <= i <= 32,
            v@.len() == 32,
            forall|j: int| 0 <= j < i ==> out@[j] == v@[j],
        decreases 32 - i,
    {
        out[i] = v[i];
        i = i + 1;
    }
    assert(out@ =~= v@);
    out
}

fn copy_to_array_64(v: &Vec<u8>) -> (r: [u8; 64])
    requires
        v@.len() == 64,
    ensures
        r@ == v@,
{
    let mut out = [0u8; 64];
    let mut i: usize = 0;
    while i < 64
        invariant
            0 <= i <= 64,
            v@.len() == 64,
            forall|j: int| 0 <= j < i ==> out@[j] == v@[j],
        decreases 64 - i,
    {
        out[i] = v[i];
        i = i + 1;
    }
    assert(out@ =~= v@);
    out
}

impl SignedEnvelope {
    /// The canonical signing payload: SHA-512 of the signing input.
    pub fn signing_payload(&self) -> (r: Vec<u8>)
        ensures
            r@ == sha512(signing_input(*self)),
    {
        let mut input: Vec<u8> = Vec::new();
        append_bytes(&mut input, self.recipient_id.as_str().as_bytes());
        append_bytes(&mut input, self.payload_hex.as_str().as_bytes());
        let ts = vstd::bytes::u64_to_le_bytes(self.timestamp as u64);
        append_bytes(&mut input, ts.as_slice());
        append_bytes(&mut input, self.message_id.as_str().as_bytes());
        input.push(if self.is_dummy { 1u8 } else { 0u8 });
        assert(input@ =~= signing_input(*self));
        sha512_digest(input.as_slice())
    }

    /// Verifies the Ed25519 signature. Undecodable signature hex is
    /// `MalformedSignature`, undecodable sender hex `MalformedSenderKey`, a
    /// key that is not 32 bytes or a signature that is not 64 bytes
    /// `MalformedSignature`, a key that is not a curve point
    /// `InvalidSenderKey`, and a failing signature `SignatureInvalid`.
    pub fn verify(&self) -> (r: Result<(), EnvelopeError>)
        ensures
            r == envelope_check(*self),
    {
        let sig_bytes = match hex_decode(self.signature_hex.as_str().as_bytes()) {
            Some(b) => b,
            None => return Err(EnvelopeError::MalformedSignature),
        };
        let key_bytes = match hex_decode(self.sender_id.as_str().as_bytes()) {
            Some(b) => b,
            None => return Err(EnvelopeError::MalformedSenderKey),
        };
        if key_bytes.len() != 32 || sig_bytes.len() != 64 {
            return Err(EnvelopeError::MalformedSignature);
        }
        let key_array = copy_to_array_32(&key_bytes);
        let sig_array = copy_to_array_64(&sig_bytes);
        let payload = self.signing_payload();
        match ed25519_check(&key_array, payload.as_slice(), &sig_array) {
            None => Err(EnvelopeError::InvalidSenderKey),
            Some(true) => Ok(()),
            Some(false) => Err(EnvelopeError::SignatureInvalid),
        }
    }

    /// Whether the envelope's timestamp differs from `now` by more than five
    /// minutes.
    pub fn is_expired_at(&self, now: i64) -> (r: bool)
        requires
            -0x7fff_ffff_ffff_ffffi64 <= now - self.timestamp <= 0x7fff_ffff_ffff_ffffi64,
        ensures
            r == envelope_expired(self.timestamp, now),
    {
        let d = now - self.timestamp;
        let a = if d < 0 { -d } else { d };
        a > MAX_ENVELOPE_AGE_SECS
    }

    /// Whether the envelope is more than five minutes off the current time.
    pub fn is_expired(&self) -> (r: bool)
        requires
            -0x7fff_ffff_ffff_ffffi64 + 10_000_000_000_000i64 <= self.timestamp,
        ensures
            exists|now: i64| 0 <= now < 10_000_000_000_000i64 && r == #[trigger] envelope_expired(self.timestamp, now),
    {
        let now = utc_now_timestamp();
        self.is_expired_at(now)
    }
}

} // verus!
