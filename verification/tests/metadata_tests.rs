use ed25519_dalek::{Signer, SigningKey};
use sha2::{Digest, Sha512};
use sibna_core::metadata::{
    pad_payload, random_jitter_ms, unpad_payload, EnvelopeError, PaddingError, SignedEnvelope, MAX_JITTER_MS,
    PADDING_BLOCK_SIZE,
};

#[test]
fn test_padding_roundtrip_small() {
    let payload = b"Hello Sibna!";
    let padded = pad_payload(payload).expect("pad small");
    assert!(padded.len() >= PADDING_BLOCK_SIZE);
    assert!(padded.len() <= 8 * PADDING_BLOCK_SIZE);
    assert_eq!(padded.len() % PADDING_BLOCK_SIZE, 0);
    let unpadded = unpad_payload(&padded).unwrap();
    assert_eq!(unpadded, payload);
}

#[test]
fn test_padding_roundtrip_large() {
    let payload = vec![0xABu8; 1025];
    let padded = pad_payload(&payload).expect("pad large");
    assert!(padded.len() >= 2 * PADDING_BLOCK_SIZE);
    assert!(padded.len() <= (2 + 7) * PADDING_BLOCK_SIZE);
    assert_eq!(padded.len() % PADDING_BLOCK_SIZE, 0);
    let unpadded = unpad_payload(&padded).unwrap();
    assert_eq!(unpadded, payload);
}

#[test]
fn test_padding_size_indistinguishable() {
    let small = b"Hi";
    let medium = vec![0u8; 800];
    let s = pad_payload(small).expect("a").len();
    let m = pad_payload(&medium).expect("b").len();
    assert!((PADDING_BLOCK_SIZE..=8 * PADDING_BLOCK_SIZE).contains(&s));
    assert!((PADDING_BLOCK_SIZE..=8 * PADDING_BLOCK_SIZE).contains(&m));
    assert_eq!(s % PADDING_BLOCK_SIZE, 0);
    assert_eq!(m % PADDING_BLOCK_SIZE, 0);
}

#[test]
fn test_jitter_range() {
    for _ in 0..100 {
        let j = random_jitter_ms();
        assert!(j <= MAX_JITTER_MS);
    }
}

// ── further cases ───────────────────────────────────────────────────────────

#[test]
fn unpad_rejects_garbage() {
    assert_eq!(unpad_payload(&[]), Err(PaddingError::InvalidPadding));
    assert_eq!(unpad_payload(&[1, 2, 3]), Err(PaddingError::InvalidPadding));
}

#[test]
fn empty_payload_roundtrips() {
    let padded = pad_payload(&[]).unwrap();
    assert_eq!(padded.len() % PADDING_BLOCK_SIZE, 0);
    assert!(padded.len() >= PADDING_BLOCK_SIZE);
    assert_eq!(unpad_payload(&padded).unwrap(), Vec::<u8>::new());
}

fn envelope_signed_by(key: &SigningKey, timestamp: i64) -> SignedEnvelope {
    let mut env = SignedEnvelope {
        recipient_id: "ab".repeat(32),
        payload_hex: "deadbeef".to_string(),
        sender_id: hex::encode(key.verifying_key().to_bytes()),
        timestamp,
        message_id: "msg-1".to_string(),
        signature_hex: String::new(),
        compressed: false,
        is_dummy: false,
    };
    let payload = env.signing_payload();
    env.signature_hex = hex::encode(key.sign(&payload).to_bytes());
    env
}

#[test]
fn signing_payload_is_sha512_of_fields() {
    let key = SigningKey::from_bytes(&[7u8; 32]);
    let env = envelope_signed_by(&key, 1_700_000_000);
    let mut h = Sha512::new();
    h.update(env.recipient_id.as_bytes());
    h.update(env.payload_hex.as_bytes());
    h.update(1_700_000_000i64.to_le_bytes());
    h.update(env.message_id.as_bytes());
    h.update([0u8]);
    assert_eq!(env.signing_payload(), h.finalize().to_vec());
}

#[test]
fn envelope_verify_accepts_and_rejects() {
    let key = SigningKey::from_bytes(&[9u8; 32]);
    let env = envelope_signed_by(&key, 1_700_000_000);
    assert_eq!(env.verify(), Ok(()));

    let mut tampered = env.clone();
    tampered.payload_hex = "deadbeee".to_string();
    assert_eq!(tampered.verify(), Err(EnvelopeError::SignatureInvalid));

    let mut dummy_flag = env.clone();
    dummy_flag.is_dummy = true;
    assert_eq!(dummy_flag.verify(), Err(EnvelopeError::SignatureInvalid));

    let mut bad_sig = env.clone();
    bad_sig.signature_hex = "zz".to_string();
    assert_eq!(bad_sig.verify(), Err(EnvelopeError::MalformedSignature));

    let mut short_sig = env.clone();
    short_sig.signature_hex = "abcd".to_string();
    assert_eq!(short_sig.verify(), Err(EnvelopeError::MalformedSignature));

    let mut bad_key = env.clone();
    bad_key.sender_id = "not hex".to_string();
    assert_eq!(bad_key.verify(), Err(EnvelopeError::MalformedSenderKey));

    let mut short_key = env.clone();
    short_key.sender_id = "0011".to_string();
    assert_eq!(short_key.verify(), Err(EnvelopeError::MalformedSignature));
}

#[test]
fn envelope_expiry_window() {
    let key = SigningKey::from_bytes(&[1u8; 32]);
    let env = envelope_signed_by(&key, 1_000_000);
    assert!(!env.is_expired_at(1_000_000));
    assert!(!env.is_expired_at(1_000_300));
    assert!(env.is_expired_at(1_000_301));
    assert!(!env.is_expired_at(999_700));
    assert!(env.is_expired_at(999_699));
    assert!(env.is_expired());
    let now = std::time::SystemTime::now().duration_since(std::time::UNIX_EPOCH).unwrap().as_secs() as i64;
    let fresh = envelope_signed_by(&key, now);
    assert!(!fresh.is_expired());
}
