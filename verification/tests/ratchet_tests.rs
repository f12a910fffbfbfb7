use chacha20poly1305::aead::Aead;
use chacha20poly1305::{ChaCha20Poly1305, KeyInit};
use ed25519_dalek::{Signer, SigningKey};
use hkdf::Hkdf;
use sibna_core::relay::{plan_webrtc, WebRtcSignal};
use sibna_core::error::ProtocolError;
use sibna_core::ratchet::chain::ChainKey;
use sibna_core::ratchet::session_key_schedule;
use sibna_core::ratchet::{RatchetHeader, RatchetMessage, SkippedMessageKey, ENCRYPTED_HEADER_SIZE, HEADER_SIZE};

fn header(ts: u64) -> RatchetHeader {
    RatchetHeader { dh_public: [7u8; 32], message_number: 5, previous_chain_length: 3, timestamp: ts }
}

fn same(a: &RatchetHeader, b: &RatchetHeader) -> bool {
    a.dh_public == b.dh_public
        && a.message_number == b.message_number
        && a.previous_chain_length == b.previous_chain_length
        && a.timestamp == b.timestamp
}

#[test]
fn header_bytes_layout_and_roundtrip() {
    let h = header(1_700_000_000);
    let b = h.to_bytes();
    assert_eq!(b.len(), HEADER_SIZE);
    assert_eq!(&b[0..32], &[7u8; 32]);
    assert_eq!(&b[32..40], &5u64.to_le_bytes());
    assert_eq!(&b[40..48], &3u64.to_le_bytes());
    assert_eq!(&b[48..56], &1_700_000_000u64.to_le_bytes());
    let back = RatchetHeader::from_bytes(&b).unwrap();
    assert!(same(&h, &back));
    assert_eq!(RatchetHeader::from_bytes(&b[..55]).unwrap_err(), ProtocolError::InvalidMessage);
}

#[test]
fn header_validation_rules() {
    let now = 1_700_000_000u64;
    assert_eq!(header(now).validate_at(now), Ok(()));
    let mut zero = header(now);
    zero.dh_public = [0u8; 32];
    assert_eq!(zero.validate_at(now), Err(ProtocolError::InvalidMessage));
    let mut big = header(now);
    big.message_number = 1_000_000_000_001;
    assert_eq!(big.validate_at(now), Err(ProtocolError::InvalidMessage));
    assert_eq!(header(now + 300).validate_at(now), Ok(()));
    assert_eq!(header(now + 301).validate_at(now), Err(ProtocolError::InvalidMessage));
    assert_eq!(header(now - 86_400).validate_at(now), Ok(()));
    assert_eq!(header(now - 86_401).validate_at(now), Err(ProtocolError::MessageTooOld));
    assert_eq!(header(0).validate_at(now), Err(ProtocolError::MessageTooOld));
    assert_eq!(header(0).validate(), Err(ProtocolError::MessageTooOld));
}

#[test]
fn encrypted_header_roundtrip_and_tamper() {
    let key = [9u8; 32];
    let h = header(1_700_000_000);
    let enc = h.encrypt(&key).unwrap();
    assert_eq!(enc.len(), ENCRYPTED_HEADER_SIZE);
    let back = RatchetHeader::decrypt(&enc, &key).unwrap();
    assert!(same(&h, &back));
    assert_eq!(RatchetHeader::decrypt(&enc, &[8u8; 32]).unwrap_err(), ProtocolError::DecryptionFailed);
    let mut bad = enc.clone();
    bad[20] ^= 1;
    assert_eq!(RatchetHeader::decrypt(&bad, &key).unwrap_err(), ProtocolError::DecryptionFailed);
    assert_eq!(RatchetHeader::decrypt(&enc[..27], &key).unwrap_err(), ProtocolError::InvalidMessage);
    let fixed = h.encrypt_with_nonce(&key, &[1u8; 12]).unwrap();
    assert_eq!(&fixed[..12], &[1u8; 12]);
    assert_eq!(fixed, h.encrypt_with_nonce(&key, &[1u8; 12]).unwrap());
    assert_ne!(fixed, h.encrypt_with_nonce(&key, &[2u8; 12]).unwrap());
}

#[test]
fn message_wire_formats_roundtrip() {
    let key = [3u8; 32];
    let msg = RatchetMessage { header: header(42), ciphertext: vec![0x5Au8; 40] };
    let plain = msg.to_bytes();
    assert_eq!(plain.len(), msg.size());
    assert_eq!(plain.len(), HEADER_SIZE + 40);
    let back = RatchetMessage::from_bytes(&plain).unwrap();
    assert!(same(&back.header, &msg.header));
    assert_eq!(back.ciphertext, msg.ciphertext);
    assert_eq!(RatchetMessage::from_bytes(&plain[..84]).unwrap_err(), ProtocolError::InvalidMessage);

    let enc = msg.to_bytes_encrypted(&key).unwrap();
    assert_eq!(enc.len(), ENCRYPTED_HEADER_SIZE + 40);
    assert!(RatchetMessage::is_encrypted_header(&enc));
    assert!(!RatchetMessage::is_encrypted_header(&enc[..112]));
    let back = RatchetMessage::from_bytes_encrypted(&enc, &key).unwrap();
    assert!(same(&back.header, &msg.header));
    assert_eq!(back.ciphertext, msg.ciphertext);
    assert_eq!(RatchetMessage::from_bytes_encrypted(&enc[..112], &key).unwrap_err(), ProtocolError::InvalidMessage);
    assert_eq!(
        RatchetMessage::from_bytes_encrypted(&enc, &[4u8; 32]).unwrap_err(),
        ProtocolError::DecryptionFailed
    );
}

#[test]
fn skipped_key_expiry() {
    let mut k = SkippedMessageKey::new([1u8; 32], 9);
    assert_eq!(k.message_number, 9);
    assert!(!k.is_expired());
    k.created_at = 1_000;
    assert!(!k.is_expired_at(1_000 + 86_400));
    assert!(k.is_expired_at(1_000 + 86_401));
}

#[test]
fn session_key_schedule_splits_one_hkdf_expansion() {
    assert_eq!(session_key_schedule(&[0u8; 32]).unwrap_err(), ProtocolError::InvalidArgument);
    let secret = [0x5Cu8; 32];
    let (root, chain) = session_key_schedule(&secret).unwrap();
    let mut okm = [0u8; 64];
    Hkdf::<sha2::Sha256>::new(Some(b"SibnaSession_v3"), &secret)
        .expand(b"SibnaRootAndChainKey_v3", &mut okm)
        .unwrap();
    assert_eq!(root, okm[..32]);
    assert_eq!(chain, okm[32..]);
}

#[test]
fn encrypted_wire_length_and_constructors_with_time() {
    let msg = RatchetMessage { header: header(42), ciphertext: vec![1u8; 29] };
    let w = msg.to_bytes_encrypted(&[6u8; 32]).unwrap();
    assert_eq!(w.len(), 84 + 29);
    let w2 = msg.to_bytes_encrypted_with_nonce(&[6u8; 32], &[0u8; 12]).unwrap();
    assert_eq!(w2.len(), 84 + 29);
    let k = SkippedMessageKey::new_at([1u8; 32], 4, 1234);
    assert_eq!(k.created_at, 1234);
    assert_eq!(k.message_number, 4);
    let c = ChainKey::new_at([2u8; 32], 777);
    assert_eq!(c.created_at, 777);
    assert_eq!(c.index(), 0);
    assert_eq!(c.max_messages, ChainKey::DEFAULT_MAX_MESSAGES);
}

#[test]
fn header_decrypts_from_a_longer_sealed_plaintext() {
    let key = [7u8; 32];
    let nonce = [3u8; 12];
    let h = header(99);
    let mut plain = h.to_bytes();
    plain.extend_from_slice(&[0xEE; 8]);
    let sealed = ChaCha20Poly1305::new((&key).into()).encrypt((&nonce).into(), plain.as_slice()).unwrap();
    let mut data = nonce.to_vec();
    data.extend_from_slice(&sealed);
    let back = RatchetHeader::decrypt(&data, &key).unwrap();
    assert!(same(&h, &back));
}

#[test]
fn webrtc_signal_that_passes_both_checks_is_accepted() {
    let k = SigningKey::from_bytes(&[8u8; 32]);
    let rid = "12".repeat(32);
    let sig = k.sign(format!("{}{}", rid, "ab").as_bytes());
    let s = WebRtcSignal { recipient_id: rid, payload_hex: "ab".to_string(), signature_hex: hex::encode(sig.to_bytes()), timestamp: 0 };
    let out = plan_webrtc(&hex::encode(k.verifying_key().to_bytes()), s, 55).unwrap();
    assert_eq!(out.timestamp, 55);
}
