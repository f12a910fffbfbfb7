use hmac::{Hmac, Mac};
use sha2::{Digest, Sha256};
use sibna_core::error::ProtocolError;
use sibna_core::storage::{SecureStorage, StorageManifest, MANIFEST_SIZE};

#[test]
fn manifest_encoding_matches_legacy_bincode() {
    let m = StorageManifest {
        version: 1,
        sequence_number: 0x0102_0304_0506_0708,
        blob_hash: [0x11u8; 32],
        manifest_mac: [0x22u8; 32],
    };
    let ours = SecureStorage::encode_manifest(&m);
    let theirs = bincode::serde::encode_to_vec(
        &(m.version, m.sequence_number, m.blob_hash, m.manifest_mac),
        bincode::config::legacy(),
    )
    .unwrap();
    assert_eq!(ours.len(), MANIFEST_SIZE);
    assert_eq!(ours, theirs);
    let back = SecureStorage::decode_manifest(&ours).unwrap();
    assert_eq!(back.version, m.version);
    assert_eq!(back.sequence_number, m.sequence_number);
    assert_eq!(back.blob_hash, m.blob_hash);
    assert_eq!(back.manifest_mac, m.manifest_mac);
    assert_eq!(
        SecureStorage::decode_manifest(&ours[..75]).unwrap_err(),
        ProtocolError::DeserializationError
    );
}

#[test]
fn manifest_mac_and_hash_are_the_real_primitives() {
    let key = [5u8; 32];
    let payload = b"encrypted payload bytes";
    let m = SecureStorage::build_manifest(&key, SecureStorage::CURRENT_VERSION, 7, payload);
    assert_eq!(m.version, 1);
    assert_eq!(m.sequence_number, 7);
    let hash: [u8; 32] = Sha256::digest(payload).into();
    assert_eq!(m.blob_hash, hash);
    let mut mac = <Hmac<Sha256> as Mac>::new_from_slice(&key).unwrap();
    mac.update(&1u32.to_le_bytes());
    mac.update(&7u64.to_le_bytes());
    mac.update(&hash);
    let tag: [u8; 32] = mac.finalize().into_bytes().into();
    assert_eq!(m.manifest_mac, tag);
}

#[test]
fn manifest_verification_detects_tampering() {
    let key = [5u8; 32];
    let payload = vec![1u8, 2, 3, 4];
    let m = SecureStorage::build_manifest(&key, 1, 3, &payload);
    assert_eq!(SecureStorage::verify_manifest(&m, &key, &payload), Ok(()));
    assert_eq!(SecureStorage::verify_manifest(&m, &[6u8; 32], &payload), Err(ProtocolError::StorageError));
    assert_eq!(SecureStorage::verify_manifest(&m, &key, &[1, 2, 3, 5]), Err(ProtocolError::StorageError));
    let mut rolled_back = m;
    rolled_back.sequence_number = 2;
    assert_eq!(SecureStorage::verify_manifest(&rolled_back, &key, &payload), Err(ProtocolError::StorageError));
}

#[test]
fn sequence_rollback_is_rejected() {
    let m = SecureStorage::build_manifest(&[0u8; 32], 1, 10, b"x");
    assert_eq!(SecureStorage::check_sequence(10, &m), Ok(()));
    assert_eq!(SecureStorage::check_sequence(11, &m), Ok(()));
    assert_eq!(SecureStorage::check_sequence(9, &m), Err(ProtocolError::StorageError));
}

#[test]
fn blob_frame_roundtrip_and_rejections() {
    let salt = [0x77u8; 32];
    let blob = SecureStorage::frame_blob(&salt, b"ciphertext");
    assert_eq!(&blob[..8], b"SIBNA001");
    assert_eq!(blob.len(), 8 + 32 + 10);
    let (s, e) = SecureStorage::parse_blob(&blob).unwrap();
    assert_eq!(s, salt);
    assert_eq!(e, b"ciphertext".to_vec());
    assert_eq!(SecureStorage::parse_blob(&blob[..39]).unwrap_err(), ProtocolError::StorageError);
    let mut wrong = blob.clone();
    wrong[0] = b'X';
    assert_eq!(SecureStorage::parse_blob(&wrong).unwrap_err(), ProtocolError::StorageError);
    let (_, empty) = SecureStorage::parse_blob(&blob[..40]).unwrap();
    assert!(empty.is_empty());
}
