use sibna_core::error::{CryptoError, ProtocolError};
use sibna_core::padding::{pad_message, pad_message_from, unpad_message, PaddingMode};
use sibna_core::random::SecureRandom;

#[test]
fn test_pad_unpad_roundtrip() {
    let msg = b"Hello, Sibna!";
    for mode in [PaddingMode::Small, PaddingMode::Standard, PaddingMode::Large, PaddingMode::Quantum] {
        let padded = pad_message(msg, mode).unwrap();
        // Padded size must be exact multiple of block
        assert_eq!(padded.len() % mode.block_size(), 0, "not aligned: {mode:?}");
        // Must recover the plaintext
        let recovered = unpad_message(&padded).unwrap();
        assert_eq!(recovered, msg, "roundtrip failed for {mode:?}");
    }
}

#[test]
fn test_padding_hides_size() {
    let mode = PaddingMode::Standard;
    let msg1 = b"Short";
    let msg2 = b"A bit longer message";

    let padded1 = pad_message(msg1, mode).unwrap();
    let padded2 = pad_message(msg2, mode).unwrap();

    assert_eq!(padded1.len() % mode.block_size(), 0);
    assert_eq!(padded2.len() % mode.block_size(), 0);
    assert!(padded1.len() >= 1024);
    assert!(padded2.len() >= 1024);
    assert!(padded1.len() <= 1024 + 7 * 1024);
    assert!(padded2.len() <= 1024 + 7 * 1024);

    assert_eq!(unpad_message(&padded1).unwrap(), msg1);
    assert_eq!(unpad_message(&padded2).unwrap(), msg2);
}

#[test]
fn test_prefix_noise_randomness() {
    let msg = b"Same message";
    let mode = PaddingMode::Standard;

    let padded1 = pad_message(msg, mode).unwrap();
    let padded2 = pad_message(msg, mode).unwrap();

    assert_ne!(padded1, padded2);
}

#[test]
fn test_padding_size_distribution_not_constant() {
    let mode = PaddingMode::Standard;
    let msg = b"constant-size message";
    let mut sizes = std::collections::HashSet::new();
    for _ in 0..64 {
        let p = pad_message(msg, mode).unwrap();
        sizes.insert(p.len());
    }
    assert!(sizes.len() >= 2,
        "padded size for fixed plaintext is constant across 64 trials; only saw sizes {:?}. \
         Expected at least 2 distinct sizes.",
        sizes);
    for s in &sizes {
        assert_eq!(s % mode.block_size(), 0);
    }
}

// ── further cases ───────────────────────────────────────────────────────────

#[test]
fn no_padding_returns_plaintext_unchanged() {
    let msg = b"exact size shows";
    assert_eq!(pad_message(msg, PaddingMode::NoPadding).unwrap(), msg.to_vec());
    assert!(!PaddingMode::NoPadding.is_enabled());
    assert!(PaddingMode::Small.is_enabled());
}

#[test]
fn block_sizes_of_modes() {
    assert_eq!(PaddingMode::NoPadding.block_size(), 1);
    assert_eq!(PaddingMode::Small.block_size(), 256);
    assert_eq!(PaddingMode::Standard.block_size(), 1024);
    assert_eq!(PaddingMode::Large.block_size(), 4096);
    assert_eq!(PaddingMode::Maximum.block_size(), 16384);
    assert_eq!(PaddingMode::Quantum.block_size(), 65536);
    assert_eq!(PaddingMode::Custom(128).block_size(), 128);
}

#[test]
fn quantum_padding_is_one_block() {
    let msg1 = b"Short message";
    let msg2 = vec![0x42u8; 10000];
    let padded1 = pad_message(msg1, PaddingMode::Quantum).unwrap();
    let padded2 = pad_message(&msg2, PaddingMode::Quantum).unwrap();
    assert_eq!(padded1.len(), 65536);
    assert_eq!(padded2.len(), 65536);
}

#[test]
fn custom_block_size_must_be_power_of_two_of_at_least_64() {
    for bad in [0usize, 32, 100, 1000] {
        assert!(pad_message(b"x", PaddingMode::Custom(bad)).is_err(), "accepted {bad}");
    }
    let padded = pad_message(b"x", PaddingMode::Custom(64)).unwrap();
    assert_eq!(padded.len() % 64, 0);
    assert_eq!(unpad_message(&padded).unwrap(), b"x");
}

#[test]
fn empty_plaintext_pads_to_a_block() {
    let padded = pad_message(b"", PaddingMode::Small).unwrap();
    assert!(padded.len() >= 256);
    assert_eq!(padded.len() % 256, 0);
    assert_eq!(unpad_message(&padded).unwrap(), Vec::<u8>::new());
}

#[test]
fn unpad_rejects_malformed_input() {
    // Too short.
    assert!(unpad_message(&[1, 0, 0]).is_err());
    // Prefix length 0 and 9 are out of range.
    assert!(unpad_message(&[0, 0, 0, 0]).is_err());
    assert!(unpad_message(&[9, 0, 0, 0, 0, 0, 0, 0, 0, 0, 0, 0, 0, 0]).is_err());
    // Padding length larger than the buffer.
    assert!(unpad_message(&[1, 7, 0xFF, 0xFF]).is_err());
}

#[test]
fn unpad_reads_the_layout() {
    // prefix_len 2, noise [9, 9], plaintext "ab", padding [0, 0, 0], length 3.
    let buf = [2u8, 9, 9, b'a', b'b', 0, 0, 0, 3, 0];
    assert_eq!(unpad_message(&buf).unwrap(), b"ab");
}

#[test]
fn padding_without_a_generator_is_an_internal_error() {
    assert_eq!(
        pad_message_from(b"x", PaddingMode::Standard, Err(CryptoError::RandomFailed)),
        Err(ProtocolError::InternalError)
    );
    assert_eq!(
        pad_message_from(b"x", PaddingMode::Custom(100), SecureRandom::new()),
        Err(ProtocolError::InvalidArgument)
    );
    let p = pad_message_from(b"x", PaddingMode::Small, SecureRandom::new()).unwrap();
    assert_eq!(unpad_message(&p).unwrap(), b"x");
}
