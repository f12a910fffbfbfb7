use hmac::{Hmac, Mac};
use sibna_core::ratchet::chain::{ChainKey, CHAIN_KEY_SEED, HEADER_KEY_SEED, MESSAGE_KEY_SEED};
use sibna_core::ratchet::{RatchetConfig, MAX_SKIPPED_MESSAGES};

fn hmac_of(key: &[u8; 32], seed: u8) -> [u8; 32] {
    let mut h = <Hmac<sha2::Sha256> as Mac>::new_from_slice(key).unwrap();
    h.update(&[seed]);
    h.finalize().into_bytes().into()
}

#[test]
fn derivation_produces_distinct_keys() {
    let mut chain = ChainKey::new([0x42u8; 32]);
    let k0 = chain.next_message_key().unwrap();
    let k1 = chain.next_message_key().unwrap();
    let k2 = chain.next_message_key().unwrap();
    assert_ne!(k0, k1);
    assert_ne!(k1, k2);
    assert_eq!(chain.index(), 3);
}

#[test]
fn exhausted_chain_returns_none() {
    let mut chain = ChainKey::with_max_messages([0x01u8; 32], 2);
    assert!(chain.next_message_key().is_some());
    assert!(chain.next_message_key().is_some());
    assert!(chain.next_message_key().is_none());
}

#[test]
fn default_chain_meets_skipped_key_window() {
    assert!(
        ChainKey::DEFAULT_MAX_MESSAGES as usize >= MAX_SKIPPED_MESSAGES,
        "DEFAULT_MAX_MESSAGES ({}) must be >= MAX_SKIPPED_MESSAGES ({})",
        ChainKey::DEFAULT_MAX_MESSAGES,
        MAX_SKIPPED_MESSAGES,
    );

    let mut chain = ChainKey::new([0x33u8; 32]);
    let target = MAX_SKIPPED_MESSAGES as u64;
    let mut derived = 0u64;
    while derived < target {
        assert!(chain.next_message_key().is_some(), "default chain exhausted at {} (target {})", derived, target);
        derived += 1;
    }
    assert_eq!(derived, target);

    for _ in 0..16 {
        assert!(chain.next_message_key().is_some(), "chain must have headroom past MAX_SKIPPED_MESSAGES");
        derived += 1;
    }
    assert!(
        derived < ChainKey::DEFAULT_MAX_MESSAGES,
        "derived {} should still be < DEFAULT_MAX_MESSAGES {}",
        derived,
        ChainKey::DEFAULT_MAX_MESSAGES
    );

    while derived < ChainKey::DEFAULT_MAX_MESSAGES {
        assert!(chain.next_message_key().is_some());
        derived += 1;
    }
    assert_eq!(derived, ChainKey::DEFAULT_MAX_MESSAGES);
    assert!(
        chain.next_message_key().is_none(),
        "chain must not produce a key at index == DEFAULT_MAX_MESSAGES"
    );
}

// ── further cases ───────────────────────────────────────────────────────────

#[test]
fn message_and_chain_keys_are_hmacs_of_seeds() {
    let start = [0x42u8; 32];
    let mut chain = ChainKey::new(start);
    let mk = chain.next_message_key().unwrap();
    assert_eq!(mk, hmac_of(&start, MESSAGE_KEY_SEED));
    assert_eq!(chain.clone_key(), hmac_of(&start, CHAIN_KEY_SEED));
    assert_ne!(chain.clone_key(), start);
    assert_eq!(chain.derive_header_key().unwrap(), hmac_of(&chain.clone_key(), HEADER_KEY_SEED));
}

#[test]
fn exhausted_chain_is_left_unchanged() {
    let mut chain = ChainKey::with_max_messages([5u8; 32], 1);
    chain.next_message_key().unwrap();
    let key = chain.clone_key();
    assert!(chain.next_message_key().is_none());
    assert_eq!(chain.clone_key(), key);
    assert_eq!(chain.index(), 1);
    assert_eq!(chain.remaining_messages(), 0);
    assert!(chain.needs_rotation());
}

#[test]
fn rotation_by_age_and_count() {
    let mut chain = ChainKey::with_max_messages([5u8; 32], 10);
    chain.created_at = 1_000;
    assert_eq!(chain.age_secs_at(1_500), 500);
    assert_eq!(chain.age_secs_at(10), 0);
    assert!(!chain.needs_rotation_at(1_000 + 86_400));
    assert!(chain.needs_rotation_at(1_000 + 86_401));
    assert_eq!(chain.remaining_messages(), 10);
}

#[test]
fn zeroize_wipes_key_and_counters() {
    let mut chain = ChainKey::new([0xAAu8; 32]);
    chain.next_message_key().unwrap();
    chain.zeroize();
    assert_eq!(chain.clone_key(), [0u8; 32]);
    assert_eq!(chain.index(), 0);
    assert_eq!(chain.reserved_until, 0);
}

#[test]
fn default_ratchet_config() {
    let c = RatchetConfig::default();
    assert_eq!(c.max_skipped_messages, MAX_SKIPPED_MESSAGES);
    assert_eq!(c.max_chain_messages, 2 * MAX_SKIPPED_MESSAGES as u64);
    assert_eq!(c.message_key_max_age_secs, 86_400);
}

#[test]
fn reservation_moves_index_past_reserved_numbers() {
    let mut chain = ChainKey::new([1u8; 32]);
    chain.next_message_key().unwrap();
    chain.reserve_nonces(10);
    assert_eq!(chain.reserved_until, 11);
    assert_eq!(chain.index(), 1);
    assert!(chain.jump_to_reservation());
    assert_eq!(chain.index(), 11);
    assert!(!chain.jump_to_reservation());
    assert_eq!(chain.index(), 11);
    chain.reserve_nonces(u64::MAX);
    assert_eq!(chain.reserved_until, u64::MAX);
}
