use sibna_core::error::CryptoError;
use sibna_core::secure_compare::secure_password_compare;
use sibna_core::random::{mix_process_id, alphanumeric_from, apply_swaps, mix_clock_into_pool, range_candidate, check_entropy, entropy_verdict, random_alphanumeric, random_bytes, random_u64,
    random_vec, shuffle, SecureRandom};

#[test]
fn test_secure_random_creation() {
    assert!(SecureRandom::new().is_ok());
}

#[test]
fn test_fill_bytes() {
    let mut rng = SecureRandom::new().unwrap();
    let mut buf = [0u8; 32];
    rng.fill_bytes(&mut buf);
    assert!(!buf.iter().all(|&b| b == 0));
}

#[test]
fn test_random_uniqueness() {
    let mut rng = SecureRandom::new().unwrap();
    let mut buf1 = [0u8; 32];
    let mut buf2 = [0u8; 32];
    rng.fill_bytes(&mut buf1);
    rng.fill_bytes(&mut buf2);
    assert_ne!(buf1, buf2);
}

#[test]
fn test_check_entropy() {
    assert!(check_entropy().is_ok());
}

// ── further cases ───────────────────────────────────────────────────────────

#[test]
fn byte_count_and_reseed_threshold() {
    let mut rng = SecureRandom::new().unwrap();
    assert_eq!(rng.bytes_generated(), 0);
    let _ = rng.next_u64();
    assert_eq!(rng.bytes_generated(), 8);
    let _ = rng.next_u32();
    assert_eq!(rng.bytes_generated(), 12);
    let v = rng.gen_bytes(20);
    assert_eq!(v.len(), 20);
    assert_eq!(rng.bytes_generated(), 32);
    assert!(!rng.needs_reseed());
    rng.zeroize();
    assert_eq!(rng.bytes_generated(), 0);
}

#[test]
fn large_request_is_expanded_in_chunks() {
    let mut rng = SecureRandom::new().unwrap();
    let mut buf = vec![0u8; 20000];
    rng.fill_bytes(&mut buf);
    // Every chunk of 8000 bytes is filled.
    assert!(!buf[..8000].iter().all(|&b| b == 0));
    assert!(!buf[8000..16000].iter().all(|&b| b == 0));
    assert!(!buf[16000..].iter().all(|&b| b == 0));
}

#[test]
fn gen_range_stays_below_bound() {
    let mut rng = SecureRandom::new().unwrap();
    assert_eq!(rng.gen_range(0), 0);
    for max in [1u64, 2, 3, 7, 62, 1000] {
        for _ in 0..50 {
            assert!(rng.gen_range(max) < max);
        }
    }
}

#[test]
fn free_functions_fill_requested_sizes() {
    let mut buf = [0u8; 16];
    random_bytes(&mut buf);
    assert!(!buf.iter().all(|&b| b == 0));
    assert_eq!(random_vec(48).len(), 48);
    let a = random_u64();
    let b = random_u64();
    assert_ne!(a, b);
}

#[test]
fn shuffle_is_a_permutation() {
    let mut v: Vec<u32> = (0..100).collect();
    shuffle(&mut v);
    let mut sorted = v.clone();
    sorted.sort();
    assert_eq!(sorted, (0..100).collect::<Vec<u32>>());
    let mut one = [5u8];
    shuffle(&mut one);
    assert_eq!(one, [5u8]);
}

#[test]
fn alphanumeric_strings() {
    let s = random_alphanumeric(40);
    assert_eq!(s.len(), 40);
    assert!(s.chars().all(|c| c.is_ascii_alphanumeric()));
    assert_eq!(random_alphanumeric(0), "");
}

#[test]
fn entropy_verdict_on_fixed_samples() {
    assert!(entropy_verdict(&[0u8; 32]).is_err());
    let mut seven = [0u8; 32];
    for (i, b) in seven.iter_mut().enumerate() {
        *b = (i % 7) as u8 + 1;
    }
    assert!(entropy_verdict(&seven).is_err());
    let mut eight = [0u8; 32];
    for (i, b) in eight.iter_mut().enumerate() {
        *b = (i % 8) as u8;
    }
    assert!(entropy_verdict(&eight).is_ok());
}

#[test]
fn clone_keeps_the_byte_count() {
    let mut rng = SecureRandom::new().unwrap();
    let _ = rng.gen_bytes(10);
    let copy = rng.clone();
    assert_eq!(copy.bytes_generated(), 10);
}

#[test]
fn mixing_the_clock_into_the_pool() {
    let os = [0xAAu8; 64];
    let nanos: u128 = 0x0102_0304_0506_0708_090A_0B0C_0D0E_0F10;
    let pool = mix_clock_into_pool(os, nanos).unwrap();
    let le = nanos.to_le_bytes();
    for i in 0..64 {
        let expected = if (4..20).contains(&i) { 0xAA ^ le[i - 4] } else { 0xAA };
        assert_eq!(pool[i], expected);
    }
    assert!(mix_clock_into_pool([0u8; 64], 0).is_none());
}

#[test]
fn range_candidates_use_the_power_of_two_mask() {
    assert_eq!(range_candidate(0xFF, 62), None);
    assert_eq!(range_candidate(0x3D, 62), Some(61));
    assert_eq!(range_candidate(0x13E, 62), None);
    assert_eq!(range_candidate(0x125, 62), Some(0x25));
    assert_eq!(range_candidate(7, 8), Some(7));
    assert_eq!(range_candidate(u64::MAX, 1), Some(0));
}

#[test]
fn fisher_yates_swaps_follow_the_draws() {
    let mut v = [10, 20, 30, 40];
    // position 3 <-> 0, then 2 <-> 2, then 1 <-> 0
    apply_swaps(&mut v, &[0, 0, 2, 0]);
    assert_eq!(v, [20, 40, 30, 10]);
}

#[test]
fn alphanumeric_fallback_without_generator() {
    assert_eq!(alphanumeric_from(Err(CryptoError::RandomFailed), 5), "00000");
    let s = alphanumeric_from(SecureRandom::new(), 12);
    assert_eq!(s.len(), 12);
    assert!(s.chars().all(|c| c.is_ascii_alphanumeric()));
}

#[test]
fn password_compare_reads_past_a_shorter_input() {
    assert!(!secure_password_compare(&[1, 2, 3, 0], &[1, 2, 3]));
    assert!(!secure_password_compare(&[], &[0]));
    assert!(secure_password_compare(&[], &[]));
}

#[test]
fn process_id_is_mixed_into_the_first_bytes() {
    let out = mix_process_id([0x0Fu8; 64], 0x0403_0201);
    assert_eq!(&out[..4], &[0x0E, 0x0D, 0x0C, 0x0B]);
    assert!(out[4..].iter().all(|&b| b == 0x0F));
    let mut g = SecureRandom::with_process_id(4242).unwrap();
    assert_eq!(g.bytes_generated(), 0);
    let _ = g.next_u64();
    assert_eq!(g.bytes_generated(), 8);
}
