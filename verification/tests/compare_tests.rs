use hmac::{Hmac, Mac};
use sibna_core::secure_compare::{batch_constant_time_compare, constant_time_contains, constant_time_copy,
    constant_time_eq, constant_time_eq_16, constant_time_eq_32, constant_time_eq_48, constant_time_eq_64,
    constant_time_is_zero, constant_time_memcmp, constant_time_select, secure_password_compare, secure_zero,
    verify_hmac};

#[test]
fn eq_and_neq() {
    assert!(constant_time_eq(&[1, 2, 3], &[1, 2, 3]));
    assert!(!constant_time_eq(&[1, 2, 3], &[1, 2, 4]));
}

#[test]
fn eq_length_mismatch_no_panic() {
    assert!(!constant_time_eq(&[1, 2, 3], &[1, 2]));
    assert!(!constant_time_eq(&[], &[1]));
}

#[test]
fn password_compare_length_mismatch() {
    assert!(!secure_password_compare(&[1, 2, 3], &[1, 2]));
    assert!(secure_password_compare(&[1, 2, 3], &[1, 2, 3]));
    assert!(!secure_password_compare(&[1, 2, 3], &[1, 2, 4]));
}

#[test]
fn constant_time_copy_length_mismatch() {
    let mut dst = [0u8; 3];
    assert!(!constant_time_copy(true, &mut dst, &[1, 2]));
    assert_eq!(dst, [0u8; 3]);
}

#[test]
fn constant_time_copy_works() {
    let mut dst = [0u8; 3];
    assert!(constant_time_copy(true, &mut dst, &[1, 2, 3]));
    assert_eq!(dst, [1, 2, 3]);
    assert!(constant_time_copy(false, &mut dst, &[9, 9, 9]));
    assert_eq!(dst, [1, 2, 3]);
}

#[test]
fn is_zero_no_alloc() {
    assert!(constant_time_is_zero(&[0, 0, 0, 0, 0, 0, 0, 0]));
    assert!(constant_time_is_zero(&[]));
    assert!(!constant_time_is_zero(&[0, 0, 1, 0]));
}

#[test]
fn batch_compare() {
    let candidates: &[&[u8]] = &[b"wrong", b"secret", b"other"];
    assert_eq!(batch_constant_time_compare(b"secret", candidates), Some(1));
    assert_eq!(batch_constant_time_compare(b"missing", candidates), None);
}

#[test]
fn batch_compare_length_mismatch() {
    let candidates: &[&[u8]] = &[b"short", b"longer", b"shr"];
    assert_eq!(batch_constant_time_compare(b"shr", candidates), Some(2));
}

// ── further cases ───────────────────────────────────────────────────────────

#[test]
fn fixed_size_equalities() {
    assert!(constant_time_eq_16(&[7u8; 16], &[7u8; 16]));
    assert!(!constant_time_eq_16(&[7u8; 16], &[8u8; 16]));
    assert!(constant_time_eq_32(&[1u8; 32], &[1u8; 32]));
    let mut b = [1u8; 32];
    b[31] = 2;
    assert!(!constant_time_eq_32(&[1u8; 32], &b));
    assert!(constant_time_eq_48(&[3u8; 48], &[3u8; 48]));
    assert!(constant_time_eq_64(&[4u8; 64], &[4u8; 64]));
    assert!(!constant_time_eq_64(&[4u8; 64], &[5u8; 64]));
}

#[test]
fn select_contains_memcmp() {
    assert_eq!(constant_time_select(true, 13, 42), 13);
    assert_eq!(constant_time_select(false, 13, 42), 42);
    assert!(constant_time_contains(&[1, 2, 3], 2));
    assert!(!constant_time_contains(&[1, 2, 3], 9));
    assert!(!constant_time_contains(&[], 0));
    assert_eq!(constant_time_memcmp(&[1, 2], &[1, 2]), 0);
    assert_eq!(constant_time_memcmp(&[1, 2], &[1, 3]), 1);
    assert_eq!(constant_time_memcmp(&[1, 2], &[1]), -1);
}

#[test]
fn batch_compare_reports_first_match() {
    let candidates: &[&[u8]] = &[b"dup", b"x", b"dup"];
    assert_eq!(batch_constant_time_compare(b"dup", candidates), Some(0));
    let none: &[&[u8]] = &[];
    assert_eq!(batch_constant_time_compare(b"dup", none), None);
}

#[test]
fn zeroing_and_hmac() {
    let mut buf = [9u8; 10];
    secure_zero(&mut buf);
    assert_eq!(buf, [0u8; 10]);

    let mut h = <Hmac<sha2::Sha256> as Mac>::new_from_slice(b"key").unwrap();
    h.update(b"data");
    let tag = h.finalize().into_bytes();
    assert!(verify_hmac(b"key", b"data", &tag));
    assert!(!verify_hmac(b"key", b"other", &tag));
    assert!(!verify_hmac(b"key", b"data", &tag[..31]));
    assert!(!verify_hmac(b"key", b"data", b"key"));
}
