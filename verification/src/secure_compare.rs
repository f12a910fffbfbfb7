//! Constant-time comparison primitives.

use vstd::prelude::*;
use crate::backend::{ct_eq_bytes, ct_eq_byte, ct_assign_u8, ct_assign_u32, ct_and, ct_or, ct_not,
    zeroize_slice, hmac_sha256, hmac_sha256_tag};

verus! {

/// Equality of two byte slices; different lengths compare unequal.
pub fn constant_time_eq(a: &[u8], b: &[u8]) -> (r: bool)
    ensures
        r == (a@ == b@),
{
    if a.len() != b.len() {
        return false;
    }
    ct_eq_bytes(a, b)
}

/// Equality of two 32-byte arrays.
pub fn constant_time_eq_32(a: &[u8; 32], b: &[u8; 32]) -> (r: bool)
    ensures
        r == (a@ == b@),
{
    ct_eq_bytes(a, b)
}

/// Equality of two 64-byte arrays.
pub fn constant_time_eq_64(a: &[u8; 64], b: &[u8; 64]) -> (r: bool)
    ensures
        r == (a@ == b@),
{
    ct_eq_bytes(a, b)
}

/// Equality of two 16-byte arrays.
pub fn constant_time_eq_16(a: &[u8; 16], b: &[u8; 16]) -> (r: bool)
    ensures
        r == (a@ == b@),
{
    ct_eq_bytes(a, b)
}

/// Equality of two 48-byte arrays.
pub fn constant_time_eq_48(a: &[u8; 48], b: &[u8; 48]) -> (r: bool)
    ensures
        r == (a@ == b@),
{
    ct_eq_bytes(a, b)
}

/// `a` when `condition` holds, `b` otherwise.
pub fn constant_time_select(condition: bool, a: u8, b: u8) -> (r: u8)
    ensures
        r == (if condition { a } else { b }),
{
    let mut val = b;
    val = ct_assign_u8(val, a, condition);
    val
}

/// If `condition` holds, copies `src` into `dst`; otherwise leaves `dst`
/// unchanged. With different lengths it returns false and leaves `dst`
/// untouched; otherwise it returns true.
pub fn constant_time_copy(condition: bool, dst: &mut [u8], src: &[u8]) -> (r: bool)
    ensures
        r == (old(dst)@.len() == src@.len()),
        r ==> final(dst)@ == (if condition { src@ } else { old(dst)@ }),
        !r ==> final(dst)@ == old(dst)@,
{
    if dst.len() != src.len() {
        return false;
    }
    let n = dst.len();
    let mut i: usize = 0;
    while i < n
        invariant
            0 <= i <= n,
            n == dst@.len(),
            n == src@.len(),
            forall|j: int| 0 <= j < i ==> dst@[j] == (if condition { src@[j] } else { old(dst)@[j] }),
            forall|j: int| i <= j < n ==> dst@[j] == old(dst)@[j],
        decreases n - i,
    {
        let d = dst[i];
        dst[i] = ct_assign_u8(d, src[i], condition);
        i = i + 1;
    }
    assert(dst@ =~= (if condition { src@ } else { old(dst)@ }));
    true
}

/// True if every byte of `slice` is zero.
pub fn constant_time_is_zero(slice: &[u8]) -> (r: bool)
    ensures
        r == (forall|i: int| 0 <= i < slice@.len() ==> slice@[i] == 0),
{
    let mut all_zero = true;
    let mut i: usize = 0;
    while i < slice.len()
        invariant
            0 <= i <= slice@.len(),
            all_zero == (forall|j: int| 0 <= j < i ==> slice@[j] == 0),
        decreases slice@.len() - i,
    {
        all_zero = ct_and(all_zero, ct_eq_byte(slice[i], 0));
        i = i + 1;
    }
    all_zero
}

/// True if `target` occurs in `slice`.
pub fn constant_time_contains(slice: &[u8], target: u8) -> (r: bool)
    ensures
        r == slice@.contains(target),
{
    let mut found = false;
    let mut i: usize = 0;
    while i < slice.len()
        invariant
            0 <= i <= slice@.len(),
            found == (exists|j: int| 0 <= j < i && slice@[j] == target),
        decreases slice@.len() - i,
    {
        found = ct_or(found, ct_eq_byte(slice[i], target));
        i = i + 1;
    }
    found
}

/// 0 if equal, 1 if not, -1 if the lengths differ.
pub fn constant_time_memcmp(a: &[u8], b: &[u8]) -> (r: i32)
    ensures
        r == (if a@.len() != b@.len() { -1i32 } else if a@ == b@ { 0i32 } else { 1i32 }),
{
    if a.len() != b.len() {
        return -1;
    }
    if ct_eq_bytes(a, b) {
        0
    } else {
        1
    }
}

/// Overwrites `memory` with zeros.
pub fn secure_zero(memory: &mut [u8])
    ensures
        final(memory)@ == Seq::new(old(memory)@.len(), |i: int| 0u8),
{
    zeroize_slice(memory);
}

/// Whether `mac` is the HMAC-SHA256 tag of `data` under `key`.
pub fn verify_hmac(key: &[u8], data: &[u8], mac: &[u8]) -> (r: bool)
    ensures
        r == (hmac_sha256(key@, data@) == mac@),
{
    let tag = hmac_sha256_tag(key, data);
    ct_eq_bytes(&tag, mac)
}

/// Compares two byte slices (KDF outputs such as two HMAC tags); different
/// lengths compare unequal. There is no early return on a length mismatch:
/// every byte of `a` is compared (against 0 past the end of `b`) and the
/// length check is folded in as a mask.
pub fn secure_password_compare(a: &[u8], b: &[u8]) -> (r: bool)
    ensures
        r == (a@ == b@),
{
    let same_len = a.len() == b.len();
    let mut acc = same_len;
    let mut i: usize = 0;
    while i < a.len()
        invariant
            0 <= i <= a@.len(),
            same_len == (a@.len() == b@.len()),
            acc == (same_len && forall|k: int| 0 <= k < i ==> a@[k] == b@[k]),
        decreases a@.len() - i,
    {
        let bi: u8 = if i < b.len() { b[i] } else { 0u8 };
        acc = ct_and(acc, ct_eq_byte(a[i], bi));
        i = i + 1;
    }
    proof {
        if acc {
            assert(a@ =~= b@);
        }
    }
    acc
}

/// The index of the first candidate equal to `value`, if any. The index is
/// kept as a `u32`, so it is reported modulo 2^32.
pub open spec fn first_match(value: Seq<u8>, candidates: Seq<&[u8]>) -> Option<usize> {
    if exists|i: int| 0 <= i < candidates.len() && candidates[i]@ == value {
        let i = choose|i: int| 0 <= i < candidates.len() && candidates[i]@ == value
            && forall|j: int| 0 <= j < i ==> candidates[j]@ != value;
        Some((i as u32) as usize)
    } else {
        None
    }
}

/// Finds the first candidate equal to `value`, reading every candidate.
pub fn batch_constant_time_compare(value: &[u8], candidates: &[&[u8]]) -> (r: Option<usize>)
    ensures
        r == first_match(value@, candidates@),
{
    let mut match_index: u32 = u32::MAX;
    let mut found = false;
    let ghost mut first: int = 0;
    let mut i: usize = 0;
    while i < candidates.len()
        invariant
            0 <= i <= candidates@.len(),
            found == (exists|j: int| 0 <= j < i && candidates@[j]@ == value@),
            found ==> 0 <= first < i && candidates@[first]@ == value@
                && (forall|j: int| 0 <= j < first ==> candidates@[j]@ != value@)
                && match_index == first as u32,
            !found ==> forall|j: int| 0 <= j < i ==> candidates@[j]@ != value@,
        decreases candidates@.len() - i,
    {
        let candidate: &[u8] = candidates[i];
        let is_match = if value.len() != candidate.len() {
            false
        } else {
            ct_eq_bytes(value, candidate)
        };
        let update = ct_and(ct_not(found), is_match);
        proof {
            if update {
                first = i as int;
            }
        }
        match_index = ct_assign_u32(match_index, i as u32, update);
        found = ct_or(found, is_match);
        i = i + 1;
    }
    if found {
        proof {
            let k = choose|k: int| 0 <= k < candidates@.len() && candidates@[k]@ == value@
                && forall|j: int| 0 <= j < k ==> candidates@[j]@ != value@;
            if k < first {
            } else if first < k {
            }
            assert(k == first);
        }
        Some(match_index as usize)
    } else {
        None
    }
}

/// Lexicographic order of byte sequences.
pub open spec fn lex_order(a: Seq<u8>, b: Seq<u8>) -> std::cmp::Ordering
    decreases a.len(),
{
    if a.len() == 0 {
        if b.len() == 0 { std::cmp::Ordering::Equal } else { std::cmp::Ordering::Less }
    } else if b.len() == 0 {
        std::cmp::Ordering::Greater
    } else if a[0] < b[0] {
        std::cmp::Ordering::Less
    } else if a[0] > b[0] {
        std::cmp::Ordering::Greater
    } else {
        lex_order(a.drop_first(), b.drop_first())
    }
}

/// Lexicographic ordering for non-sensitive data (such as deterministic role
/// assignment). Not constant-time: never use it on secrets.
pub(crate) fn lexicographic_order_non_sensitive(a: &[u8], b: &[u8]) -> (r: std::cmp::Ordering)
    ensures
        r == lex_order(a@, b@),
{
    let mut i: usize = 0;
    let ghost mut k: int = 0;
    assert(a@.skip(0) =~= a@);
    assert(b@.skip(0) =~= b@);
    while i < a.len() && i < b.len()
        invariant
            k == i,
            0 <= i <= a@.len(),
            i <= b@.len(),
            lex_order(a@, b@) == lex_order(a@.skip(k), b@.skip(k)),
        decreases a@.len() - i,
    {
        assert(a@.skip(k)[0] == a@[k]);
        assert(b@.skip(k)[0] == b@[k]);
        if a[i] < b[i] {
            return std::cmp::Ordering::Less;
        }
        if a[i] > b[i] {
            return std::cmp::Ordering::Greater;
        }
        assert(a@.skip(k).drop_first() =~= a@.skip(k + 1));
        assert(b@.skip(k).drop_first() =~= b@.skip(k + 1));
        i = i + 1;
        proof {
            k = k + 1;
        }
    }
    if a.len() == b.len() {
        std::cmp::Ordering::Equal
    } else if a.len() < b.len() {
        std::cmp::Ordering::Less
    } else {
        std::cmp::Ordering::Greater
    }
}

} // verus!
