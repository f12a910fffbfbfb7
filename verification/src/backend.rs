//! Specifications of the outside primitives the library builds on: the
//! operating-system and thread-local random sources, HKDF-SHA256, SHA-256,
//! SHA-512, HMAC-SHA256, ChaCha20-Poly1305, the constant-time operations of
//! `subtle`, zeroization, hexadecimal coding, Ed25519 verification, the
//! clocks, and a few integer and string helpers of `core` and `alloc` that
//! vstd leaves unspecified. Every item here is believed by Verus without
//! proof; each doc comment says what is claimed of the function it calls.

use vstd::prelude::*;
use rand_core::RngCore;
use hkdf::Hkdf;
use sha2::{Digest, Sha256};
use hmac::{Hmac, Mac};
use subtle::{Choice, ConditionallySelectable, ConstantTimeEq};
use chacha20poly1305::{aead::Aead, ChaCha20Poly1305, KeyInit};
use sha2::Sha512;
use ed25519_dalek::{Signature, Verifier, VerifyingKey};
use rand::Rng;

verus! {

// ---------------------------------------------------------------------------
// Operating-system randomness (rand_core::OsRng)
// ---------------------------------------------------------------------------

/// The operating-system random number generator of `rand_core`.
#[verifier::external_type_specification]
#[verifier::external_body]
pub struct ExOsRng(rand_core::OsRng);

/// Returns the unit value `rand_core::OsRng`. Nothing is claimed of it.
#[verifier::external_body]
pub(crate) fn os_rng() -> rand_core::OsRng {
    rand_core::OsRng
}

/// Calls `<OsRng as RngCore>::fill_bytes`, which overwrites `buf` with bytes
/// drawn from the operating system. Claimed: the length of `buf` is kept.
/// Nothing is claimed of the bytes (they come from the OS). The outside
/// function panics when the OS source fails; no input of ours decides that.
#[verifier::external_body]
pub(crate) fn os_fill(rng: &mut rand_core::OsRng, buf: &mut [u8])
    ensures
        final(buf)@.len() == old(buf)@.len(),
{
    rng.fill_bytes(buf)
}

// ---------------------------------------------------------------------------
// HKDF-SHA256 (hkdf + sha2)
// ---------------------------------------------------------------------------

/// The output of HKDF-SHA256 (RFC 5869) with the given salt, input key
/// material and info, truncated to `len` bytes.
pub uninterp spec fn hkdf_sha256(salt: Seq<u8>, ikm: Seq<u8>, info: Seq<u8>, len: nat) -> Seq<u8>;

/// The largest output HKDF-SHA256 can expand to (255 blocks of 32 bytes).
pub open spec fn hkdf_sha256_max_len() -> nat {
    8160
}

/// Calls `Hkdf::<Sha256>::new(Some(salt), ikm)` and then `expand(info, out)`.
/// As the hkdf source shows, `expand` fails exactly when `out` is longer than
/// 255 * 32 bytes and then leaves `out` untouched; otherwise it fills `out`
/// with the HKDF output of that length. The result is `true` on success.
#[verifier::external_body]
pub(crate) fn hkdf_sha256_expand(salt: &[u8], ikm: &[u8], info: &[u8], out: &mut [u8]) -> (ok: bool)
    ensures
        ok == (old(out)@.len() <= hkdf_sha256_max_len()),
        final(out)@.len() == old(out)@.len(),
        ok ==> final(out)@ == hkdf_sha256(salt@, ikm@, info@, old(out)@.len()),
        !ok ==> final(out)@ == old(out)@,
{
    Hkdf::<Sha256>::new(Some(salt), ikm).expand(info, out).is_ok()
}

// ---------------------------------------------------------------------------
// SHA-256 (sha2)
// ---------------------------------------------------------------------------

/// The SHA-256 digest of a byte sequence.
pub uninterp spec fn sha256(data: Seq<u8>) -> Seq<u8>;

/// Runs `Sha256::new()`, `update(a)`, `update(b)`, `finalize()`. Feeding the
/// two parts in turn hashes their concatenation (the `Digest` contract), so
/// the claim is that the 32-byte result is `sha256(a ++ b)`.
#[verifier::external_body]
pub(crate) fn sha256_of_two(a: &[u8], b: &[u8]) -> (digest: [u8; 32])
    ensures
        digest@ == sha256(a@ + b@),
{
    let mut h = Sha256::new();
    h.update(a);
    h.update(b);
    h.finalize().into()
}

/// HMAC-SHA256 of `data` under `key`.
pub uninterp spec fn hmac_sha256(key: Seq<u8>, data: Seq<u8>) -> Seq<u8>;

/// Runs `Hmac::<Sha256>::new_from_slice(key)`, `update(data)`, `finalize()`.
/// HMAC takes keys of any length (the hmac source never fails there), so the
/// error arm is never taken; the claim is that the 32-byte tag is
/// `hmac_sha256(key, data)`.
#[verifier::external_body]
pub(crate) fn hmac_sha256_tag(key: &[u8], data: &[u8]) -> (tag: [u8; 32])
    ensures
        tag@ == hmac_sha256(key@, data@),
{
    match <Hmac<Sha256> as Mac>::new_from_slice(key) {
        Ok(mut h) => {
            h.update(data);
            h.finalize().into_bytes().into()
        },
        Err(_) => [0u8; 32],
    }
}

// ---------------------------------------------------------------------------
// ChaCha20-Poly1305 (chacha20poly1305)
// ---------------------------------------------------------------------------

/// The ChaCha20-Poly1305 ciphertext (with its 16-byte tag appended) of
/// `plaintext` under `key` and `nonce`, with empty associated data.
pub uninterp spec fn chacha20poly1305_seal(key: Seq<u8>, nonce: Seq<u8>, plaintext: Seq<u8>) -> Seq<u8>;

/// Runs `ChaCha20Poly1305::new(key).encrypt(nonce, plaintext)`. As the
/// chacha20poly1305 source shows, encryption fails only when the plaintext
/// spans `u32::MAX` or more 64-byte blocks; otherwise the output is the
/// ciphertext followed by the 16-byte tag, 16 bytes longer than the input.
/// The keystream is fixed by key and nonce, so no other plaintext seals to
/// the same output.
#[verifier::external_body]
pub(crate) fn aead_seal(key: &[u8; 32], nonce: &[u8], plaintext: &[u8]) -> (r: Option<Vec<u8>>)
    requires
        nonce@.len() == 12,
    ensures
        r is Some == (plaintext@.len() / 64 < u32::MAX),
        r matches Some(c) ==> c@ == chacha20poly1305_seal(key@, nonce@, plaintext@)
            && c@.len() == plaintext@.len() + 16,
        r matches Some(c) ==> forall|p: Seq<u8>|
            p.len() / 64 < u32::MAX && #[trigger] chacha20poly1305_seal(key@, nonce@, p) == c@ ==> p == plaintext@,
{
    ChaCha20Poly1305::new(key.into()).encrypt(nonce.into(), plaintext).ok()
}

/// Runs `ChaCha20Poly1305::new(key).decrypt(nonce, ciphertext)`. Decryption
/// recomputes the tag over the ciphertext and strips the keystream, so it
/// succeeds with `p` exactly when the input is the sealing of `p` under the
/// same key and nonce (the cipher is deterministic given key and nonce).
#[verifier::external_body]
pub(crate) fn aead_open(key: &[u8; 32], nonce: &[u8], ciphertext: &[u8]) -> (r: Option<Vec<u8>>)
    requires
        nonce@.len() == 12,
    ensures
        r matches Some(p) ==> ciphertext@ == chacha20poly1305_seal(key@, nonce@, p@),
        r matches Some(p) ==> forall|q: Seq<u8>| q.len() / 64 < u32::MAX
            && #[trigger] chacha20poly1305_seal(key@, nonce@, q) == ciphertext@ ==> q == p@,
        r is None ==> forall|p: Seq<u8>| p.len() / 64 < u32::MAX
            ==> #[trigger] chacha20poly1305_seal(key@, nonce@, p) != ciphertext@,
{
    ChaCha20Poly1305::new(key.into()).decrypt(nonce.into(), ciphertext).ok()
}

// ---------------------------------------------------------------------------
// Constant-time operations (subtle)
// ---------------------------------------------------------------------------

/// `<[u8] as ConstantTimeEq>::ct_eq` turned into a `bool`: as the subtle
/// source shows, slices of different lengths compare unequal and slices of
/// equal length compare equal exactly when every byte agrees.
#[verifier::external_body]
pub(crate) fn ct_eq_bytes(a: &[u8], b: &[u8]) -> (r: bool)
    ensures
        r == (a@ == b@),
{
    bool::from(a.ct_eq(b))
}

/// `<u8 as ConstantTimeEq>::ct_eq` turned into a `bool`: equality of the bytes.
#[verifier::external_body]
pub(crate) fn ct_eq_byte(a: u8, b: u8) -> (r: bool)
    ensures
        r == (a == b),
{
    bool::from(a.ct_eq(&b))
}

/// `u8::conditional_assign(&mut current, &other, Choice::from(choice))`:
/// the result is `other` when `choice` holds and `current` otherwise.
#[verifier::external_body]
pub(crate) fn ct_assign_u8(current: u8, other: u8, choice: bool) -> (r: u8)
    ensures
        r == (if choice { other } else { current }),
{
    let mut v = current;
    v.conditional_assign(&other, Choice::from(choice as u8));
    v
}

/// `u32::conditional_assign(&mut current, &other, Choice::from(choice))`:
/// the result is `other` when `choice` holds and `current` otherwise.
#[verifier::external_body]
pub(crate) fn ct_assign_u32(current: u32, other: u32, choice: bool) -> (r: u32)
    ensures
        r == (if choice { other } else { current }),
{
    let mut v = current;
    v.conditional_assign(&other, Choice::from(choice as u8));
    v
}

/// `Choice & Choice` on the choices of two booleans: their conjunction.
#[verifier::external_body]
pub(crate) fn ct_and(a: bool, b: bool) -> (r: bool)
    ensures
        r == (a && b),
{
    bool::from(Choice::from(a as u8) & Choice::from(b as u8))
}

/// `Choice | Choice` on the choices of two booleans: their disjunction.
#[verifier::external_body]
pub(crate) fn ct_or(a: bool, b: bool) -> (r: bool)
    ensures
        r == (a || b),
{
    bool::from(Choice::from(a as u8) | Choice::from(b as u8))
}

/// `!Choice` on the choice of a boolean: its negation.
#[verifier::external_body]
pub(crate) fn ct_not(a: bool) -> (r: bool)
    ensures
        r == !a,
{
    bool::from(!Choice::from(a as u8))
}

// ---------------------------------------------------------------------------
// Zeroization (zeroize)
// ---------------------------------------------------------------------------

/// Calls `<[u8] as Zeroize>::zeroize`, which overwrites every byte with zero.
/// The zeroize source asserts only that the length fits an `isize`, which
/// holds of every slice, so the call neither unwinds nor opens invariants.
#[verifier::external_body]
pub(crate) fn zeroize_slice(buf: &mut [u8])
    ensures
        final(buf)@ == Seq::new(old(buf)@.len(), |i: int| 0u8),
    opens_invariants none
    no_unwind
{
    zeroize::Zeroize::zeroize(buf)
}

/// Calls `<[u8] as Zeroize>::zeroize` on the elements of a vector, keeping
/// its length: every element becomes zero. The zeroize source asserts only
/// that the length fits an `isize`, which holds of every allocation, so the
/// call neither unwinds nor opens invariants.
#[verifier::external_body]
pub(crate) fn zeroize_vec_contents(v: &mut Vec<u8>)
    ensures
        final(v)@ == Seq::new(old(v)@.len(), |i: int| 0u8),
    opens_invariants none
    no_unwind
{
    zeroize::Zeroize::zeroize(v.as_mut_slice())
}

/// Calls `<Vec<u8> as Zeroize>::zeroize`, which zeroes the elements and the
/// spare capacity and then clears the vector, leaving it empty.
#[verifier::external_body]
pub(crate) fn zeroize_vec(v: &mut Vec<u8>)
    ensures
        final(v)@.len() == 0,
{
    zeroize::Zeroize::zeroize(v)
}

// ---------------------------------------------------------------------------
// SHA-512 (sha2)
// ---------------------------------------------------------------------------

/// The SHA-512 digest of a byte sequence.
pub uninterp spec fn sha512(data: Seq<u8>) -> Seq<u8>;

/// Runs `Sha512::new()`, `update(data)`, `finalize()`: the 64-byte digest
/// `sha512(data)`.
#[verifier::external_body]
pub(crate) fn sha512_digest(data: &[u8]) -> (digest: Vec<u8>)
    ensures
        digest@ == sha512(data@),
        digest@.len() == 64,
{
    let mut h = Sha512::new();
    h.update(data);
    h.finalize().to_vec()
}

// ---------------------------------------------------------------------------
// Hexadecimal (hex)
// ---------------------------------------------------------------------------

/// Value of a hexadecimal digit (either case), or `None`.
pub open spec fn hex_value(c: u8) -> Option<u8> {
    if 48 <= c <= 57 {
        Some((c - 48) as u8)
    } else if 97 <= c <= 102 {
        Some((c - 97 + 10) as u8)
    } else if 65 <= c <= 70 {
        Some((c - 65 + 10) as u8)
    } else {
        None
    }
}

/// What `hex::decode` returns for `s`: `None` for an odd length or a
/// non-digit, otherwise each pair of digits as one byte, high digit first.
pub open spec fn hex_decode_spec(s: Seq<u8>) -> Option<Seq<u8>> {
    if s.len() % 2 != 0 {
        None
    } else if exists|i: int| 0 <= i < s.len() && (#[trigger] hex_value(s[i])) is None {
        None
    } else {
        Some(Seq::new(s.len() / 2, |i: int|
            (16 * hex_value(s[2 * i])->Some_0 + hex_value(s[2 * i + 1])->Some_0) as u8))
    }
}

/// The lower-case hexadecimal digit of a value below 16.
pub open spec fn hex_digit_char(v: int) -> char {
    if v < 10 { (48 + v) as char } else { (97 + v - 10) as char }
}

/// What `hex::encode` returns: two lower-case digits per byte, high first.
pub open spec fn hex_encode_spec(data: Seq<u8>) -> Seq<char> {
    Seq::new(2 * data.len(), |i: int|
        if i % 2 == 0 { hex_digit_char(data[i / 2] as int / 16) } else { hex_digit_char(data[i / 2] as int % 16) })
}

/// Calls `hex::encode`: as the hex source shows, each byte becomes two
/// lower-case hexadecimal digits, the high nibble first.
#[verifier::external_body]
pub(crate) fn hex_encode(data: &[u8]) -> (r: String)
    ensures
        r@ == hex_encode_spec(data@),
{
    hex::encode(data)
}

/// Calls `hex::decode`. As the hex source shows, it rejects an odd length
/// and any byte that is not a hexadecimal digit, and otherwise decodes each
/// pair of digits into one byte.
#[verifier::external_body]
pub(crate) fn hex_decode(s: &[u8]) -> (r: Option<Vec<u8>>)
    ensures
        r is Some == hex_decode_spec(s@) is Some,
        r matches Some(v) ==> v@ == hex_decode_spec(s@)->Some_0,
{
    hex::decode(s).ok()
}

// ---------------------------------------------------------------------------
// Ed25519 (ed25519-dalek)
// ---------------------------------------------------------------------------

/// Whether 32 bytes decode to an Ed25519 public key.
pub uninterp spec fn ed25519_key_valid(key: Seq<u8>) -> bool;

/// Whether `sig` is a valid Ed25519 signature of `msg` under `key`.
pub uninterp spec fn ed25519_verify(key: Seq<u8>, msg: Seq<u8>, sig: Seq<u8>) -> bool;

/// Runs `VerifyingKey::from_bytes(key)`, and on success
/// `verify(msg, &Signature::from_bytes(sig))`. `None` when the key does not
/// decode; otherwise whether the signature verifies.
#[verifier::external_body]
pub(crate) fn ed25519_check(key: &[u8; 32], msg: &[u8], sig: &[u8; 64]) -> (r: Option<bool>)
    ensures
        r is Some == ed25519_key_valid(key@),
        r matches Some(ok) ==> ok == ed25519_verify(key@, msg@, sig@),
{
    match VerifyingKey::from_bytes(key) {
        Ok(vk) => Some(vk.verify(msg, &Signature::from_bytes(sig)).is_ok()),
        Err(_) => None,
    }
}

// ---------------------------------------------------------------------------
// Thread-local generator (rand)
// ---------------------------------------------------------------------------

/// `rand::thread_rng().fill_bytes(buf)`: overwrites `buf` with random bytes,
/// keeping its length; nothing is claimed of the bytes.
#[verifier::external_body]
pub(crate) fn thread_rng_fill(buf: &mut [u8])
    ensures
        final(buf)@.len() == old(buf)@.len(),
{
    rand::RngCore::fill_bytes(&mut rand::thread_rng(), buf)
}

/// `rand::thread_rng().gen_range(0..=max)`: a value between 0 and `max`
/// (the range is never empty, so the call does not panic).
#[verifier::external_body]
pub(crate) fn thread_rng_up_to(max: u64) -> (r: u64)
    ensures
        r <= max,
{
    rand::thread_rng().gen_range(0..=max)
}

// ---------------------------------------------------------------------------
// UTC clock (chrono)
// ---------------------------------------------------------------------------

/// `chrono::Utc::now().timestamp()`: seconds since the Unix epoch. `now()`
/// panics on a clock before the epoch, so the value is not negative, and it
/// lies within chrono's representable range (below 10^13 seconds).
#[verifier::external_body]
pub(crate) fn utc_now_timestamp() -> (r: i64)
    ensures
        0 <= r < 10_000_000_000_000i64,
{
    chrono::Utc::now().timestamp()
}

// ---------------------------------------------------------------------------
// System clock (std::time)
// ---------------------------------------------------------------------------

/// Seconds since the Unix epoch from `SystemTime::now().duration_since(UNIX_EPOCH)`,
/// or `None` when the clock reads earlier than the epoch. Nothing more is
/// claimed: the value depends on the time.
#[verifier::external_body]
pub(crate) fn unix_time_secs() -> Option<u64> {
    std::time::SystemTime::now().duration_since(std::time::UNIX_EPOCH).ok().map(|d| d.as_secs())
}

/// Nanoseconds since the Unix epoch from the same call as `unix_time_secs`,
/// or `None` when the clock reads earlier than the epoch.
#[verifier::external_body]
pub(crate) fn unix_time_nanos() -> Option<u128> {
    std::time::SystemTime::now().duration_since(std::time::UNIX_EPOCH).ok().map(|d| d.as_nanos())
}

// ---------------------------------------------------------------------------
// Integer helpers of core that vstd does not specify
// ---------------------------------------------------------------------------

/// `u8::rotate_left`: for a shift strictly between 0 and 8 the bits shifted
/// out on the left come back on the right.
pub assume_specification[ <u8>::rotate_left ](x: u8, n: u32) -> (r: u8)
    requires
        0 < n < 8,
    ensures
        r == ((x << n) | (x >> ((8 - n) as u32))),
;

/// `String::push`: appends the character at the end.
pub assume_specification[ String::push ](s: &mut String, ch: char)
    ensures
        final(s)@ == old(s)@.push(ch),
;

/// `<[T]>::swap`: exchanges the two elements; both indices must be in
/// bounds (std panics otherwise).
pub assume_specification<Elem>[ <[Elem]>::swap ](slice: &mut [Elem], a: usize, b: usize)
    requires
        a < old(slice)@.len(),
        b < old(slice)@.len(),
    ensures
        final(slice)@ == old(slice)@.update(a as int, old(slice)@[b as int]).update(b as int, old(slice)@[a as int]),
;

/// `usize::is_power_of_two`: true exactly when the value is 2^k for some k.
pub assume_specification[ <usize>::is_power_of_two ](x: usize) -> (r: bool)
    ensures
        r == vstd::arithmetic::power2::is_pow2(x as int),
;

/// `u64::next_power_of_two`: the least power of two that is at least `x`
/// (std documents the overflow above 2^63, which `requires` leaves out).
pub assume_specification[ <u64>::next_power_of_two ](x: u64) -> (r: u64)
    requires
        x <= 0x8000_0000_0000_0000u64,
    ensures
        vstd::arithmetic::power2::is_pow2(r as int),
        r >= x,
        r >= 1,
        forall|p: int| #[trigger] vstd::arithmetic::power2::is_pow2(p) && p >= x ==> r <= p,
;

} // verus!
