//! Secure random number generation.
//!
//! `SecureRandom` draws bytes from the operating system and combines them
//! with a 64-byte entropy pool through HKDF-SHA256; after each draw the pool
//! is re-mixed with SHA-256 of the pool and the output.

use vstd::prelude::*;
use crate::backend::{zeroize_slice, zeroize_vec, os_rng, os_fill, unix_time_nanos, hkdf_sha256, hkdf_sha256_expand, hkdf_sha256_max_len, sha256, sha256_of_two};
use crate::error::{CryptoError, CryptoResult};

verus! {

/// Size of the entropy pool in bytes.
pub const ENTROPY_POOL_SIZE: usize = 64;

/// Number of bytes after which the pool is refilled from the OS.
pub const MAX_BYTES_BEFORE_RESEED: u64 = 1_000_000;

/// Size of the pieces that an over-long request is expanded in.
pub const EXPAND_CHUNK: usize = 8000;

/// HKDF info label of a single-call expansion: "SibnaSecureRandom_v3".
pub open spec fn expand_label() -> Seq<u8> {
    seq![83u8, 105, 98, 110, 97, 83, 101, 99, 117, 114, 101, 82, 97, 110, 100, 111, 109, 95, 118, 51]
}

/// ASCII decimal digits of `n`, most significant first.
pub open spec fn decimal_digits(n: nat) -> Seq<u8>
    decreases n,
{
    if n < 10 {
        seq![(48 + n) as u8]
    } else {
        decimal_digits(n / 10).push((48 + n % 10) as u8)
    }
}

/// HKDF info label of the chunk that starts at `offset`:
/// "SibnaSecureRandom_v3_chunk_" followed by the decimal offset.
pub open spec fn chunk_label(offset: nat) -> Seq<u8> {
    expand_label() + seq![95u8, 99, 104, 117, 110, 107, 95] + decimal_digits(offset)
}

/// One byte of the pool re-mixing step: add the digest byte, rotate left by
/// five, add the output byte.
pub open spec fn mix_byte(pool_byte: u8, digest_byte: u8, out_byte: u8) -> u8 {
    let a = pool_byte.wrapping_add(digest_byte);
    let r: u8 = ((a << 5u32) | (a >> 3u32));
    r.wrapping_add(out_byte)
}

/// The pool after mixing in `generated` (non-empty) with digest `d`:
/// byte `i < 32` is `mix_byte(pool[i], d[i], generated[i % len])`, the rest
/// is unchanged.
pub open spec fn mixed_pool(pool: Seq<u8>, d: Seq<u8>, generated: Seq<u8>) -> Seq<u8> {
    Seq::new(pool.len(), |i: int|
        if i < 32 { mix_byte(pool[i], d[i], generated[i % generated.len() as int]) } else { pool[i] })
}

/// The bytes of a request of `len` bytes expanded piecewise, starting at
/// `offset`: each piece of at most `EXPAND_CHUNK` bytes is the HKDF output
/// under the label of its start offset.
pub open spec fn chunked_output(pool: Seq<u8>, os: Seq<u8>, offset: nat, len: nat) -> Seq<u8>
    decreases len - offset,
{
    if offset >= len {
        Seq::empty()
    } else {
        let end: nat = if offset + 8000 < len { offset + 8000 } else { len };
        hkdf_sha256(pool, os, chunk_label(offset), (end - offset) as nat)
            + chunked_output(pool, os, end, len)
    }
}

/// The output of one draw of `len` bytes from pool `pool` and OS bytes `os`.
pub open spec fn expanded_output(pool: Seq<u8>, os: Seq<u8>, len: nat) -> Seq<u8> {
    if len <= hkdf_sha256_max_len() {
        hkdf_sha256(pool, os, expand_label(), len)
    } else {
        chunked_output(pool, os, 0, len)
    }
}

/// The byte counter after handing out `len` more bytes: a request that would
/// pass the reseed threshold reseeds first and restarts the count.
pub open spec fn count_after(count: u64, len: nat) -> u64 {
    if count + len > MAX_BYTES_BEFORE_RESEED {
        if len > u64::MAX { u64::MAX } else { len as u64 }
    } else {
        (count + len) as u64
    }
}

/// `out` is what one draw of `len` bytes can give: the expansion of some
/// 64-byte pool and `len` bytes from the OS.
pub open spec fn is_draw(out: Seq<u8>, len: nat) -> bool {
    exists|pool: Seq<u8>, os: Seq<u8>|
        pool.len() == 64 && os.len() == len && out == #[trigger] expanded_output(pool, os, len)
}

/// The byte counter after `k` draws of eight bytes each.
pub open spec fn draws_count(count: u64, k: nat) -> u64
    decreases k,
{
    if k == 0 {
        count
    } else {
        count_after(draws_count(count, (k - 1) as nat), 8)
    }
}

/// `v` is a value that `gen_range(max)` can return on a generator whose byte
/// count goes from `before` to `after`: the accepted candidate of an 8-byte
/// draw, or 0 once `u64::MAX` draws have all been rejected.
pub open spec fn range_result(v: u64, max: u64, before: u64, after: u64) -> bool {
    ||| exists|b: Seq<u8>| b.len() == 8 && is_draw(b, 8)
            && range_candidate_spec(#[trigger] vstd::bytes::spec_u64_from_le_bytes(b), max) == Some(v)
    ||| v == 0 && after == draws_count(before, u64::MAX as nat)
}

/// What `gen_range` returns is the remainder of one of its own 8-byte draws
/// modulo the least power of two at least `max`, and below `max`; the only
/// other outcome is 0 after `u64::MAX` rejected draws, which the byte count
/// shows.
pub proof fn lemma_range_result_is_masked_draw(v: u64, max: u64, before: u64, after: u64)
    requires
        0 < max <= 0x8000_0000_0000_0000u64,
        range_result(v, max, before, after),
        after != draws_count(before, u64::MAX as nat),
    ensures
        v < max,
        exists|b: Seq<u8>| b.len() == 8 && is_draw(b, 8)
            && (#[trigger] vstd::bytes::spec_u64_from_le_bytes(b) as int) % (range_mask(max) as int + 1) == v as int,
{
    let b = choose|b: Seq<u8>| b.len() == 8 && is_draw(b, 8)
        && range_candidate_spec(#[trigger] vstd::bytes::spec_u64_from_le_bytes(b), max) == Some(v);
    lemma_range_candidate(vstd::bytes::spec_u64_from_le_bytes(b), max);
}

/// The verdict of the entropy check on a sample.
pub open spec fn entropy_result(sample: Seq<u8>) -> CryptoResult<()> {
    if sample_has_entropy(sample) { Ok(()) } else { Err(CryptoError::InsufficientEntropy) }
}

/// ASCII decimal digits of `n`.
pub(crate) fn decimal_bytes(n: usize) -> (r: Vec<u8>)
    ensures
        r@ == decimal_digits(n as nat),
    decreases n,
{
    if n < 10 {
        let mut v: Vec<u8> = Vec::new();
        v.push((48 + n) as u8);
        v
    } else {
        let mut v = decimal_bytes(n / 10);
        v.push((48 + n % 10) as u8);
        v
    }
}

fn expand_label_bytes() -> (r: Vec<u8>)
    ensures
        r@ == expand_label(),
{
    let v: Vec<u8> = vec![83u8, 105, 98, 110, 97, 83, 101, 99, 117, 114, 101, 82, 97, 110, 100, 111, 109, 95, 118, 51];
    assert(v@ =~= expand_label());
    v
}

fn chunk_label_bytes(offset: usize) -> (r: Vec<u8>)
    ensures
        r@ == chunk_label(offset as nat),
{
    let mut v = expand_label_bytes();
    let mut suffix: Vec<u8> = vec![95u8, 99, 104, 117, 110, 107, 95];
    let mut digits = decimal_bytes(offset);
    v.append(&mut suffix);
    v.append(&mut digits);
    v
}

/// The pool after the clock reading is mixed in: bytes 4 to 19 are XORed
/// with the little-endian nanoseconds since the epoch.
pub open spec fn clock_mixed(os: Seq<u8>, nanos: u128) -> Seq<u8> {
    Seq::new(64, |i: int|
        if 4 <= i < 20 { os[i] ^ vstd::bytes::spec_u128_to_le_bytes(nanos)[i - 4] } else { os[i] })
}

/// The starting pool made from 64 OS bytes and the clock reading, or `None`
/// when the mixed pool is all zero (a sign that the OS source failed).
pub open spec fn pool_after_mixing(os: Seq<u8>, nanos: u128) -> Option<Seq<u8>> {
    let p = clock_mixed(os, nanos);
    if forall|i: int| 0 <= i < 64 ==> p[i] == 0 { None } else { Some(p) }
}

/// The OS bytes with a process id mixed in: bytes 0 to 3 are XORed with its
/// little-endian bytes.
pub open spec fn process_mixed(os: Seq<u8>, process_id: u32) -> Seq<u8> {
    Seq::new(os.len(), |i: int|
        if 0 <= i < 4 { os[i] ^ vstd::bytes::spec_u32_to_le_bytes(process_id)[i] } else { os[i] })
}

/// Mixes a process id into 64 OS bytes (see `process_mixed`).
pub fn mix_process_id(os: [u8; 64], process_id: u32) -> (r: [u8; 64])
    ensures
        r@ == process_mixed(os@, process_id),
{
    let mut out = os;
    let pid = vstd::bytes::u32_to_le_bytes(process_id);
    let mut i: usize = 0;
    while i < 4
        invariant
            0 <= i <= 4,
            pid@ == vstd::bytes::spec_u32_to_le_bytes(process_id),
            pid@.len() == 4,
            out@.len() == 64,
            forall|k: int| 0 <= k < 64 ==> out@[k] == (if k < i { os@[k] ^ pid@[k] } else { os@[k] }),
        decreases 4 - i,
    {
        out[i] = out[i] ^ pid[i];
        i = i + 1;
    }
    assert(out@ =~= process_mixed(os@, process_id));
    out
}

/// Mixes the clock reading into 64 OS bytes (see `pool_after_mixing`).
pub fn mix_clock_into_pool(os: [u8; 64], nanos: u128) -> (r: Option<[u8; 64]>)
    ensures
        match r {
            Some(p) => pool_after_mixing(os@, nanos) == Some(p@),
            None => pool_after_mixing(os@, nanos) is None,
        },
{
    let mut pool = os;
    let now = vstd::bytes::u128_to_le_bytes(nanos);
    let mut i: usize = 0;
    while i < 16
        invariant
            0 <= i <= 16,
            now@ == vstd::bytes::spec_u128_to_le_bytes(nanos),
            now@.len() == 16,
            pool@.len() == 64,
            forall|k: int| 0 <= k < 64 ==> pool@[k] == (if 4 <= k < 4 + i { os@[k] ^ now@[k - 4] } else { os@[k] }),
        decreases 16 - i,
    {
        let idx = 4 + i;
        pool[idx] = pool[idx] ^ now[i];
        i = i + 1;
    }
    assert(pool@ =~= clock_mixed(os@, nanos));
    let mut all_zero = true;
    let mut j: usize = 0;
    while j < 64
        invariant
            0 <= j <= 64,
            pool@.len() == 64,
            all_zero == (forall|k: int| 0 <= k < j ==> pool@[k] == 0),
        decreases 64 - j,
    {
        if pool[j] != 0 {
            all_zero = false;
        }
        j = j + 1;
    }
    if all_zero {
        return None;
    }
    Some(pool)
}

/// The rejection-sampling mask for a bound `max`: one less than the least
/// power of two that is at least `max`.
pub open spec fn range_mask(max: u64) -> u64 {
    let p = choose|p: u64| vstd::arithmetic::power2::is_pow2(p as int) && p >= max
        && forall|q: int| #[trigger] vstd::arithmetic::power2::is_pow2(q) && q >= max ==> p <= q;
    (p - 1) as u64
}

/// The candidate that a raw draw gives for the bound `max`: the draw under
/// the mask, accepted when it is below `max`.
pub open spec fn range_candidate_spec(raw: u64, max: u64) -> Option<u64> {
    if raw & range_mask(max) < max { Some(raw & range_mask(max)) } else { None }
}

/// The least power of two that is at least `max` has an exponent of at most
/// 63, searching upward from exponent `k`.
proof fn lemma_least_pow2_from(max: u64, k: nat) -> (e: nat)
    requires
        0 < max <= 0x8000_0000_0000_0000u64,
        k <= 63,
        k == 0 || vstd::arithmetic::power2::pow2((k - 1) as nat) < max,
    ensures
        e <= 63,
        vstd::arithmetic::power2::pow2(e) >= max,
        forall|q: int| #[trigger] vstd::arithmetic::power2::is_pow2(q) && q >= max
            ==> vstd::arithmetic::power2::pow2(e) <= q,
    decreases 63 - k,
{
    vstd::arithmetic::power2::lemma2_to64_rest();
    if vstd::arithmetic::power2::pow2(k) >= max {
        assert forall|q: int| #[trigger] vstd::arithmetic::power2::is_pow2(q) && q >= max
            implies vstd::arithmetic::power2::pow2(k) <= q by {
            vstd::arithmetic::power2::is_pow2_equiv(q);
            let i = choose|i: nat| vstd::arithmetic::power::pow(2, i) == q;
            vstd::arithmetic::power2::lemma_pow2(i);
            if i < k {
                if i < k - 1 {
                    vstd::arithmetic::power2::lemma_pow2_strictly_increases(i, (k - 1) as nat);
                }
                assert(false);
            } else if i > k {
                vstd::arithmetic::power2::lemma_pow2_strictly_increases(k, i);
            }
        }
        k
    } else {
        lemma_least_pow2_from(max, k + 1)
    }
}

/// Law of the range candidates: the mask is one less than the least power
/// of two `p` that is at least `max`; a draw is accepted exactly when its
/// remainder modulo `p` is below `max`, and the accepted value is that
/// remainder. So a value below `max` comes back unchanged, and for a `max`
/// that is itself a power of two every draw is accepted as its remainder
/// modulo `max`.
pub proof fn lemma_range_candidate(raw: u64, max: u64)
    requires
        0 < max <= 0x8000_0000_0000_0000u64,
    ensures
        vstd::arithmetic::power2::is_pow2(range_mask(max) as int + 1),
        max <= range_mask(max) as int + 1,
        forall|q: int| #[trigger] vstd::arithmetic::power2::is_pow2(q) && q >= max ==> range_mask(max) as int + 1 <= q,
        range_candidate_spec(raw, max) == (if (raw as int) % (range_mask(max) as int + 1) < max {
            Some(((raw as int) % (range_mask(max) as int + 1)) as u64)
        } else {
            None
        }),
        raw < max ==> range_candidate_spec(raw, max) == Some(raw),
        vstd::arithmetic::power2::is_pow2(max as int) ==> range_candidate_spec(raw, max) == Some(raw % max),
{
    vstd::arithmetic::power2::lemma2_to64_rest();
    let e = lemma_least_pow2_from(max, 0);
    let pe = vstd::arithmetic::power2::pow2(e);
    if e < 63 {
        vstd::arithmetic::power2::lemma_pow2_strictly_increases(e, 63);
    }
    assert(pe <= 0x8000_0000_0000_0000u64);
    let w: u64 = pe as u64;
    vstd::arithmetic::power2::lemma_pow2(e);
    assert(vstd::arithmetic::power::pow(2, e) == w as int);
    vstd::arithmetic::power2::is_pow2_equiv(w as int);
    assert(vstd::arithmetic::power2::is_pow2(w as int));
    let p = choose|p: u64| vstd::arithmetic::power2::is_pow2(p as int) && p >= max
        && forall|q: int| #[trigger] vstd::arithmetic::power2::is_pow2(q) && q >= max ==> p <= q;
    assert(vstd::arithmetic::power2::is_pow2(w as int) && w >= max
        && forall|q: int| #[trigger] vstd::arithmetic::power2::is_pow2(q) && q >= max ==> w <= q);
    assert(p <= w);
    assert(w <= p);
    assert(range_mask(max) == (w - 1) as u64);
    assert(vstd::bits::low_bits_mask(e) == w - 1);
    vstd::bits::lemma_u64_low_bits_mask_is_mod(raw, e);
    assert(raw & range_mask(max) == raw % w);
    if raw < max {
        vstd::arithmetic::div_mod::lemma_small_mod(raw as nat, w as nat);
        assert(raw % w == raw);
    }
    if vstd::arithmetic::power2::is_pow2(max as int) {
        assert(w <= max);
    }
}

/// Turns a raw draw into a candidate below `max` (see
/// `range_candidate_spec`).
pub fn range_candidate(raw: u64, max: u64) -> (r: Option<u64>)
    requires
        max <= 0x8000_0000_0000_0000u64,
    ensures
        r == range_candidate_spec(raw, max),
{
    let np = max.next_power_of_two();
    proof {
        let p = choose|p: u64| vstd::arithmetic::power2::is_pow2(p as int) && p >= max
            && forall|q: int| #[trigger] vstd::arithmetic::power2::is_pow2(q) && q >= max ==> p <= q;
        assert(vstd::arithmetic::power2::is_pow2(np as int) && np >= max
            && forall|q: int| #[trigger] vstd::arithmetic::power2::is_pow2(q) && q >= max ==> np <= q);
        assert(p <= np);
        assert(np <= p);
        assert(range_mask(max) == (np - 1) as u64);
    }
    let mask = np - 1;
    let v = raw & mask;
    if v < max { Some(v) } else { None }
}

/// A cryptographically secure random generator.
pub struct SecureRandom {
    rng: rand_core::OsRng,
    entropy_pool: [u8; 64],
    bytes_generated: u64,
    max_bytes_before_reseed: u64,
}

impl SecureRandom {
    /// The generator's invariant: the reseed threshold is the fixed one.
    pub closed spec fn wf(&self) -> bool {
        self.max_bytes_before_reseed == MAX_BYTES_BEFORE_RESEED
    }

    /// Bytes handed out since the last reseed.
    pub closed spec fn generated_count(&self) -> u64 {
        self.bytes_generated
    }

    /// The current entropy pool.
    pub closed spec fn pool(&self) -> Seq<u8> {
        self.entropy_pool@
    }

    /// Creates a generator with a pool drawn from the OS and mixed with the
    /// current time (see `pool_after_mixing`). Fails with `RandomFailed` when
    /// the mixed pool is all zero. No process id is mixed in; a caller that
    /// has one uses `with_process_id`.
    pub fn new() -> (r: CryptoResult<Self>)
        ensures
            r matches Ok(g) ==> g.wf() && g.generated_count() == 0
                && exists|os: Seq<u8>, nanos: u128| os.len() == 64
                    && #[trigger] pool_after_mixing(os, nanos) == Some(g.pool()),
            r matches Err(e) ==> e == CryptoError::RandomFailed,
    {
        let mut rng = os_rng();
        let mut os_bytes = [0u8; 64];
        os_fill(&mut rng, &mut os_bytes);
        let nanos: u128 = match unix_time_nanos() {
            Some(n) => n,
            None => 9223372036854775807u128 * 1_000_000_000u128,
        };
        match mix_clock_into_pool(os_bytes, nanos) {
            None => Err(CryptoError::RandomFailed),
            Some(entropy_pool) => {
                let g = SecureRandom {
                    rng,
                    entropy_pool,
                    bytes_generated: 0,
                    max_bytes_before_reseed: MAX_BYTES_BEFORE_RESEED,
                };
                assert(g.pool() == entropy_pool@);
                Ok(g)
            },
        }
    }

    /// Creates a generator as `new` does, with the process id mixed into
    /// bytes 0 to 3 of the OS bytes before the clock reading (see
    /// `process_mixed`). The process id is read by the caller: the library
    /// has no access to it.
    pub fn with_process_id(process_id: u32) -> (r: CryptoResult<Self>)
        ensures
            r matches Ok(g) ==> g.wf() && g.generated_count() == 0
                && exists|os: Seq<u8>, nanos: u128| os.len() == 64
                    && #[trigger] pool_after_mixing(process_mixed(os, process_id), nanos) == Some(g.pool()),
            r matches Err(e) ==> e == CryptoError::RandomFailed,
    {
        let mut rng = os_rng();
        let mut os_bytes = [0u8; 64];
        os_fill(&mut rng, &mut os_bytes);
        let mixed = mix_process_id(os_bytes, process_id);
        let nanos: u128 = match unix_time_nanos() {
            Some(n) => n,
            None => 9223372036854775807u128 * 1_000_000_000u128,
        };
        match mix_clock_into_pool(mixed, nanos) {
            None => Err(CryptoError::RandomFailed),
            Some(entropy_pool) => {
                let g = SecureRandom {
                    rng,
                    entropy_pool,
                    bytes_generated: 0,
                    max_bytes_before_reseed: MAX_BYTES_BEFORE_RESEED,
                };
                assert(g.pool() == entropy_pool@);
                assert(pool_after_mixing(process_mixed(os_bytes@, process_id), nanos) == Some(g.pool()));
                Ok(g)
            },
        }
    }

    /// Refills the pool from the OS and restarts the byte count.
    fn reseed(&mut self)
        requires
            old(self).wf(),
        ensures
            final(self).wf(),
            final(self).generated_count() == 0,
            final(self).pool().len() == 64,
    {
        os_fill(&mut self.rng, &mut self.entropy_pool);
        self.bytes_generated = 0;
    }

    /// Mixes freshly generated output into the pool.
    fn update_entropy_pool(&mut self, generated: &[u8])
        requires
            generated@.len() > 0,
        ensures
            final(self).pool() == mixed_pool(old(self).pool(), sha256(old(self).pool() + generated@), generated@),
            final(self).generated_count() == old(self).generated_count(),
            final(self).wf() == old(self).wf(),
    {
        let hash = sha256_of_two(&self.entropy_pool, generated);
        let ghost pool0 = self.entropy_pool@;
        let glen = generated.len();
        let mut i: usize = 0;
        while i < 32
            invariant
                0 <= i <= 32,
                glen == generated@.len(),
                glen > 0,
                pool0.len() == 64,
                hash@ == sha256(pool0 + generated@),
                self.entropy_pool@.len() == 64,
                forall|k: int| 0 <= k < i ==> self.entropy_pool@[k] == #[trigger] mixed_pool(pool0, hash@, generated@)[k],
                forall|k: int| i <= k < 64 ==> self.entropy_pool@[k] == pool0[k],
                self.bytes_generated == old(self).bytes_generated,
                self.max_bytes_before_reseed == old(self).max_bytes_before_reseed,
            decreases 32 - i,
        {
            let idx = i % 64;
            let a = self.entropy_pool[idx].wrapping_add(hash[i]);
            let r = a.rotate_left(5);
            let g = generated[i % glen];
            self.entropy_pool[idx] = r.wrapping_add(g);
            i = i + 1;
        }
        assert(self.entropy_pool@ =~= mixed_pool(pool0, hash@, generated@));
    }

    /// Fills `buf` with random bytes (see `expanded_output`), then mixes the
    /// output into the pool. A request that would pass the reseed threshold
    /// refills the pool from the OS first.
    pub fn fill_bytes(&mut self, buf: &mut [u8])
        requires
            old(self).wf(),
            old(buf)@.len() > 0,
        ensures
            final(self).wf(),
            final(buf)@.len() == old(buf)@.len(),
            final(self).generated_count() == count_after(old(self).generated_count(), old(buf)@.len()),
            exists|pool: Seq<u8>, os: Seq<u8>| {
                &&& pool.len() == 64
                &&& os.len() == old(buf)@.len()
                &&& (old(self).generated_count() + old(buf)@.len() <= MAX_BYTES_BEFORE_RESEED ==> pool == old(self).pool())
                &&& final(buf)@ == expanded_output(pool, os, old(buf)@.len())
                &&& final(self).pool() == mixed_pool(pool, sha256(pool + final(buf)@), final(buf)@)
            },
    {
        let len = buf.len();
        if self.bytes_generated.saturating_add(len as u64) > self.max_bytes_before_reseed {
            self.reseed();
        }
        let ghost pool = self.entropy_pool@;
        let mut os_bytes: Vec<u8> = vec![0u8; len];
        os_fill(&mut self.rng, os_bytes.as_mut_slice());
        let ghost os = os_bytes@;
        let label = expand_label_bytes();
        let ok = hkdf_sha256_expand(&self.entropy_pool, os_bytes.as_slice(), label.as_slice(), buf);
        if !ok {
            let mut offset: usize = 0;
            while offset < len
                invariant
                    0 <= offset <= len,
                    len == buf@.len(),
                    len > hkdf_sha256_max_len(),
                    self.entropy_pool@ == pool,
                    os_bytes@ == os,
                    chunked_output(pool, os, 0, len as nat)
                        == buf@.subrange(0, offset as int) + chunked_output(pool, os, offset as nat, len as nat),
                decreases len - offset,
            {
                let end = if len - offset > EXPAND_CHUNK { offset + EXPAND_CHUNK } else { len };
                let info = chunk_label_bytes(offset);
                let piece_len = end - offset;
                let mut piece: Vec<u8> = vec![0u8; piece_len];
                let _ = hkdf_sha256_expand(&self.entropy_pool, os_bytes.as_slice(), info.as_slice(), piece.as_mut_slice());
                assert(piece@ == hkdf_sha256(pool, os, chunk_label(offset as nat), piece_len as nat));
                let ghost b0 = buf@;
                let mut k: usize = 0;
                while k < piece_len
                    invariant
                        0 <= k <= piece_len,
                        piece_len == end - offset,
                        offset < end <= len,
                        len == buf@.len(),
                        b0.len() == len,
                        piece@.len() == piece_len,
                        forall|j: int| 0 <= j < offset ==> buf@[j] == b0[j],
                        forall|j: int| offset <= j < offset + k ==> buf@[j] == piece@[j - offset],
                    decreases piece_len - k,
                {
                    buf[offset + k] = piece[k];
                    k = k + 1;
                }
                assert(buf@.subrange(0, end as int) =~= b0.subrange(0, offset as int) + piece@);
                assert(chunked_output(pool, os, offset as nat, len as nat)
                    == piece@ + chunked_output(pool, os, end as nat, len as nat));
                assert(b0.subrange(0, offset as int) + chunked_output(pool, os, offset as nat, len as nat)
                    =~= buf@.subrange(0, end as int) + chunked_output(pool, os, end as nat, len as nat));
                offset = end;
            }
            assert(buf@.subrange(0, len as int) =~= buf@);
            assert(buf@ == expanded_output(pool, os, len as nat));
        } else {
            assert(buf@ == expanded_output(pool, os, len as nat));
        }
        zeroize_vec(&mut os_bytes);
        self.update_entropy_pool(&*buf);
        self.bytes_generated = self.bytes_generated.saturating_add(len as u64);
    }

    /// A random `u64` read little-endian from eight fresh bytes.
    pub fn next_u64(&mut self) -> (r: u64)
        requires
            old(self).wf(),
        ensures
            final(self).wf(),
            final(self).generated_count() == count_after(old(self).generated_count(), 8),
            exists|b: Seq<u8>| b.len() == 8 && is_draw(b, 8) && r == #[trigger] vstd::bytes::spec_u64_from_le_bytes(b),
    {
        let mut buf = [0u8; 8];
        self.fill_bytes(&mut buf);
        let r = vstd::bytes::u64_from_le_bytes(&buf);
        assert(is_draw(buf@, 8));
        r
    }

    /// A random `u32` read little-endian from four fresh bytes.
    pub fn next_u32(&mut self) -> (r: u32)
        requires
            old(self).wf(),
        ensures
            final(self).wf(),
            final(self).generated_count() == count_after(old(self).generated_count(), 4),
            exists|b: Seq<u8>| b.len() == 4 && is_draw(b, 4) && r == #[trigger] vstd::bytes::spec_u32_from_le_bytes(b),
    {
        let mut buf = [0u8; 4];
        self.fill_bytes(&mut buf);
        let r = vstd::bytes::u32_from_le_bytes(&buf);
        assert(is_draw(buf@, 4));
        r
    }

    /// A uniformly distributed value below `max` (0 when `max` is 0), drawn by
    /// rejection sampling under the mask `max.next_power_of_two() - 1`.
    /// The sampling gives up, returning 0, only after `u64::MAX` rejected
    /// draws.
    pub fn gen_range(&mut self, max: u64) -> (r: u64)
        requires
            old(self).wf(),
            max <= 0x8000_0000_0000_0000u64,
        ensures
            final(self).wf(),
            max == 0 ==> r == 0 && final(self).pool() == old(self).pool()
                && final(self).generated_count() == old(self).generated_count(),
            max > 0 ==> r < max,
            max > 0 ==> (exists|b: Seq<u8>| b.len() == 8 && is_draw(b, 8)
                && range_candidate_spec(#[trigger] vstd::bytes::spec_u64_from_le_bytes(b), max) == Some(r))
                || (r == 0 && final(self).generated_count() == draws_count(old(self).generated_count(), u64::MAX as nat)),
            max > 0 ==> range_result(r, max, old(self).generated_count(), final(self).generated_count()),
            max > 0 ==> exists|k: nat| 1 <= k
                && final(self).generated_count() == #[trigger] draws_count(old(self).generated_count(), k),
    {
        if max == 0 {
            return 0;
        }
        let ghost c0 = self.generated_count();
        let mut attempts: u64 = 0;
        while attempts < u64::MAX
            invariant
                self.wf(),
                c0 == old(self).generated_count(),
                0 < max <= 0x8000_0000_0000_0000u64,
                self.generated_count() == draws_count(c0, attempts as nat),
            decreases u64::MAX - attempts,
        {
            let raw = self.next_u64();
            assert(self.generated_count() == draws_count(c0, (attempts + 1) as nat));
            if let Some(v) = range_candidate(raw, max) {
                return v;
            }
            attempts = attempts + 1;
        }
        assert(draws_count(c0, attempts as nat) == self.generated_count());
        0
    }

    /// `len` fresh random bytes.
    pub fn gen_bytes(&mut self, len: usize) -> (r: Vec<u8>)
        requires
            old(self).wf(),
            len > 0,
        ensures
            final(self).wf(),
            r@.len() == len,
            final(self).generated_count() == count_after(old(self).generated_count(), len as nat),
            is_draw(r@, len as nat),
            exists|pool: Seq<u8>, os: Seq<u8>| {
                &&& pool.len() == 64
                &&& os.len() == len
                &&& (old(self).generated_count() + len <= MAX_BYTES_BEFORE_RESEED ==> pool == old(self).pool())
                &&& r@ == #[trigger] expanded_output(pool, os, len as nat)
                &&& final(self).pool() == mixed_pool(pool, sha256(pool + r@), r@)
            },
    {
        let mut buf: Vec<u8> = vec![0u8; len];
        self.fill_bytes(buf.as_mut_slice());
        buf
    }

    /// Bytes handed out since the last reseed.
    pub fn bytes_generated(&self) -> (r: u64)
        ensures
            r == self.generated_count(),
    {
        self.bytes_generated
    }

    /// Whether the byte count has reached the reseed threshold.
    pub fn needs_reseed(&self) -> (r: bool)
        requires
            self.wf(),
        ensures
            r == (self.generated_count() >= MAX_BYTES_BEFORE_RESEED),
    {
        self.bytes_generated >= self.max_bytes_before_reseed
    }

    /// Wipes the pool and the byte count.
    pub fn zeroize(&mut self)
        ensures
            final(self).pool() == Seq::new(64, |i: int| 0u8),
            final(self).generated_count() == 0,
            final(self).wf() == old(self).wf(),
        opens_invariants none
        no_unwind
    {
        zeroize_slice(&mut self.entropy_pool);
        self.bytes_generated = 0;
    }
}

impl Clone for SecureRandom {
    /// A generator with the same pool and byte count.
    fn clone(&self) -> (r: Self)
        ensures
            r.pool() == self.pool(),
            r.generated_count() == self.generated_count(),
            r.wf() == self.wf(),
    {
        SecureRandom {
            rng: os_rng(),
            entropy_pool: self.entropy_pool,
            bytes_generated: self.bytes_generated,
            max_bytes_before_reseed: self.max_bytes_before_reseed,
        }
    }
}

impl Drop for SecureRandom {
    /// The entropy pool is wiped when the generator goes out of scope.
    fn drop(&mut self)
        opens_invariants none
        no_unwind
    {
        self.zeroize();
    }
}


/// Replacing element `i` by `x` trades one occurrence of `s[i]` for one of `x`.
proof fn lemma_update_to_multiset<T>(s: Seq<T>, i: int, x: T)
    requires
        0 <= i < s.len(),
    ensures
        s.update(i, x).to_multiset() == s.to_multiset().remove(s[i]).insert(x),
{
    broadcast use vstd::seq_lib::group_to_multiset_ensures;
    broadcast use vstd::multiset::group_multiset_axioms;
    let u = s.update(i, x);
    assert(u.remove(i) =~= s.remove(i));
    assert(u.to_multiset().remove(x) == s.to_multiset().remove(s[i]));
    assert(u.to_multiset().count(x) > 0) by {
        assert(u[i] == x);
        assert(u.contains(x));
    }
    assert(u.to_multiset() =~= u.to_multiset().remove(x).insert(x));
}

/// Exchanging two elements keeps the multiset of elements.
pub proof fn lemma_swap_to_multiset<T>(s: Seq<T>, a: int, b: int)
    requires
        0 <= a < s.len(),
        0 <= b < s.len(),
    ensures
        s.update(a, s[b]).update(b, s[a]).to_multiset() == s.to_multiset(),
{
    broadcast use vstd::multiset::group_multiset_axioms;
    let s1 = s.update(a, s[b]);
    lemma_update_to_multiset(s, a, s[b]);
    lemma_update_to_multiset(s1, b, s[a]);
    if a == b {
        assert(s.update(a, s[b]).update(b, s[a]) =~= s);
    } else {
        broadcast use vstd::seq_lib::group_to_multiset_ensures;
        assert(s1[b] == s[b]);
        let m = s.to_multiset();
        assert(s.contains(s[a]));
        assert(m.count(s[a]) > 0);
        assert forall|v: T| #[trigger] s1.update(b, s[a]).to_multiset().count(v) == m.count(v) by {
            if v == s[a] && v == s[b] {
            } else if v == s[a] {
            } else if v == s[b] {
            } else {
            }
        }
        assert(s1.update(b, s[a]).to_multiset() =~= m);
    }
}

/// Fills `buf` with random bytes from a fresh generator; when no generator
/// can be set up the buffer is left as it is. `buf` must not be empty (the
/// pool mixing indexes the output modulo its length).
pub fn random_bytes(buf: &mut [u8])
    requires
        old(buf)@.len() > 0,
    ensures
        final(buf)@.len() == old(buf)@.len(),
        final(buf)@ == old(buf)@ || is_draw(final(buf)@, old(buf)@.len()),
{
    match SecureRandom::new() {
        Ok(mut rng) => rng.fill_bytes(buf),
        Err(_) => {},
    }
}

/// `len` random bytes (see `random_bytes`).
pub fn random_vec(len: usize) -> (r: Vec<u8>)
    requires
        len > 0,
    ensures
        r@.len() == len,
        r@ == Seq::new(len as nat, |i: int| 0u8) || is_draw(r@, len as nat),
{
    let mut buf: Vec<u8> = vec![0u8; len];
    assert(buf@ =~= Seq::new(len as nat, |i: int| 0u8));
    random_bytes(buf.as_mut_slice());
    buf
}

/// A random `u64`, or 0 when no generator can be set up.
pub fn random_u64() -> (r: u64)
    ensures
        r == 0 || exists|b: Seq<u8>| b.len() == 8 && is_draw(b, 8) && r == #[trigger] vstd::bytes::spec_u64_from_le_bytes(b),
{
    match SecureRandom::new() {
        Ok(mut rng) => rng.next_u64(),
        Err(_) => 0,
    }
}

/// `s` with the elements at positions `a` and `b` exchanged.
pub open spec fn swap_at<T>(s: Seq<T>, a: int, b: int) -> Seq<T> {
    s.update(a, s[b]).update(b, s[a])
}

/// Fisher-Yates from position `i` down to 1: position `k` is exchanged with
/// position `draws[k]`.
pub open spec fn fisher_yates_from<T>(s: Seq<T>, draws: Seq<usize>, i: nat) -> Seq<T>
    decreases i,
{
    if i == 0 {
        s
    } else {
        fisher_yates_from(swap_at(s, i as int, draws[i as int] as int), draws, (i - 1) as nat)
    }
}

/// The Fisher-Yates shuffle of `s` under the given draws.
pub open spec fn fisher_yates<T>(s: Seq<T>, draws: Seq<usize>) -> Seq<T> {
    if s.len() <= 1 { s } else { fisher_yates_from(s, draws, (s.len() - 1) as nat) }
}

/// Draws for a Fisher-Yates shuffle of `len` elements: one per position,
/// position `k` (from 1 up) drawing an index of at most `k`.
pub open spec fn valid_draws(draws: Seq<usize>, len: nat) -> bool {
    draws.len() == len && forall|k: int| 1 <= k < len ==> #[trigger] draws[k] <= k
}

/// The draws of a shuffle of `len` elements are valid, and each is what
/// `gen_range(k + 1)` returned for position `k`, the generator's byte count
/// going from `counts[k]` to `counts[k - 1]` (the last position is drawn
/// first).
pub open spec fn shuffle_draws(draws: Seq<usize>, counts: Seq<u64>, len: nat) -> bool {
    &&& valid_draws(draws, len)
    &&& counts.len() == len
    &&& forall|k: int| 1 <= k < len ==> #[trigger] range_result(draws[k] as u64, (k + 1) as u64, counts[k], counts[k - 1])
}

/// Applies the exchanges of a Fisher-Yates shuffle with the given draws,
/// from the last position down to position 1.
pub fn apply_swaps<T>(slice: &mut [T], draws: &[usize])
    requires
        valid_draws(draws@, old(slice)@.len()),
    ensures
        final(slice)@ == fisher_yates(old(slice)@, draws@),
        final(slice)@.to_multiset() == old(slice)@.to_multiset(),
        final(slice)@.len() == old(slice)@.len(),
{
    let len = slice.len();
    if len <= 1 {
        return;
    }
    let ghost s0 = slice@;
    let mut i: usize = len - 1;
    while i >= 1
        invariant
            slice@.len() == len,
            len == s0.len(),
            len > 1,
            0 <= i < len,
            valid_draws(draws@, len as nat),
            fisher_yates_from(slice@, draws@, i as nat) == fisher_yates_from(s0, draws@, (len - 1) as nat),
            slice@.to_multiset() == s0.to_multiset(),
        decreases i,
    {
        let j = draws[i];
        assert(draws@[i as int] <= i);
        proof {
            lemma_swap_to_multiset(slice@, i as int, j as int);
        }
        let ghost before = slice@;
        slice.swap(i, j);
        assert(slice@ == swap_at(before, i as int, j as int));
        assert(fisher_yates_from(before, draws@, i as nat)
            == fisher_yates_from(slice@, draws@, (i - 1) as nat));
        i = i - 1;
    }
}

/// Shuffles `slice` in place (Fisher-Yates): the result is the shuffle of
/// the input under some valid draws, so a permutation of it. With no
/// generator available the slice is left as it is.
pub fn shuffle<T>(slice: &mut [T])
    requires
        old(slice)@.len() <= 0x8000_0000_0000_0000u64,
    ensures
        final(slice)@.to_multiset() == old(slice)@.to_multiset(),
        final(slice)@.len() == old(slice)@.len(),
        final(slice)@ == old(slice)@ || exists|d: Seq<usize>|
            valid_draws(d, old(slice)@.len()) && final(slice)@ == #[trigger] fisher_yates(old(slice)@, d),
        final(slice)@ == old(slice)@ || exists|d: Seq<usize>, c: Seq<u64>| #![trigger shuffle_draws(d, c, old(slice)@.len())]
            shuffle_draws(d, c, old(slice)@.len()) && final(slice)@ == fisher_yates(old(slice)@, d),
{
    let len = slice.len();
    if len <= 1 {
        return;
    }
    match SecureRandom::new() {
        Err(_) => {},
        Ok(mut rng) => {
            let mut draws: Vec<usize> = vec![0usize; len];
            let ghost mut c: Seq<u64> = Seq::new(len as nat, |k: int| 0u64).update(len - 1, rng.generated_count());
            let mut i: usize = len - 1;
            while i >= 1
                invariant
                    rng.wf(),
                    draws@.len() == len,
                    c.len() == len,
                    len <= 0x8000_0000_0000_0000u64,
                    0 <= i < len,
                    c[i as int] == rng.generated_count(),
                    forall|k: int| i < k < len ==> #[trigger] draws@[k] <= k,
                    forall|k: int| i < k < len ==> #[trigger] range_result(draws@[k] as u64, (k + 1) as u64, c[k], c[k - 1]),
                decreases i,
            {
                let ghost before = rng.generated_count();
                let j = rng.gen_range((i + 1) as u64);
                assert(j < i + 1);
                proof {
                    assert(range_result(j, (i + 1) as u64, before, rng.generated_count()));
                    c = c.update(i - 1, rng.generated_count());
                }
                draws.set(i, j as usize);
                assert(draws@[i as int] as u64 == j);
                i = i - 1;
            }
            assert(valid_draws(draws@, len as nat));
            assert(shuffle_draws(draws@, c, len as nat));
            apply_swaps(slice, draws.as_slice());
        },
    }
}

/// The character that the alphanumeric alphabet
/// "A..Z a..z 0..9" holds at position `i`.
pub open spec fn alphanumeric_char(i: int) -> char {
    if i < 26 {
        (65 + i) as char
    } else if i < 52 {
        (97 + (i - 26)) as char
    } else {
        (48 + (i - 52)) as char
    }
}

/// Whether `c` is an ASCII letter or digit.
pub open spec fn is_alphanumeric_ascii(c: char) -> bool {
    ('A' <= c <= 'Z') || ('a' <= c <= 'z') || ('0' <= c <= '9')
}

fn alphanumeric_byte(i: usize) -> (b: u8)
    requires
        i < 62,
    ensures
        b as int == alphanumeric_char(i as int) as int,
{
    let charset: [u8; 62] = [
        65, 66, 67, 68, 69, 70, 71, 72, 73, 74, 75, 76, 77, 78, 79, 80, 81, 82, 83, 84, 85, 86, 87, 88, 89, 90,
        97, 98, 99, 100, 101, 102, 103, 104, 105, 106, 107, 108, 109, 110, 111, 112, 113, 114, 115, 116, 117,
        118, 119, 120, 121, 122,
        48, 49, 50, 51, 52, 53, 54, 55, 56, 57,
    ];
    assert(charset@ =~= Seq::new(62, |k: int| alphanumeric_char(k) as u8));
    charset[i]
}

/// The string of alphabet positions `draws`.
pub open spec fn alphanumeric_of(draws: Seq<u64>) -> Seq<char> {
    Seq::new(draws.len(), |i: int| alphanumeric_char(draws[i] as int))
}

/// `len` copies of '0'.
pub open spec fn zeros_text(len: nat) -> Seq<char> {
    Seq::new(len, |i: int| '0')
}

/// The string `random_alphanumeric` builds from the result of setting up a
/// generator: with a generator, `len` characters at positions below 62 of
/// the alphabet, each drawn with `gen_range(62)`; without one, `len` copies
/// of '0'.
pub fn alphanumeric_from(generator: CryptoResult<SecureRandom>, len: usize) -> (r: String)
    requires
        generator matches Ok(g) ==> g.wf(),
    ensures
        generator is Err ==> r@ == zeros_text(len as nat),
        generator is Ok ==> exists|d: Seq<u64>| d.len() == len && (forall|i: int| 0 <= i < len ==> d[i] < 62)
            && r@ == #[trigger] alphanumeric_of(d),
        generator matches Ok(g) ==> exists|d: Seq<u64>, c: Seq<u64>| {
            &&& d.len() == len
            &&& c.len() == len + 1
            &&& c[0] == g.generated_count()
            &&& forall|i: int| 0 <= i < len ==> #[trigger] range_result(d[i], 62, c[i], c[i + 1])
            &&& r@ == alphanumeric_of(d)
        },
{
    let mut out = String::new();
    match generator {
        Ok(mut rng) => {
            let ghost mut d: Seq<u64> = Seq::empty();
            let ghost mut c: Seq<u64> = seq![rng.generated_count()];
            let ghost g0 = rng;
            let mut i: usize = 0;
            while i < len
                invariant
                    rng.wf(),
                    0 <= i <= len,
                    d.len() == i,
                    c.len() == i + 1,
                    c[0] == g0.generated_count(),
                    c[i as int] == rng.generated_count(),
                    forall|k: int| 0 <= k < i ==> d[k] < 62,
                    forall|k: int| 0 <= k < i ==> #[trigger] range_result(d[k], 62, c[k], c[k + 1]),
                    out@ == alphanumeric_of(d),
                decreases len - i,
            {
                let idx = rng.gen_range(62);
                proof {
                    c = c.push(rng.generated_count());
                    assert(range_result(idx, 62, c[i as int], c[i + 1]));
                }
                let b = alphanumeric_byte(idx as usize);
                let c = b as char;
                assert(c == alphanumeric_char(idx as int));
                out.push(c);
                proof {
                    d = d.push(idx);
                }
                assert(out@ =~= alphanumeric_of(d));
                i = i + 1;
            }
            out
        },
        Err(_) => {
            let mut i: usize = 0;
            while i < len
                invariant
                    0 <= i <= len,
                    out@ == zeros_text(i as nat),
                decreases len - i,
            {
                out.push('0');
                assert(out@ =~= zeros_text((i + 1) as nat));
                i = i + 1;
            }
            out
        },
    }
}

/// A random string of `len` ASCII letters and digits; when no generator can
/// be set up, `len` copies of '0'.
pub fn random_alphanumeric(len: usize) -> (r: String)
    ensures
        r@.len() == len,
        forall|i: int| 0 <= i < len ==> is_alphanumeric_ascii(#[trigger] r@[i]),
        r@ == zeros_text(len as nat) || exists|d: Seq<u64>| d.len() == len
            && (forall|i: int| 0 <= i < len ==> d[i] < 62) && r@ == #[trigger] alphanumeric_of(d),
{
    let r = alphanumeric_from(SecureRandom::new(), len);
    proof {
        if r@ != zeros_text(len as nat) {
            let d = choose|d: Seq<u64>| d.len() == len && (forall|i: int| 0 <= i < len ==> d[i] < 62)
                && r@ == #[trigger] alphanumeric_of(d);
            assert forall|i: int| 0 <= i < len implies is_alphanumeric_ascii(#[trigger] r@[i]) by {
                assert(r@[i] == alphanumeric_char(d[i] as int));
            }
        } else {
            assert forall|i: int| 0 <= i < len implies is_alphanumeric_ascii(#[trigger] r@[i]) by {
                assert(r@[i] == '0');
            }
        }
    }
    r
}

/// The entropy check on a sample: it fails when every byte is zero or when
/// fewer than eight distinct byte values occur.
pub open spec fn sample_has_entropy(sample: Seq<u8>) -> bool {
    !(forall|i: int| 0 <= i < sample.len() ==> sample[i] == 0) && sample.to_set().len() >= 8
}

/// Judges a 32-byte sample as `check_entropy` does.
pub fn entropy_verdict(buf: &[u8; 32]) -> (r: CryptoResult<()>)
    ensures
        r == (if sample_has_entropy(buf@) { Ok(()) } else { Err(CryptoError::InsufficientEntropy) }),
{
    broadcast use vstd::std_specs::hash::group_hash_axioms;
    let mut all_zero = true;
    let mut seen: std::collections::HashSet<u8> = std::collections::HashSet::new();
    let mut i: usize = 0;
    while i < 32
        invariant
            0 <= i <= 32,
            all_zero == (forall|k: int| 0 <= k < i ==> buf@[k] == 0),
            seen@ == buf@.subrange(0, i as int).to_set(),
        decreases 32 - i,
    {
        if buf[i] != 0 {
            all_zero = false;
        }
        seen.insert(buf[i]);
        assert(buf@.subrange(0, i + 1).to_set() =~= buf@.subrange(0, i as int).to_set().insert(buf@[i as int])) by {
            assert forall|x: u8| #[trigger] buf@.subrange(0, i + 1).contains(x) <==>
                (buf@.subrange(0, i as int).contains(x) || x == buf@[i as int]) by {
                if buf@.subrange(0, i + 1).contains(x) {
                    let k = choose|k: int| 0 <= k < i + 1 && #[trigger] buf@.subrange(0, i + 1)[k] == x;
                    if k < i {
                        assert(buf@.subrange(0, i as int)[k] == x);
                    }
                }
                if buf@.subrange(0, i as int).contains(x) {
                    let k = choose|k: int| 0 <= k < i && #[trigger] buf@.subrange(0, i as int)[k] == x;
                    assert(buf@.subrange(0, i + 1)[k] == x);
                }
                if x == buf@[i as int] {
                    assert(buf@.subrange(0, i + 1)[i as int] == x);
                }
            }
        }
        i = i + 1;
    }
    assert(buf@.subrange(0, 32) =~= buf@);
    if all_zero {
        return Err(CryptoError::InsufficientEntropy);
    }
    if seen.len() < 8 {
        return Err(CryptoError::InsufficientEntropy);
    }
    Ok(())
}

/// Draws 32 random bytes and judges them with `entropy_verdict`; when no
/// generator can be set up the all-zero buffer is judged, and fails.
pub fn check_entropy() -> (r: CryptoResult<()>)
    ensures
        r matches Err(e) ==> e == CryptoError::InsufficientEntropy,
        exists|s: Seq<u8>| (s == Seq::new(32, |i: int| 0u8) || is_draw(s, 32)) && r == #[trigger] entropy_result(s),
{
    let mut buf = [0u8; 32];
    assert(buf@ =~= Seq::new(32, |i: int| 0u8));
    random_bytes(&mut buf);
    let r = entropy_verdict(&buf);
    assert(r == entropy_result(buf@));
    r
}

} // verus!
