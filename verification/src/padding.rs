//! Message padding against size leakage.
//!
//! Padded format: `[prefix_len (1) | prefix_noise (1..=8) | plaintext |
//! random padding | padding length (2, little-endian)]`. The padded length is
//! a multiple of the mode's block size; on top of the minimum padding that
//! reaches the next block boundary, 0 to `MAX_EXTRA_BLOCKS` whole blocks of
//! random padding are added, so equal plaintext lengths need not give equal
//! padded lengths.

use vstd::prelude::*;
use crate::error::{CryptoResult, ProtocolError, ProtocolResult};
use crate::random::SecureRandom;

verus! {

/// Padding strategies for different privacy/performance tradeoffs.
#[derive(Debug, Clone, Copy, PartialEq, Eq, Structural)]
pub enum PaddingMode {
    /// No padding: the exact message size shows.
    NoPadding,
    /// 256-byte blocks.
    Small,
    /// 1024-byte blocks (the default).
    Standard,
    /// 4096-byte blocks.
    Large,
    /// 16384-byte blocks.
    Maximum,
    /// 65536-byte blocks.
    Quantum,
    /// A custom block size (a power of two, at least 64).
    Custom(usize),
}

/// Smallest overhead of the padded format: prefix length, one noise byte,
/// two length bytes.
pub const PADDING_MIN_OVERHEAD: usize = 1 + 1 + 2;

/// The standard block size.
pub const BLOCK_SIZE_STANDARD: usize = 1024;

/// Largest padding length the two-byte length field can hold.
pub const MAX_PADDING_BYTES: usize = 65535;

/// Largest number of extra whole blocks of random padding.
pub const MAX_EXTRA_BLOCKS: usize = 7;

/// Block size of a mode.
pub open spec fn block_size_of(mode: PaddingMode) -> nat {
    match mode {
        PaddingMode::NoPadding => 1,
        PaddingMode::Small => 256,
        PaddingMode::Standard => 1024,
        PaddingMode::Large => 4096,
        PaddingMode::Maximum => 16384,
        PaddingMode::Quantum => 65536,
        PaddingMode::Custom(n) => n as nat,
    }
}

/// A custom block size must be a power of two of at least 64; the other
/// modes are always acceptable.
pub open spec fn mode_is_valid(mode: PaddingMode) -> bool {
    match mode {
        PaddingMode::Custom(n) => n != 0 && vstd::arithmetic::power2::is_pow2(n as int) && n >= 64,
        _ => true,
    }
}

/// Bytes needed to bring `total` up to the next multiple of `block`.
pub open spec fn min_pad_len(total: nat, block: nat) -> nat {
    if total % block == 0 { 0 } else { (block - total % block) as nat }
}

/// Largest number of extra blocks: the padding must stay within
/// `MAX_PADDING_BYTES`, and at most `MAX_EXTRA_BLOCKS` are added.
pub open spec fn extra_block_cap(min_pad: nat, block: nat) -> nat {
    let budget: nat = if min_pad > 65535 { 0 } else { (65535 - min_pad) as nat };
    let by_budget: nat = budget / block;
    if by_budget < 7 { by_budget } else { 7 }
}

/// The padded buffer built from its parts.
pub open spec fn padded_layout(plaintext: Seq<u8>, noise: Seq<u8>, fill: Seq<u8>) -> Seq<u8> {
    seq![noise.len() as u8] + noise + plaintext + fill + seq![(fill.len() % 256) as u8, (fill.len() / 256) as u8]
}

/// The parts of a padding of `plaintext` to blocks of `block` bytes: 1 to 8
/// noise bytes, the minimum padding to the block boundary plus `extra`
/// whole blocks, within the cap.
pub open spec fn well_padded(plaintext: Seq<u8>, block: nat, noise: Seq<u8>, fill: Seq<u8>, extra: nat) -> bool {
    let min_total: nat = 3 + noise.len() + plaintext.len();
    let min_pad = min_pad_len(min_total, block);
    &&& block > 0
    &&& 1 <= noise.len() <= 8
    &&& extra <= extra_block_cap(min_pad, block)
    &&& fill.len() == min_pad + extra * block
    &&& fill.len() <= 65535
}

/// What `unpad_message` recovers from a buffer, or `None` when it rejects it.
pub open spec fn spec_unpad(p: Seq<u8>) -> Option<Seq<u8>> {
    if p.len() < 4 {
        None
    } else {
        let prefix_len = p[0] as int;
        if !(1 <= prefix_len <= 8) || 1 + prefix_len + 2 > p.len() {
            None
        } else {
            let pad_len = p[p.len() - 2] as int + 256 * (p[p.len() - 1] as int);
            if 1 + prefix_len + pad_len + 2 > p.len() {
                None
            } else {
                Some(p.subrange(1 + prefix_len, p.len() - pad_len - 2))
            }
        }
    }
}

/// Roundtrip law: unpadding a well-formed padding recovers the plaintext,
/// and the padded length is a multiple of the block size.
pub proof fn lemma_pad_unpad_roundtrip(plaintext: Seq<u8>, block: nat, noise: Seq<u8>, fill: Seq<u8>, extra: nat)
    requires
        well_padded(plaintext, block, noise, fill, extra),
    ensures
        spec_unpad(padded_layout(plaintext, noise, fill)) == Some(plaintext),
        padded_layout(plaintext, noise, fill).len() % block == 0,
        padded_layout(plaintext, noise, fill).len() == 3 + noise.len() + plaintext.len() + fill.len(),
{
    let p = padded_layout(plaintext, noise, fill);
    let nl = noise.len() as int;
    let fl = fill.len() as int;
    let n = p.len() as int;
    assert(n == 3 + nl + plaintext.len() + fl);
    assert(p[0] == noise.len() as u8);
    assert(p[n - 2] == (fl % 256) as u8);
    assert(p[n - 1] == (fl / 256) as u8);
    assert((fl % 256) as u8 as int + 256 * ((fl / 256) as u8 as int) == fl) by {
        assert(0 <= fl / 256 < 256);
    }
    assert(p.subrange(1 + nl, n - fl - 2) =~= plaintext);
    let mt: int = 3 + nl + plaintext.len();
    let b = block as int;
    let mp = min_pad_len(mt as nat, block) as int;
    assert((mt + mp) % b == 0) by {
        vstd::arithmetic::div_mod::lemma_fundamental_div_mod(mt, b);
        if mt % b != 0 {
            assert(mt + mp == b * (mt / b + 1)) by (nonlinear_arith)
                requires mt == b * (mt / b) + mt % b, mp == b - mt % b;
            vstd::arithmetic::div_mod::lemma_mod_multiples_basic(mt / b + 1, b);
            assert((mt / b + 1) * b == b * (mt / b + 1)) by (nonlinear_arith);
        } else {
            assert(mt + mp == mt);
        }
    }
    assert((mt + mp + extra * b) % b == 0) by {
        vstd::arithmetic::div_mod::lemma_mod_multiples_vanish(extra as int, mt + mp, b);
        assert(extra * b == b * extra) by (nonlinear_arith);
    }
}

impl PaddingMode {
    /// Returns the block size in bytes for this mode.
    pub fn block_size(&self) -> (r: usize)
        ensures
            r as nat == block_size_of(*self),
    {
        match self {
            PaddingMode::NoPadding => 1,
            PaddingMode::Small => 256,
            PaddingMode::Standard => 1024,
            PaddingMode::Large => 4096,
            PaddingMode::Maximum => 16384,
            PaddingMode::Quantum => 65536,
            PaddingMode::Custom(n) => *n,
        }
    }

    /// Returns true if padding is enabled for this mode.
    pub fn is_enabled(&self) -> (r: bool)
        ensures
            r == !(*self is NoPadding),
    {
        !matches!(self, PaddingMode::NoPadding)
    }
}

pub(crate) fn append_bytes(out: &mut Vec<u8>, bytes: &[u8])
    ensures
        final(out)@ == old(out)@ + bytes@,
{
    let mut i: usize = 0;
    let ghost start = out@;
    while i < bytes.len()
        invariant
            0 <= i <= bytes@.len(),
            out@ == start + bytes@.subrange(0, i as int),
        decreases bytes@.len() - i,
    {
        out.push(bytes[i]);
        assert(start + bytes@.subrange(0, i + 1) =~= start + bytes@.subrange(0, i as int) + seq![bytes@[i as int]]);
        i = i + 1;
    }
    assert(bytes@.subrange(0, bytes@.len() as int) =~= bytes@);
}

/// Pads `plaintext` with randomness drawn from `rng`.
///
/// Without padding the plaintext comes back unchanged. An invalid custom
/// block size, or a padding length beyond `MAX_PADDING_BYTES` (possible only
/// for blocks above 65536 bytes), is `InvalidArgument`. Otherwise the result
/// is a well-formed padding of the plaintext.
pub fn pad_message_with_rng(plaintext: &[u8], mode: PaddingMode, rng: &mut SecureRandom) -> (r: ProtocolResult<Vec<u8>>)
    requires
        old(rng).wf(),
        plaintext@.len() <= usize::MAX - 65546,
    ensures
        final(rng).wf(),
        mode is NoPadding ==> (r matches Ok(out) && out@ == plaintext@),
        !(mode is NoPadding) && mode_is_valid(mode) && block_size_of(mode) <= 65536 ==> r is Ok,
        r matches Err(e) ==> e == ProtocolError::InvalidArgument && (!mode_is_valid(mode) || block_size_of(mode) > 65536),
        !mode_is_valid(mode) ==> r == Err::<Vec<u8>, ProtocolError>(ProtocolError::InvalidArgument),
        !(mode is NoPadding) ==> (r matches Ok(out) ==> exists|noise: Seq<u8>, fill: Seq<u8>, extra: nat|
            #[trigger] well_padded(plaintext@, block_size_of(mode), noise, fill, extra)
            && padded_layout(plaintext@, noise, fill) == out@),
        !(mode is NoPadding) ==> (r matches Ok(out) ==> spec_unpad(out@) == Some(plaintext@)
            && out@.len() % block_size_of(mode) == 0),
{
    if !mode.is_enabled() {
        return Ok(vstd::slice::slice_to_vec(plaintext));
    }

    // 1. Random prefix noise of 1 to 8 bytes.
    let prefix_len = (rng.next_u32() % 8 + 1) as usize;
    let prefix_noise = rng.gen_bytes(prefix_len);

    let block = mode.block_size();

    // A custom block size must be a power of two of at least 64 bytes.
    if let PaddingMode::Custom(n) = mode {
        if n == 0 || !n.is_power_of_two() || n < 64 {
            return Err(ProtocolError::InvalidArgument);
        }
    }
    let min_total = 1 + prefix_len + plaintext.len() + 2;

    // 2. Minimum trailing bytes to reach the block boundary.
    let remainder = min_total % block;
    let min_pad_len = if remainder == 0 { 0 } else { block - remainder };

    // 3. 0 to MAX_EXTRA_BLOCKS extra whole blocks, within the length field.
    let max_blocks_for_budget = MAX_PADDING_BYTES.saturating_sub(min_pad_len) / block;
    let cap = if max_blocks_for_budget < MAX_EXTRA_BLOCKS { max_blocks_for_budget } else { MAX_EXTRA_BLOCKS };
    let extra_blocks = (rng.next_u32() % (cap as u32 + 1)) as usize;
    proof {
        assert(extra_blocks * block <= cap * block) by (nonlinear_arith)
            requires extra_blocks <= cap;
        assert(cap * block <= max_blocks_for_budget * block) by (nonlinear_arith)
            requires cap <= max_blocks_for_budget;
        vstd::arithmetic::div_mod::lemma_fundamental_div_mod(
            MAX_PADDING_BYTES.saturating_sub(min_pad_len) as int, block as int);
        assert(max_blocks_for_budget * block <= MAX_PADDING_BYTES.saturating_sub(min_pad_len)) by (nonlinear_arith)
            requires
                max_blocks_for_budget == MAX_PADDING_BYTES.saturating_sub(min_pad_len) / block,
                block > 0;
    }
    let pad_len = min_pad_len + extra_blocks * block;

    if pad_len > MAX_PADDING_BYTES {
        return Err(ProtocolError::InvalidArgument);
    }

    let total = min_total + pad_len;
    let mut output: Vec<u8> = Vec::with_capacity(total);

    // Layout: prefix length, noise, plaintext, random padding, padding length.
    output.push(prefix_len as u8);
    append_bytes(&mut output, prefix_noise.as_slice());
    append_bytes(&mut output, plaintext);

    // 4. Random trailing padding.
    let mut fill: Vec<u8> = Vec::new();
    if pad_len > 0 {
        fill = rng.gen_bytes(pad_len);
        append_bytes(&mut output, fill.as_slice());
    }

    // 5. Two-byte little-endian padding length.
    let lo = (pad_len & 0xFF) as u8;
    let hi = (pad_len >> 8) as u8;
    assert(lo == (pad_len % 256) as u8 && hi == (pad_len / 256) as u8) by (bit_vector)
        requires pad_len <= 65535usize, lo == (pad_len & 0xFF) as u8, hi == (pad_len >> 8) as u8;
    output.push(lo);
    output.push(hi);

    proof {
        assert(output@ =~= padded_layout(plaintext@, prefix_noise@, fill@));
        assert(well_padded(plaintext@, block as nat, prefix_noise@, fill@, extra_blocks as nat));
        lemma_pad_unpad_roundtrip(plaintext@, block as nat, prefix_noise@, fill@, extra_blocks as nat);
    }
    Ok(output)
}

/// Pad a plaintext message according to the specified mode.
///
/// Without padding the plaintext comes back unchanged. Otherwise a fresh
/// generator supplies the randomness (`InternalError` when none can be set
/// up) and the result is as for `pad_message_with_rng`.
pub fn pad_message(plaintext: &[u8], mode: PaddingMode) -> (r: ProtocolResult<Vec<u8>>)
    requires
        plaintext@.len() <= usize::MAX - 65546,
    ensures
        mode is NoPadding ==> (r matches Ok(out) && out@ == plaintext@),
        r matches Err(e) ==> e == ProtocolError::InternalError
            || (e == ProtocolError::InvalidArgument && (!mode_is_valid(mode) || block_size_of(mode) > 65536)),
        !mode_is_valid(mode) ==> r == Err::<Vec<u8>, ProtocolError>(ProtocolError::InvalidArgument)
            || r == Err::<Vec<u8>, ProtocolError>(ProtocolError::InternalError),
        !(mode is NoPadding) ==> (r matches Ok(out) ==> exists|noise: Seq<u8>, fill: Seq<u8>, extra: nat|
            #[trigger] well_padded(plaintext@, block_size_of(mode), noise, fill, extra)
            && padded_layout(plaintext@, noise, fill) == out@),
        !(mode is NoPadding) ==> (r matches Ok(out) ==> spec_unpad(out@) == Some(plaintext@)
            && out@.len() % block_size_of(mode) == 0),
{
    if !mode.is_enabled() {
        return Ok(vstd::slice::slice_to_vec(plaintext));
    }
    pad_message_from(plaintext, mode, SecureRandom::new())
}

/// Pads `plaintext` with the generator that was set up for it: no generator
/// is `InternalError`; with one, the result is as for
/// `pad_message_with_rng`, `Ok` for every valid mode of at most 65536-byte
/// blocks.
pub fn pad_message_from(plaintext: &[u8], mode: PaddingMode, generator: CryptoResult<SecureRandom>)
    -> (r: ProtocolResult<Vec<u8>>)
    requires
        generator matches Ok(g) ==> g.wf(),
        plaintext@.len() <= usize::MAX - 65546,
        !(mode is NoPadding),
    ensures
        generator is Err ==> r == Err::<Vec<u8>, ProtocolError>(ProtocolError::InternalError),
        generator is Ok && mode_is_valid(mode) && block_size_of(mode) <= 65536 ==> r is Ok,
        generator is Ok && !mode_is_valid(mode) ==> r == Err::<Vec<u8>, ProtocolError>(ProtocolError::InvalidArgument),
        generator is Ok ==> (r matches Err(e) ==> e == ProtocolError::InvalidArgument
            && (!mode_is_valid(mode) || block_size_of(mode) > 65536)),
        r matches Ok(out) ==> exists|noise: Seq<u8>, fill: Seq<u8>, extra: nat|
            #[trigger] well_padded(plaintext@, block_size_of(mode), noise, fill, extra)
            && padded_layout(plaintext@, noise, fill) == out@,
        r matches Ok(out) ==> spec_unpad(out@) == Some(plaintext@) && out@.len() % block_size_of(mode) == 0,
{
    match generator {
        Ok(mut rng) => pad_message_with_rng(plaintext, mode, &mut rng),
        Err(_) => Err(ProtocolError::InternalError),
    }
}

/// Remove padding from a decrypted message.
pub fn unpad_message(padded: &[u8]) -> (r: ProtocolResult<Vec<u8>>)
    ensures
        r matches Ok(v) ==> spec_unpad(padded@) == Some(v@),
        r matches Err(e) ==> spec_unpad(padded@) is None && e == ProtocolError::InvalidMessage,
{
    if padded.len() < PADDING_MIN_OVERHEAD {
        return Err(ProtocolError::InvalidMessage);
    }

    // Prefix length from the start.
    let prefix_len = padded[0] as usize;
    if !(1 <= prefix_len && prefix_len <= 8) || 1 + prefix_len + 2 > padded.len() {
        return Err(ProtocolError::InvalidMessage);
    }

    // Two-byte little-endian padding length from the end.
    let lo = padded[padded.len() - 2] as usize;
    let hi = padded[padded.len() - 1] as usize;
    let pad_len = lo | (hi << 8);
    assert(pad_len == lo + 256 * hi) by (bit_vector)
        requires lo < 256usize, hi < 256usize, pad_len == lo | (hi << 8);

    let total_overhead = 1 + prefix_len + pad_len + 2;
    if total_overhead > padded.len() {
        return Err(ProtocolError::InvalidMessage);
    }

    let plaintext_len = padded.len() - total_overhead;
    let start = 1 + prefix_len;
    let end = start + plaintext_len;

    let body = vstd::slice::slice_subrange(padded, start, end);
    Ok(vstd::slice::slice_to_vec(body))
}

} // verus!
