//! Heap byte buffer for secret material.
//!
//! The buffer is zero-initialized and wiped on drop. Whether its pages are
//! pinned against swapping is recorded in `locked`: pinning is an OS call
//! (`mlock`/`VirtualLock`) made by the platform layer, which reports the
//! outcome through `set_locked` and must unpin the buffer before it is
//! dropped.

use vstd::prelude::*;
use crate::backend::zeroize_vec_contents;
use crate::random::decimal_digits;

verus! {

/// Heap-allocated byte buffer for secrets, wiped on drop.
pub struct SecureMemory {
    data: Vec<u8>,
    locked: bool,
}

impl View for SecureMemory {
    type V = Seq<u8>;

    closed spec fn view(&self) -> Seq<u8> {
        self.data@
    }
}

/// The debug text of a buffer: its length and lock state, never its bytes.
pub open spec fn redacted_text(len: nat, locked: bool) -> Seq<char> {
    "SecureMemory { len: "@ + decimal_digits(len).map_values(|d: u8| d as char)
        + ", locked: "@ + (if locked { "true"@ } else { "false"@ }) + ", .. }"@
}

fn push_str(out: &mut String, s: &str)
    ensures
        final(out)@ == old(out)@ + s@,
{
    out.append(s);
}

impl SecureMemory {
    /// Whether the buffer is recorded as pinned against swapping.
    pub closed spec fn is_pinned(&self) -> bool {
        self.locked
    }

    /// A zeroed buffer of `size` bytes, not yet pinned.
    pub fn new(size: usize) -> (r: Self)
        ensures
            r@ == Seq::new(size as nat, |i: int| 0u8),
            !r.is_pinned(),
    {
        if size == 0 {
            return SecureMemory { data: Vec::new(), locked: false };
        }
        let data: Vec<u8> = vec![0u8; size];
        SecureMemory { data, locked: false }
    }

    /// A buffer holding a copy of `bytes`, not yet pinned; `None` when
    /// `bytes` is empty (an empty buffer is made explicitly with `new(0)`).
    pub fn from_bytes(bytes: &[u8]) -> (r: Option<Self>)
        ensures
            bytes@.len() == 0 <==> r is None,
            r matches Some(m) ==> m@ == bytes@ && !m.is_pinned(),
    {
        if bytes.len() == 0 {
            return None;
        }
        let mut me = Self::new(bytes.len());
        let mut i: usize = 0;
        while i < bytes.len()
            invariant
                0 <= i <= bytes@.len(),
                me.data@.len() == bytes@.len(),
                forall|j: int| 0 <= j < i ==> me.data@[j] == bytes@[j],
                !me.locked,
            decreases bytes@.len() - i,
        {
            me.data.set(i, bytes[i]);
            i = i + 1;
        }
        assert(me.data@ =~= bytes@);
        Some(me)
    }

    /// Immutable view.
    pub fn as_slice(&self) -> (r: &[u8])
        ensures
            r@ == self@,
    {
        self.data.as_slice()
    }

    /// Mutable view; writes through it become the buffer's contents.
    pub fn as_mut_slice(&mut self) -> (r: &mut [u8])
        ensures
            r@ == old(self)@,
            final(self)@ == final(r)@,
            final(self).is_pinned() == old(self).is_pinned(),
    {
        self.data.as_mut_slice()
    }

    /// Length in bytes.
    pub fn len(&self) -> (r: usize)
        ensures
            r == self@.len(),
    {
        self.data.len()
    }

    /// True if the buffer holds zero bytes.
    pub fn is_empty(&self) -> (r: bool)
        ensures
            r == (self@.len() == 0),
    {
        self.data.len() == 0
    }

    /// Whether the buffer is currently pinned against swap.
    pub fn is_locked(&self) -> (r: bool)
        ensures
            r == self.is_pinned(),
    {
        self.locked
    }

    /// Records the outcome of pinning (or unpinning) the buffer's pages.
    /// An empty buffer is never pinned.
    pub fn set_locked(&mut self, locked: bool)
        ensures
            final(self)@ == old(self)@,
            final(self).is_pinned() == (locked && old(self)@.len() > 0),
    {
        self.locked = locked && self.data.len() > 0;
    }

    /// The debug text: length and lock state, never the contents.
    pub fn redacted_debug(&self) -> (r: String)
        ensures
            r@ == redacted_text(self@.len(), self.is_pinned()),
    {
        let mut out = String::new();
        push_str(&mut out, "SecureMemory { len: ");
        let digits = crate::random::decimal_bytes(self.data.len());
        let mut i: usize = 0;
        let ghost start = out@;
        while i < digits.len()
            invariant
                0 <= i <= digits@.len(),
                out@ == start + digits@.subrange(0, i as int).map_values(|d: u8| d as char),
            decreases digits@.len() - i,
        {
            out.push(digits[i] as char);
            assert(digits@.subrange(0, i + 1).map_values(|d: u8| d as char)
                =~= digits@.subrange(0, i as int).map_values(|d: u8| d as char).push(digits@[i as int] as char));
            i = i + 1;
        }
        assert(digits@.subrange(0, digits@.len() as int) =~= digits@);
        push_str(&mut out, ", locked: ");
        if self.locked {
            push_str(&mut out, "true");
        } else {
            push_str(&mut out, "false");
        }
        push_str(&mut out, ", .. }");
        out
    }
}

impl Drop for SecureMemory {
    fn drop(&mut self)
        opens_invariants none
        no_unwind
    {
        zeroize_vec_contents(&mut self.data);
    }
}

} // verus!
