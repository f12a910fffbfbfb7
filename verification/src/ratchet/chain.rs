//! Symmetric-key chain of the Double Ratchet.
//!
//! Each step derives a message key as HMAC-SHA256(chain key, 0x01) and the
//! next chain key as HMAC-SHA256(chain key, 0x02); a chain yields at most
//! `max_messages` keys.

use vstd::prelude::*;
use crate::backend::{hmac_sha256, hmac_sha256_tag, zeroize_slice};
use crate::clock::current_timestamp;
use crate::error::{CryptoError, CryptoResult};
use super::MAX_SKIPPED_MESSAGES;

verus! {

/// Seed byte of message-key derivation.
pub const MESSAGE_KEY_SEED: u8 = 0x01;
/// Seed byte of chain-key derivation.
pub const CHAIN_KEY_SEED: u8 = 0x02;
/// Seed byte of header-key derivation.
pub const HEADER_KEY_SEED: u8 = 0x03;

/// Default per-chain message limit: twice the skipped-message window, so
/// that a peer skipping the whole window cannot exhaust the chain.
pub const DEFAULT_MAX_MESSAGES: u64 = 4000;

/// Largest age in seconds of a chain that does not need rotation.
pub const MAX_CHAIN_AGE_SECS: u64 = 86400;

/// The key derived from chain key `key` with seed byte `seed`.
pub open spec fn derived_key(key: Seq<u8>, seed: u8) -> Seq<u8> {
    hmac_sha256(key, seq![seed])
}

/// A sending or receiving chain.
pub struct ChainKey {
    pub key: [u8; 32],
    pub index: u64,
    pub created_at: u64,
    pub max_messages: u64,
    pub reserved_until: u64,
}

/// The default chain limit covers the whole skipped-message window.
pub proof fn lemma_default_chain_covers_skip_window()
    ensures
        DEFAULT_MAX_MESSAGES >= MAX_SKIPPED_MESSAGES,
{
}

/// A fresh chain created at time `t` has age 0 at `t` and does not need
/// rotation for a day after `t`; after that it does. Together with
/// `new_from_reading` (a chain made from a clock reading `t` is created at
/// `t`) this says that a freshly made chain is young.
pub proof fn lemma_fresh_chain_needs_no_rotation(key: [u8; 32], t: u64, later: u64)
    ensures
        ({
            let c = ChainKey { key, index: 0, created_at: t, max_messages: DEFAULT_MAX_MESSAGES,
                reserved_until: DEFAULT_MAX_MESSAGES };
            &&& c.age_at(t) == 0
            &&& !c.rotation_due_at(t)
            &&& (t <= later <= t + MAX_CHAIN_AGE_SECS ==> !c.rotation_due_at(later))
            &&& (later > t + MAX_CHAIN_AGE_SECS ==> c.rotation_due_at(later))
        }),
{
}

impl ChainKey {
    /// The default per-chain message limit.
    pub const DEFAULT_MAX_MESSAGES: u64 = 4000;

    /// A fresh chain on `key` created at time `now`.
    pub fn new_at(key: [u8; 32], now: u64) -> (r: Self)
        ensures
            r.key == key,
            r.index == 0,
            r.created_at == now,
            r.max_messages == DEFAULT_MAX_MESSAGES,
            r.reserved_until == DEFAULT_MAX_MESSAGES,
    {
        ChainKey {
            key,
            index: 0,
            created_at: now,
            max_messages: DEFAULT_MAX_MESSAGES,
            reserved_until: DEFAULT_MAX_MESSAGES,
        }
    }

    /// A fresh chain on `key` for a clock reading: created at the reading
    /// when the clock is usable, at 0 when it is not.
    pub fn new_from_reading(key: [u8; 32], reading: CryptoResult<u64>) -> (r: Self)
        ensures
            r.key == key,
            r.index == 0,
            r.max_messages == DEFAULT_MAX_MESSAGES,
            r.reserved_until == DEFAULT_MAX_MESSAGES,
            reading matches Ok(t) ==> r.created_at == t,
            reading is Err ==> r.created_at == 0,
    {
        let created_at = match reading {
            Ok(t) => t,
            Err(_) => 0,
        };
        Self::new_at(key, created_at)
    }

    /// A fresh chain on `key`, stamped with the current time (0 when the
    /// clock is unusable); see `new_from_reading`.
    pub fn new(key: [u8; 32]) -> (r: Self)
        ensures
            r.key == key,
            r.index == 0,
            r.max_messages == DEFAULT_MAX_MESSAGES,
            r.reserved_until == DEFAULT_MAX_MESSAGES,
    {
        Self::new_from_reading(key, current_timestamp())
    }

    /// A fresh chain on `key` that yields at most `max_messages` keys.
    pub fn with_max_messages(key: [u8; 32], max_messages: u64) -> (r: Self)
        ensures
            r.key == key,
            r.index == 0,
            r.max_messages == max_messages,
            r.reserved_until == max_messages,
    {
        let mut ck = Self::new(key);
        ck.max_messages = max_messages;
        ck.reserved_until = max_messages;
        ck
    }

    /// Derives the next message key and advances the chain; `None` once the
    /// chain has yielded `max_messages` keys (the chain is then unchanged).
    pub fn next_message_key(&mut self) -> (r: Option<[u8; 32]>)
        ensures
            old(self).index >= old(self).max_messages ==> r is None && *final(self) == *old(self),
            old(self).index < old(self).max_messages ==> {
                &&& r matches Some(mk) && mk@ == derived_key(old(self).key@, MESSAGE_KEY_SEED)
                &&& final(self).key@ == derived_key(old(self).key@, CHAIN_KEY_SEED)
                &&& final(self).index == old(self).index + 1
                &&& final(self).created_at == old(self).created_at
                &&& final(self).max_messages == old(self).max_messages
                &&& final(self).reserved_until == old(self).reserved_until
            },
    {
        if self.index >= self.max_messages {
            return None;
        }
        let message_key = match self.derive_key(MESSAGE_KEY_SEED) {
            Ok(k) => k,
            Err(_) => return None,
        };
        let next_chain = match self.derive_key(CHAIN_KEY_SEED) {
            Ok(k) => k,
            Err(_) => return None,
        };
        zeroize_slice(&mut self.key);
        self.key = next_chain;
        self.index = self.index + 1;
        Some(message_key)
    }

    /// The header key of the chain's current state.
    pub fn derive_header_key(&self) -> (r: Option<[u8; 32]>)
        ensures
            r matches Some(hk) && hk@ == derived_key(self.key@, HEADER_KEY_SEED),
    {
        match self.derive_key(HEADER_KEY_SEED) {
            Ok(k) => Some(k),
            Err(_) => None,
        }
    }

    fn derive_key(&self, seed: u8) -> (r: CryptoResult<[u8; 32]>)
        ensures
            r matches Ok(k) && k@ == derived_key(self.key@, seed),
    {
        let input: [u8; 1] = [seed];
        assert(input@ =~= seq![seed]);
        let out = hmac_sha256_tag(&self.key, &input);
        Ok(out)
    }

    /// Number of keys derived so far.
    pub fn index(&self) -> (r: u64)
        ensures
            r == self.index,
    {
        self.index
    }

    /// A copy of the current chain key.
    pub fn clone_key(&self) -> (r: [u8; 32])
        ensures
            r == self.key,
    {
        self.key
    }

    /// Keys still available before the chain is exhausted.
    pub fn remaining_messages(&self) -> (r: u64)
        ensures
            r == (if self.max_messages >= self.index { (self.max_messages - self.index) as u64 } else { 0 }),
    {
        self.max_messages.saturating_sub(self.index)
    }

    /// Age of the chain at time `now`.
    pub open spec fn age_at(&self, now: u64) -> u64 {
        if now >= self.created_at { (now - self.created_at) as u64 } else { 0 }
    }

    /// Whether the chain must be rotated at time `now`: it is exhausted or
    /// older than a day.
    pub open spec fn rotation_due_at(&self, now: u64) -> bool {
        self.index >= self.max_messages || self.age_at(now) > MAX_CHAIN_AGE_SECS
    }

    /// Age in seconds of the chain at the given time.
    pub fn age_secs_at(&self, now: u64) -> (r: u64)
        ensures
            r == self.age_at(now),
    {
        now.saturating_sub(self.created_at)
    }

    /// Age in seconds, read from the clock (an unusable clock counts as the
    /// creation time, giving 0).
    pub fn age_secs(&self) -> (r: u64)
        ensures
            exists|now: u64| r == self.age_at(now),
    {
        let now = match current_timestamp() {
            Ok(t) => t,
            Err(_) => self.created_at,
        };
        self.age_secs_at(now)
    }

    /// Whether the chain must be rotated at the given time.
    pub fn needs_rotation_at(&self, now: u64) -> (r: bool)
        ensures
            r == self.rotation_due_at(now),
    {
        self.index >= self.max_messages || self.age_secs_at(now) > MAX_CHAIN_AGE_SECS
    }

    /// Whether the chain must be rotated now: `needs_rotation_at` at the
    /// clock reading (an unusable clock counts as the creation time). An
    /// exhausted chain always needs rotation.
    pub fn needs_rotation(&self) -> (r: bool)
        ensures
            self.index >= self.max_messages ==> r,
            exists|now: u64| r == #[trigger] self.rotation_due_at(now),
    {
        let now = match current_timestamp() {
            Ok(t) => t,
            Err(_) => self.created_at,
        };
        self.needs_rotation_at(now)
    }

    /// Reserves the next `count` message numbers of a sending chain: the
    /// reservation ends `count` past the current index (saturating).
    pub fn reserve_nonces(&mut self, count: u64)
        ensures
            final(self).reserved_until == (if old(self).index + count > u64::MAX { u64::MAX } else {
                (old(self).index + count) as u64
            }),
            final(self).key == old(self).key,
            final(self).index == old(self).index,
            final(self).created_at == old(self).created_at,
            final(self).max_messages == old(self).max_messages,
    {
        self.reserved_until = self.index.saturating_add(count);
    }

    /// Moves the index of a sending chain past its reservation, so that no
    /// reserved message number is used twice after a restore. Returns whether
    /// the index moved.
    pub fn jump_to_reservation(&mut self) -> (r: bool)
        ensures
            r == (old(self).reserved_until > old(self).index),
            final(self).index == (if r { old(self).reserved_until } else { old(self).index }),
            final(self).key == old(self).key,
            final(self).reserved_until == old(self).reserved_until,
            final(self).created_at == old(self).created_at,
            final(self).max_messages == old(self).max_messages,
    {
        if self.reserved_until > self.index {
            self.index = self.reserved_until;
            true
        } else {
            false
        }
    }

    /// Wipes the key and resets the counters.
    pub fn zeroize(&mut self)
        ensures
            final(self).key@ == Seq::new(32, |i: int| 0u8),
            final(self).index == 0,
            final(self).reserved_until == 0,
            final(self).created_at == old(self).created_at,
            final(self).max_messages == old(self).max_messages,
        opens_invariants none
        no_unwind
    {
        zeroize_slice(&mut self.key);
        self.index = 0;
        self.reserved_until = 0;
    }
}

impl Drop for ChainKey {
    /// A chain key is wiped when it goes out of scope.
    fn drop(&mut self)
        opens_invariants none
        no_unwind
    {
        self.zeroize();
    }
}

impl Clone for ChainKey {
    fn clone(&self) -> (r: Self)
        ensures
            r == *self,
    {
        ChainKey {
            key: self.key,
            index: self.index,
            created_at: self.created_at,
            max_messages: self.max_messages,
            reserved_until: self.reserved_until,
        }
    }
}

} // verus!
