//! Decisions of the hybrid (P2P-first, relay-fallback) router: the message
//! size guard, the peer cap, the screening of peers found by discovery, and
//! the construction of the signed envelopes sent through the relay.

use vstd::prelude::*;
use crate::backend::{hex_encode, hex_encode_spec};
use crate::error::{ProtocolError, ProtocolResult};
use crate::metadata::SignedEnvelope;
use crate::p2p::{is_valid_peer_addr, peer_addr_ok, DiscoveredPeer};

verus! {

/// Largest number of active P2P peers; a flood of discovery announcements
/// cannot grow the peer table past it.
pub const MAX_ACTIVE_PEERS: usize = 500;

/// Largest plaintext that `send_message` accepts (64 MiB).
pub const MAX_MESSAGE_BYTES: usize = 64 * 1024 * 1024;

/// The size guard of `send_message`: a plaintext above `MAX_MESSAGE_BYTES`
/// is `InvalidArgument`, before anything is allocated.
pub fn check_message_size(len: usize) -> (r: ProtocolResult<()>)
    ensures
        r == (if len > MAX_MESSAGE_BYTES {
            Err::<(), ProtocolError>(ProtocolError::InvalidArgument)
        } else {
            Ok(())
        }),
{
    if len > MAX_MESSAGE_BYTES {
        return Err(ProtocolError::InvalidArgument);
    }
    Ok(())
}

/// Whether one more peer may be registered while `active_peers` are.
pub fn peer_slot_available(active_peers: usize) -> (r: bool)
    ensures
        r == (active_peers < MAX_ACTIVE_PEERS),
{
    active_peers < MAX_ACTIVE_PEERS
}

/// Session tokens already acted on by the discovery loop.
pub struct SeenSessions {
    tokens: Vec<String>,
}

impl SeenSessions {
    /// The set of tokens seen.
    pub closed spec fn view_set(&self) -> Set<Seq<char>> {
        Set::new(|t: Seq<char>| exists|i: int| 0 <= i < self.tokens@.len() && #[trigger] self.tokens@[i]@ == t)
    }

    /// No token seen yet.
    pub fn new() -> (r: Self)
        ensures
            r.view_set() == Set::<Seq<char>>::empty(),
    {
        let r = SeenSessions { tokens: Vec::new() };
        assert(r.view_set() =~= Set::<Seq<char>>::empty());
        r
    }

    /// Whether `token` was seen.
    pub fn contains(&self, token: &String) -> (r: bool)
        ensures
            r == self.view_set().contains(token@),
    {
        let mut i: usize = 0;
        while i < self.tokens.len()
            invariant
                0 <= i <= self.tokens@.len(),
                forall|k: int| 0 <= k < i ==> #[trigger] self.tokens@[k]@ != token@,
            decreases self.tokens@.len() - i,
        {
            if self.tokens[i] == *token {
                assert(self.tokens@[i as int]@ == token@);
                return true;
            }
            i = i + 1;
        }
        false
    }

    /// Adds `token`; returns whether it was new (as `HashSet::insert` does).
    pub fn insert(&mut self, token: &String) -> (r: bool)
        ensures
            r == !old(self).view_set().contains(token@),
            final(self).view_set() == old(self).view_set().insert(token@),
    {
        if self.contains(token) {
            assert(self.view_set() =~= self.view_set().insert(token@));
            return false;
        }
        let ghost before = self.tokens@;
        self.tokens.push(token.clone());
        proof {
            assert forall|t: Seq<char>| #[trigger] self.view_set().contains(t) == old(self).view_set().insert(token@).contains(t) by {
                if old(self).view_set().contains(t) {
                    let i = choose|i: int| 0 <= i < before.len() && #[trigger] before[i]@ == t;
                    assert(self.tokens@[i]@ == t);
                }
                if t == token@ {
                    assert(self.tokens@[before.len() as int]@ == t);
                }
                if self.view_set().contains(t) {
                    let i = choose|i: int| 0 <= i < self.tokens@.len() && #[trigger] self.tokens@[i]@ == t;
                    if i < before.len() {
                        assert(before[i]@ == t);
                    }
                }
            }
            assert(self.view_set() =~= old(self).view_set().insert(token@));
        }
        true
    }
}

/// What the discovery loop does with a discovered peer.
#[derive(Debug, Clone, Copy, PartialEq, Eq, Structural)]
pub enum DiscoveryVerdict {
    /// The advertised address is not safe to dial.
    InvalidAddress,
    /// The peer table is full.
    PeerCapReached,
    /// The session token was already acted on.
    AlreadySeen,
    /// Dial the peer.
    Connect,
}

/// The verdict on a peer, and the tokens seen afterwards: the address is
/// checked first, then the peer cap; then the token is recorded, and a token
/// recorded before is not dialled again.
pub open spec fn discovery_step(seen: Set<Seq<char>>, addr_ok: bool, token: Seq<char>, active_peers: int)
    -> (DiscoveryVerdict, Set<Seq<char>>)
{
    if !addr_ok {
        (DiscoveryVerdict::InvalidAddress, seen)
    } else if active_peers >= MAX_ACTIVE_PEERS {
        (DiscoveryVerdict::PeerCapReached, seen)
    } else if seen.contains(token) {
        (DiscoveryVerdict::AlreadySeen, seen)
    } else {
        (DiscoveryVerdict::Connect, seen.insert(token))
    }
}

/// Screens a peer found by discovery (see `discovery_step`).
pub fn screen_discovered_peer(seen: &mut SeenSessions, peer: &DiscoveredPeer, active_peers: usize) -> (r: DiscoveryVerdict)
    ensures
        ({
            let (verdict, after) = discovery_step(old(seen).view_set(), peer_addr_ok(peer.addr), peer.session_token@,
                active_peers as int);
            &&& r == verdict
            &&& final(seen).view_set() == after
        }),
{
    if !is_valid_peer_addr(&peer.addr) {
        return DiscoveryVerdict::InvalidAddress;
    }
    if !peer_slot_available(active_peers) {
        return DiscoveryVerdict::PeerCapReached;
    }
    if !seen.insert(&peer.session_token) {
        return DiscoveryVerdict::AlreadySeen;
    }
    DiscoveryVerdict::Connect
}

/// Each session token is dialled at most once: after a peer is screened, its
/// token is among those seen unless the address or the cap stopped it, and a
/// peer whose token was seen is never dialled.
pub proof fn lemma_session_dialled_once(seen: Set<Seq<char>>, addr_ok: bool, token: Seq<char>, active_peers: int,
    addr_ok2: bool, active_peers2: int)
    ensures
        discovery_step(seen, addr_ok, token, active_peers).0 == DiscoveryVerdict::Connect
            ==> discovery_step(seen, addr_ok, token, active_peers).1.contains(token),
        discovery_step(discovery_step(seen, addr_ok, token, active_peers).1, addr_ok2, token, active_peers2).0
            == DiscoveryVerdict::Connect ==> discovery_step(seen, addr_ok, token, active_peers).0 != DiscoveryVerdict::Connect,
        seen.contains(token) ==> discovery_step(seen, addr_ok2, token, active_peers2).0 != DiscoveryVerdict::Connect,
{
}

impl SignedEnvelope {
    /// The envelope the router sends through the relay, before it is signed:
    /// recipient, ciphertext, sender key and message ID hex-encoded, the
    /// given timestamp, not compressed, and an empty signature.
    pub fn unsigned_for_relay(recipient_id: &[u8], ciphertext: &[u8], sender_public: &[u8], timestamp: i64,
        message_id: &[u8; 16], is_dummy: bool) -> (r: SignedEnvelope)
        ensures
            r.recipient_id@ == hex_encode_spec(recipient_id@),
            r.payload_hex@ == hex_encode_spec(ciphertext@),
            r.sender_id@ == hex_encode_spec(sender_public@),
            r.timestamp == timestamp,
            r.message_id@ == hex_encode_spec(message_id@),
            r.signature_hex@ == Seq::<char>::empty(),
            !r.compressed,
            r.is_dummy == is_dummy,
    {
        SignedEnvelope {
            recipient_id: hex_encode(recipient_id),
            payload_hex: hex_encode(ciphertext),
            sender_id: hex_encode(sender_public),
            timestamp,
            message_id: hex_encode(message_id),
            signature_hex: String::new(),
            compressed: false,
            is_dummy,
        }
    }

    /// Stores the hex of `signature` as the envelope's signature.
    pub fn attach_signature(&mut self, signature: &[u8])
        ensures
            final(self).signature_hex@ == hex_encode_spec(signature@),
            final(self).recipient_id@ == old(self).recipient_id@,
            final(self).payload_hex@ == old(self).payload_hex@,
            final(self).sender_id@ == old(self).sender_id@,
            final(self).timestamp == old(self).timestamp,
            final(self).message_id@ == old(self).message_id@,
            final(self).compressed == old(self).compressed,
            final(self).is_dummy == old(self).is_dummy,
    {
        self.signature_hex = hex_encode(signature);
    }
}

} // verus!
