# sibna_core

The verified core of the Sibna secure messaging stack, written in Verus.

- `src/` is the library. Every function carries a `requires`/`ensures`
  contract that Verus proves; the laws that relate several functions are
  public proof functions (`lemma_*`). `src/backend.rs` holds the trusted
  specifications of the outside crates the library calls (RNG, HKDF, SHA-2,
  HMAC, ChaCha20-Poly1305, Ed25519, `subtle`, `zeroize`, `hex`, the clocks).
- `tests/` exercises the library with the real outside crates linked.
- `app/` is the unverified I/O around the library: serde forms of the wire
  types, `mlock` pinning of secret buffers, the storage files, mDNS
  discovery, the relay's queue entries, and cover-traffic timing.

Modules of the library:

| module | contents |
|---|---|
| `padding` | padded message format and its roundtrip law |
| `random` | `SecureRandom` (OS bytes combined with an entropy pool by HKDF), shuffling, entropy check |
| `secure_compare` | constant-time comparisons |
| `secure_memory` | wiped-on-drop secret buffer |
| `ratchet::chain` | chain keys: message and header key derivation, exhaustion, rotation |
| `ratchet` | header and message wire formats, header encryption |
| `metadata` | payload padding, signed envelopes |
| `storage` | blob frame and authenticated manifest (rollback protection) |
| `p2p` | peer-address screening, mDNS naming and service resolution |
| `routing` | the hybrid router's size guard, peer cap, discovery screening, relay envelopes |
| `relay` | the relay's envelope checks, deduplication, routing plans and queue policy |

Not here: the Double Ratchet session, the hybrid router's network loops and
the relay server's HTTP/WebSocket front end. Their sources rest on modules
that are not part of this code base (the ratchet state and KDF, the payload
cipher, the handshake and key store, the P2P node and relay client, the
server's authentication and rate limiting). What they decide and that can
be stated on its own is in `routing` and `relay`.
