//! Unified secure storage: the on-disk blob frame and its authenticated
//! manifest.
//!
//! Blob file: `MAGIC (8) || SALT (32) || ENCRYPTED_PAYLOAD`. Manifest file:
//! `version (4, LE) || sequence_number (8, LE) || blob_hash (32) ||
//! manifest_mac (32)`, where `blob_hash` is SHA-256 of the encrypted payload
//! and `manifest_mac` is HMAC-SHA256, under the storage key, of
//! `version || sequence_number || blob_hash`. The manifest stops a party with
//! write access to the files but without the key from rolling back to an
//! older blob.

use vstd::prelude::*;
use vstd::bytes::{spec_u32_to_le_bytes, spec_u64_to_le_bytes, spec_u32_from_le_bytes, spec_u64_from_le_bytes,
    lemma_auto_spec_u32_to_from_le_bytes, lemma_auto_spec_u64_to_from_le_bytes};
use crate::backend::{sha256, sha256_of_two, hmac_sha256, hmac_sha256_tag, ct_eq_bytes};
use crate::error::{ProtocolError, ProtocolResult};
use crate::padding::append_bytes;

verus! {

/// Sidecar written beside the encrypted blob.
#[derive(Debug, Clone, Copy)]
pub struct StorageManifest {
    pub version: u32,
    pub sequence_number: u64,
    pub blob_hash: [u8; 32],
    pub manifest_mac: [u8; 32],
}

/// Unified secure storage handler.
pub struct SecureStorage;

/// Size of an encoded manifest.
pub const MANIFEST_SIZE: usize = 76;

/// Format identifier at the start of the blob file: "SIBNA001".
pub open spec fn storage_magic() -> Seq<u8> {
    seq![83u8, 73, 66, 78, 65, 48, 48, 49]
}

/// The input of the manifest MAC.
pub open spec fn manifest_mac_input(version: u32, sequence_number: u64, blob_hash: Seq<u8>) -> Seq<u8> {
    spec_u32_to_le_bytes(version) + spec_u64_to_le_bytes(sequence_number) + blob_hash
}

/// `m` is the manifest for the given payload under `key`: its hash is that
/// of the payload and its MAC authenticates version, sequence number and hash.
pub open spec fn manifest_describes(m: StorageManifest, key: Seq<u8>, encrypted: Seq<u8>) -> bool {
    &&& m.blob_hash@ == sha256(encrypted)
    &&& m.manifest_mac@ == hmac_sha256(key, manifest_mac_input(m.version, m.sequence_number, m.blob_hash@))
}

/// The outcome of checking a manifest against the key and the payload read.
pub open spec fn manifest_check(m: StorageManifest, key: Seq<u8>, encrypted: Seq<u8>) -> ProtocolResult<()> {
    if m.manifest_mac@ != hmac_sha256(key, manifest_mac_input(m.version, m.sequence_number, m.blob_hash@)) {
        Err(ProtocolError::StorageError)
    } else if m.blob_hash@ != sha256(encrypted) {
        Err(ProtocolError::StorageError)
    } else {
        Ok(())
    }
}

/// The 76-byte encoding of a manifest (fixed-width little-endian fields in
/// declaration order).
pub open spec fn manifest_bytes(m: StorageManifest) -> Seq<u8> {
    spec_u32_to_le_bytes(m.version) + spec_u64_to_le_bytes(m.sequence_number) + m.blob_hash@ + m.manifest_mac@
}

/// The blob file for a salt and an encrypted payload.
pub open spec fn blob_frame(salt: Seq<u8>, encrypted: Seq<u8>) -> Seq<u8> {
    storage_magic() + salt + encrypted
}

fn copy_array_32(data: &[u8], start: usize) -> (r: [u8; 32])
    requires
        start + 32 <= data@.len(),
    ensures
        r@ == data@.subrange(start as int, start + 32),
{
    let mut out = [0u8; 32];
    let n = data.len();
    let mut i: usize = 0;
    while i < 32
        invariant
            0 <= i <= 32,
            start + 32 <= data@.len(),
            n == data@.len(),
            forall|j: int| 0 <= j < i ==> out@[j] == data@[start + j],
        decreases 32 - i,
    {
        out[i] = data[start + i];
        i = i + 1;
    }
    assert(out@ =~= data@.subrange(start as int, start + 32));
    out
}

fn magic_bytes() -> (r: Vec<u8>)
    ensures
        r@ == storage_magic(),
{
    let v: Vec<u8> = vec![83u8, 73, 66, 78, 65, 48, 48, 49];
    assert(v@ =~= storage_magic());
    v
}

impl SecureStorage {
    /// Current storage format version.
    pub const CURRENT_VERSION: u32 = 1;

    /// HMAC-SHA256 under the storage key of
    /// `version || sequence_number || blob_hash`.
    pub fn manifest_mac(encryption_key: &[u8; 32], version: u32, sequence_number: u64, blob_hash: &[u8; 32]) -> (r: [u8; 32])
        ensures
            r@ == hmac_sha256(encryption_key@, manifest_mac_input(version, sequence_number, blob_hash@)),
    {
        let mut mac_input: Vec<u8> = Vec::with_capacity(4 + 8 + 32);
        let v = vstd::bytes::u32_to_le_bytes(version);
        append_bytes(&mut mac_input, v.as_slice());
        let s = vstd::bytes::u64_to_le_bytes(sequence_number);
        append_bytes(&mut mac_input, s.as_slice());
        append_bytes(&mut mac_input, blob_hash);
        hmac_sha256_tag(encryption_key, mac_input.as_slice())
    }

    /// The manifest of an encrypted payload: its SHA-256 and the MAC.
    pub fn build_manifest(encryption_key: &[u8; 32], version: u32, sequence_number: u64, encrypted: &[u8]) -> (r: StorageManifest)
        ensures
            r.version == version,
            r.sequence_number == sequence_number,
            manifest_describes(r, encryption_key@, encrypted@),
    {
        let empty: [u8; 0] = [];
        let blob_hash = sha256_of_two(encrypted, &empty);
        assert(encrypted@ + empty@ =~= encrypted@);
        let manifest_mac = Self::manifest_mac(encryption_key, version, sequence_number, &blob_hash);
        StorageManifest { version, sequence_number, blob_hash, manifest_mac }
    }

    /// Checks a manifest against the storage key and the payload read from
    /// the blob: a MAC that does not authenticate the manifest (replaced or
    /// rolled-back manifest) or a hash that does not match the payload
    /// (tampered blob) is `StorageError`.
    pub fn verify_manifest(manifest: &StorageManifest, encryption_key: &[u8; 32], encrypted: &[u8]) -> (r: ProtocolResult<()>)
        ensures
            r == manifest_check(*manifest, encryption_key@, encrypted@),
    {
        let expected_mac = Self::manifest_mac(encryption_key, manifest.version, manifest.sequence_number, &manifest.blob_hash);
        if !ct_eq_bytes(&manifest.manifest_mac, &expected_mac) {
            return Err(ProtocolError::StorageError);
        }
        let empty: [u8; 0] = [];
        let actual_hash = sha256_of_two(encrypted, &empty);
        assert(encrypted@ + empty@ =~= encrypted@);
        if !ct_eq_bytes(&manifest.blob_hash, &actual_hash) {
            return Err(ProtocolError::StorageError);
        }
        Ok(())
    }

    /// Rollback protection: a payload whose sequence number is below the
    /// manifest's is `StorageError`.
    pub fn check_sequence(payload_sequence: u64, manifest: &StorageManifest) -> (r: ProtocolResult<()>)
        ensures
            r == (if payload_sequence < manifest.sequence_number {
                Err::<(), ProtocolError>(ProtocolError::StorageError)
            } else {
                Ok(())
            }),
    {
        if payload_sequence < manifest.sequence_number {
            return Err(ProtocolError::StorageError);
        }
        Ok(())
    }

    /// The blob file: `MAGIC || salt || encrypted payload`.
    pub fn frame_blob(salt: &[u8; 32], encrypted: &[u8]) -> (r: Vec<u8>)
        ensures
            r@ == blob_frame(salt@, encrypted@),
    {
        let mut out = magic_bytes();
        append_bytes(&mut out, salt);
        append_bytes(&mut out, encrypted);
        out
    }

    /// Splits a blob file into salt and encrypted payload. A file too short
    /// for the magic, with the wrong magic, or too short for the salt is
    /// `StorageError`.
    pub fn parse_blob(data: &[u8]) -> (r: ProtocolResult<([u8; 32], Vec<u8>)>)
        ensures
            data@.len() < 40 || data@.subrange(0, 8) != storage_magic()
                ==> r == Err::<([u8; 32], Vec<u8>), ProtocolError>(ProtocolError::StorageError),
            data@.len() >= 40 && data@.subrange(0, 8) == storage_magic() ==> (r matches Ok(p)
                && p.0@ == data@.subrange(8, 40) && p.1@ == data@.subrange(40, data@.len() as int)),
            r matches Ok(p) ==> data@ == blob_frame(p.0@, p.1@),
    {
        if data.len() < 8 {
            return Err(ProtocolError::StorageError);
        }
        let magic = magic_bytes();
        let head = vstd::slice::slice_subrange(data, 0, 8);
        if !ct_eq_bytes(head, magic.as_slice()) {
            return Err(ProtocolError::StorageError);
        }
        if data.len() < 40 {
            return Err(ProtocolError::StorageError);
        }
        let salt = copy_array_32(data, 8);
        let encrypted = vstd::slice::slice_to_vec(vstd::slice::slice_subrange(data, 40, data.len()));
        assert(data@ =~= blob_frame(salt@, encrypted@));
        Ok((salt, encrypted))
    }

    /// The 76-byte encoding of a manifest.
    pub fn encode_manifest(manifest: &StorageManifest) -> (r: Vec<u8>)
        ensures
            r@ == manifest_bytes(*manifest),
    {
        let mut out: Vec<u8> = Vec::with_capacity(MANIFEST_SIZE);
        let v = vstd::bytes::u32_to_le_bytes(manifest.version);
        append_bytes(&mut out, v.as_slice());
        let s = vstd::bytes::u64_to_le_bytes(manifest.sequence_number);
        append_bytes(&mut out, s.as_slice());
        append_bytes(&mut out, &manifest.blob_hash);
        append_bytes(&mut out, &manifest.manifest_mac);
        out
    }

    /// Decodes a manifest from the first 76 bytes; shorter input is
    /// `DeserializationError`.
    pub fn decode_manifest(data: &[u8]) -> (r: ProtocolResult<StorageManifest>)
        ensures
            data@.len() < 76 ==> r == Err::<StorageManifest, ProtocolError>(ProtocolError::DeserializationError),
            data@.len() >= 76 ==> (r matches Ok(m) && manifest_bytes(m) == data@.subrange(0, 76)),
    {
        if data.len() < MANIFEST_SIZE {
            return Err(ProtocolError::DeserializationError);
        }
        proof {
            lemma_auto_spec_u32_to_from_le_bytes();
            lemma_auto_spec_u64_to_from_le_bytes();
        }
        let version = vstd::bytes::u32_from_le_bytes(vstd::slice::slice_subrange(data, 0, 4));
        let sequence_number = vstd::bytes::u64_from_le_bytes(vstd::slice::slice_subrange(data, 4, 12));
        let blob_hash = copy_array_32(data, 12);
        let manifest_mac = copy_array_32(data, 44);
        let m = StorageManifest { version, sequence_number, blob_hash, manifest_mac };
        assert(spec_u32_to_le_bytes(version) == data@.subrange(0, 4));
        assert(spec_u64_to_le_bytes(sequence_number) == data@.subrange(4, 12));
        assert(manifest_bytes(m) =~= data@.subrange(0, 76));
        Ok(m)
    }
}

/// Roundtrip law of the manifest encoding.
pub proof fn lemma_manifest_bytes_roundtrip(m: StorageManifest, m2: StorageManifest)
    requires
        manifest_bytes(m2) == manifest_bytes(m).subrange(0, 76),
    ensures
        manifest_bytes(m).len() == 76,
        m2 == m,
{
    lemma_auto_spec_u32_to_from_le_bytes();
    lemma_auto_spec_u64_to_from_le_bytes();
    let b = manifest_bytes(m);
    let b2 = manifest_bytes(m2);
    assert(b.subrange(0, 76) =~= b);
    assert(b2.subrange(0, 4) =~= spec_u32_to_le_bytes(m2.version));
    assert(b.subrange(0, 4) =~= spec_u32_to_le_bytes(m.version));
    assert(b2.subrange(4, 12) =~= spec_u64_to_le_bytes(m2.sequence_number));
    assert(b.subrange(4, 12) =~= spec_u64_to_le_bytes(m.sequence_number));
    assert(spec_u32_from_le_bytes(spec_u32_to_le_bytes(m2.version)) == m2.version);
    assert(spec_u64_from_le_bytes(spec_u64_to_le_bytes(m2.sequence_number)) == m2.sequence_number);
    assert(m2.blob_hash@ =~= b2.subrange(12, 44));
    assert(m.blob_hash@ =~= b.subrange(12, 44));
    assert(m2.manifest_mac@ =~= b2.subrange(44, 76));
    assert(m.manifest_mac@ =~= b.subrange(44, 76));
    assert(m2.blob_hash == m.blob_hash);
    assert(m2.manifest_mac == m.manifest_mac);
}

/// A manifest built for a payload passes the check against that payload
/// under the same key.
pub proof fn lemma_built_manifest_verifies(m: StorageManifest, key: Seq<u8>, encrypted: Seq<u8>)
    requires
        manifest_describes(m, key, encrypted),
    ensures
        manifest_check(m, key, encrypted) == Ok::<(), ProtocolError>(()),
{
}

/// A framed blob parses back to its salt and payload.
pub proof fn lemma_blob_frame_roundtrip(salt: Seq<u8>, encrypted: Seq<u8>)
    requires
        salt.len() == 32,
    ensures
        blob_frame(salt, encrypted).len() >= 40,
        blob_frame(salt, encrypted).subrange(0, 8) == storage_magic(),
        blob_frame(salt, encrypted).subrange(8, 40) == salt,
        blob_frame(salt, encrypted).subrange(40, blob_frame(salt, encrypted).len() as int) == encrypted,
{
    let b = blob_frame(salt, encrypted);
    assert(b.subrange(0, 8) =~= storage_magic());
    assert(b.subrange(8, 40) =~= salt);
    assert(b.subrange(40, b.len() as int) =~= encrypted);
}

} // verus!
