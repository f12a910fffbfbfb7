//! Relay-side handling of sealed envelopes and WebRTC signals.
//!
//! The relay never sees plaintext: it checks the shape of an envelope,
//! drops duplicates by message ID, verifies the sender's Ed25519 signature,
//! stamps the envelope with its own time, and queues it for the recipient
//! (delivering at once when the recipient is connected). Queued items expire;
//! envelopes stay queued until acknowledged, WebRTC signals are dropped once
//! delivered.

use vstd::prelude::*;
use vstd::utf8::encode_utf8;
use vstd::bytes::{spec_u64_to_le_bytes, spec_u64_from_le_bytes};
use crate::backend::{hex_decode, hex_decode_spec, hex_value, ed25519_check, ed25519_key_valid, ed25519_verify};
use crate::padding::append_bytes;

verus! {

/// Query parameters of a WebSocket upgrade.
#[derive(Debug, Clone)]
pub struct WsQuery {
    /// JWT token for authentication.
    pub token: String,
}

/// Sealed envelope routed between clients.
#[derive(Debug, Clone)]
pub struct SealedEnvelope {
    /// Recipient identity key hex (32 bytes = 64 hex digits).
    pub recipient_id: String,
    /// Encrypted payload hex; the relay cannot read it.
    pub payload_hex: String,
    /// Whether the payload is compressed.
    pub compressed: bool,
    /// Unique message ID for deduplication.
    pub message_id: String,
    /// Timestamp (Unix seconds).
    pub timestamp: i64,
    /// Ed25519 signature hex of recipient_id || message_id || payload_hex.
    pub signature_hex: String,
}

/// WebRTC signalling message (encrypted SDP or ICE candidate).
#[derive(Debug, Clone)]
pub struct WebRtcSignal {
    pub recipient_id: String,
    pub payload_hex: String,
    pub signature_hex: String,
    pub timestamp: i64,
}

/// Messages on the WebSocket.
#[derive(Debug, Clone)]
pub enum WsMessage {
    Envelope(SealedEnvelope),
    Ack { message_id: String },
    WebRtc(WebRtcSignal),
}

/// Why the relay drops an incoming item.
#[derive(Debug, Clone, Copy, PartialEq, Eq, Structural)]
pub enum RouteDrop {
    InvalidMessageId,
    InvalidRecipient,
    OversizedPayload,
    Duplicate,
    BadSignature,
}

/// What the relay does with an incoming envelope: whether to evict an
/// expired dedup record, whether to record the message ID, and either the
/// stamped envelope to queue and deliver or the reason to drop it.
#[derive(Debug)]
pub struct RoutePlan {
    pub evict_dedup: bool,
    pub record_dedup: bool,
    pub outcome: Result<SealedEnvelope, RouteDrop>,
}

/// What the relay does with a queued item when its recipient connects.
#[derive(Debug, Clone, Copy, PartialEq, Eq, Structural)]
pub struct QueueAction {
    pub deliver: bool,
    pub delete: bool,
}

/// The kind of a queued item as read back from the queue.
#[derive(Debug, Clone, Copy, PartialEq, Eq, Structural)]
pub enum QueuedKind {
    Envelope,
    Signal,
    Unreadable,
}

/// Largest message ID in bytes.
pub const MAX_MESSAGE_ID_LEN: usize = 128;

/// Largest payload hex in bytes (20 MiB, a 10 MiB payload).
pub const MAX_PAYLOAD_HEX_LEN: usize = 20 * 1024 * 1024;

/// How long a dedup record stays live, in seconds.
pub const DEDUP_WINDOW_SECS: i64 = 48 * 3600;

/// How long a queued envelope is kept, in seconds.
pub const QUEUE_TTL_SECS: i64 = 7 * 86400;

/// How long a queued WebRTC signal is kept, in seconds.
pub const SIGNAL_TTL_SECS: i64 = 60;

/// The UTF-8 bytes of a string.
pub open spec fn text_bytes(s: String) -> Seq<u8> {
    encode_utf8(s@)
}

/// A recipient ID is 64 bytes, all hexadecimal digits.
pub open spec fn recipient_id_ok(id: Seq<u8>) -> bool {
    id.len() == 64 && forall|i: int| 0 <= i < id.len() ==> #[trigger] hex_value(id[i]) is Some
}

/// The big-endian value of eight bytes.
pub open spec fn u64_from_be(b: Seq<u8>) -> u64 {
    spec_u64_from_le_bytes(b.reverse())
}

/// A dedup record (an 8-byte big-endian timestamp) is live at `now` when
/// it is at most `DEDUP_WINDOW_SECS` old; records of any other size are
/// treated as expired.
pub open spec fn dedup_live(record: Seq<u8>, now: int) -> bool {
    record.len() == 8 && (u64_from_be(record) as i64) >= now - DEDUP_WINDOW_SECS
}

/// Whether `sig_hex` is a valid Ed25519 signature of `data` by the key whose
/// hex is `sender_hex`: both decode, the key is 32 bytes and a curve point,
/// the signature is 64 bytes, and it verifies.
pub open spec fn sender_signature_ok(sender_hex: Seq<u8>, data: Seq<u8>, sig_hex: Seq<u8>) -> bool {
    let key = hex_decode_spec(sender_hex);
    let sig = hex_decode_spec(sig_hex);
    &&& key is Some && key->Some_0.len() == 32
    &&& ed25519_key_valid(key->Some_0)
    &&& sig is Some && sig->Some_0.len() == 64
    &&& ed25519_verify(key->Some_0, data, sig->Some_0)
}

/// The bytes a sender signs for an envelope.
pub open spec fn envelope_signed_data(e: SealedEnvelope) -> Seq<u8> {
    text_bytes(e.recipient_id) + text_bytes(e.message_id) + text_bytes(e.payload_hex)
}

/// The bytes a sender signs for a WebRTC signal.
pub open spec fn signal_signed_data(s: WebRtcSignal) -> Seq<u8> {
    text_bytes(s.recipient_id) + text_bytes(s.payload_hex)
}

/// The reason an envelope fails the shape checks, if any.
pub open spec fn envelope_shape_error(e: SealedEnvelope) -> Option<RouteDrop> {
    if text_bytes(e.message_id).len() == 0 || text_bytes(e.message_id).len() > MAX_MESSAGE_ID_LEN {
        Some(RouteDrop::InvalidMessageId)
    } else if !recipient_id_ok(text_bytes(e.recipient_id)) {
        Some(RouteDrop::InvalidRecipient)
    } else if text_bytes(e.payload_hex).len() > MAX_PAYLOAD_HEX_LEN {
        Some(RouteDrop::OversizedPayload)
    } else {
        None
    }
}

fn bytes_all_hex(b: &[u8]) -> (r: bool)
    ensures
        r == (forall|i: int| 0 <= i < b@.len() ==> #[trigger] hex_value(b@[i]) is Some),
{
    let mut i: usize = 0;
    while i < b.len()
        invariant
            0 <= i <= b@.len(),
            forall|k: int| 0 <= k < i ==> #[trigger] hex_value(b@[k]) is Some,
        decreases b@.len() - i,
    {
        let c = b[i];
        let is_hex = (48 <= c && c <= 57) || (97 <= c && c <= 102) || (65 <= c && c <= 70);
        if !is_hex {
            assert(hex_value(b@[i as int]) is None);
            return false;
        }
        i = i + 1;
    }
    true
}

/// Checks the shape of an envelope: a message ID of 1 to 128 bytes, a
/// recipient ID of 64 hexadecimal digits, a payload hex of at most
/// `MAX_PAYLOAD_HEX_LEN` bytes.
pub fn check_envelope_shape(e: &SealedEnvelope) -> (r: Option<RouteDrop>)
    ensures
        r == envelope_shape_error(*e),
{
    let mid = e.message_id.as_str().as_bytes();
    if mid.len() == 0 || mid.len() > MAX_MESSAGE_ID_LEN {
        return Some(RouteDrop::InvalidMessageId);
    }
    let rid = e.recipient_id.as_str().as_bytes();
    if rid.len() != 64 || !bytes_all_hex(rid) {
        return Some(RouteDrop::InvalidRecipient);
    }
    let payload = e.payload_hex.as_str().as_bytes();
    if payload.len() > MAX_PAYLOAD_HEX_LEN {
        return Some(RouteDrop::OversizedPayload);
    }
    None
}

/// Whether a dedup record is live at `now` (see `dedup_live`).
pub fn dedup_record_is_live(record: &[u8], now: i64) -> (r: bool)
    requires
        now >= i64::MIN + DEDUP_WINDOW_SECS,
    ensures
        r == dedup_live(record@, now as int),
{
    if record.len() != 8 {
        return false;
    }
    let mut le = [0u8; 8];
    let mut i: usize = 0;
    while i < 8
        invariant
            0 <= i <= 8,
            record@.len() == 8,
            forall|k: int| 0 <= k < i ==> le@[k] == record@[7 - k],
        decreases 8 - i,
    {
        le[i] = record[7 - i];
        i = i + 1;
    }
    assert(le@ =~= record@.reverse());
    let ts = vstd::bytes::u64_from_le_bytes(&le) as i64;
    ts >= now - DEDUP_WINDOW_SECS
}

/// The 8-byte big-endian dedup record of time `now`.
pub fn dedup_record(now: i64) -> (r: Vec<u8>)
    ensures
        r@ == spec_u64_to_le_bytes(now as u64).reverse(),
{
    let le = vstd::bytes::u64_to_le_bytes(now as u64);
    proof {
        vstd::bytes::lemma_auto_spec_u64_to_from_le_bytes();
    }
    let mut out: Vec<u8> = Vec::with_capacity(8);
    let mut i: usize = 0;
    while i < 8
        invariant
            0 <= i <= 8,
            le@.len() == 8,
            out@.len() == i,
            forall|k: int| 0 <= k < i ==> out@[k] == le@[7 - k],
        decreases 8 - i,
    {
        out.push(le[7 - i]);
        i = i + 1;
    }
    assert(out@ =~= le@.reverse());
    out
}

fn copy_array<const N: usize>(v: &Vec<u8>) -> (r: [u8; N])
    requires
        v@.len() == N,
    ensures
        r@ == v@,
{
    let mut out = [0u8; N];
    let mut i: usize = 0;
    while i < N
        invariant
            0 <= i <= N,
            v@.len() == N,
            forall|j: int| 0 <= j < i ==> out@[j] == v@[j],
        decreases N - i,
    {
        out[i] = v[i];
        i = i + 1;
    }
    assert(out@ =~= v@);
    out
}

/// Verifies a sender's signature (see `sender_signature_ok`).
pub fn verify_sender_signature(sender_id: &str, data: &[u8], signature_hex: &str) -> (r: bool)
    ensures
        r == sender_signature_ok(encode_utf8(sender_id@), data@, encode_utf8(signature_hex@)),
{
    let key_bytes = match hex_decode(sender_id.as_bytes()) {
        Some(b) => b,
        None => return false,
    };
    if key_bytes.len() != 32 {
        return false;
    }
    let key: [u8; 32] = copy_array(&key_bytes);
    let sig_bytes = match hex_decode(signature_hex.as_bytes()) {
        Some(b) => b,
        None => return false,
    };
    if sig_bytes.len() != 64 {
        return false;
    }
    let sig: [u8; 64] = copy_array(&sig_bytes);
    match ed25519_check(&key, data, &sig) {
        None => false,
        Some(ok) => ok,
    }
}

/// The plan for an envelope from `sender_id` given the dedup record stored
/// under its message ID (if any), at relay time `now`.
pub open spec fn route_plan_spec(sender_hex: Seq<u8>, e: SealedEnvelope, existing: Option<Seq<u8>>, now: int)
    -> (bool, bool, Result<SealedEnvelope, RouteDrop>)
{
    if envelope_shape_error(e) is Some {
        (false, false, Err(envelope_shape_error(e)->Some_0))
    } else if existing is Some && dedup_live(existing->Some_0, now) {
        (false, false, Err(RouteDrop::Duplicate))
    } else if !sender_signature_ok(sender_hex, envelope_signed_data(e), text_bytes(e.signature_hex)) {
        (existing is Some, true, Err(RouteDrop::BadSignature))
    } else {
        (existing is Some, true, Ok(SealedEnvelope { timestamp: now as i64, ..e }))
    }
}

fn push_str(out: &mut String, s: &str)
    ensures
        final(out)@ == old(out)@ + s@,
{
    out.append(s);
}

/// Plans the routing of an envelope from `sender_id`: shape checks first;
/// then a live dedup record drops it as a duplicate (an expired one is
/// evicted); the message ID is recorded before the signature is checked; an
/// envelope whose signature does not verify is dropped; otherwise it is
/// stamped with the relay's time, to be queued first and then delivered.
pub fn plan_route(sender_id: &str, envelope: SealedEnvelope, existing_dedup: Option<&[u8]>, now: i64) -> (r: RoutePlan)
    requires
        now >= i64::MIN + DEDUP_WINDOW_SECS,
    ensures
        ({
            let (evict, record, outcome) = route_plan_spec(encode_utf8(sender_id@), envelope,
                match existing_dedup { Some(d) => Some(d@), None => None }, now as int);
            &&& r.evict_dedup == evict
            &&& r.record_dedup == record
            &&& (outcome is Err <==> r.outcome is Err)
            &&& (outcome matches Err(d) ==> r.outcome == Err::<SealedEnvelope, RouteDrop>(d))
            &&& (outcome matches Ok(stamped) ==> (r.outcome matches Ok(out)
                && out.recipient_id@ == stamped.recipient_id@
                && out.payload_hex@ == stamped.payload_hex@
                && out.message_id@ == stamped.message_id@
                && out.signature_hex@ == stamped.signature_hex@
                && out.compressed == stamped.compressed
                && out.timestamp == stamped.timestamp))
        }),
{
    if let Some(reason) = check_envelope_shape(&envelope) {
        return RoutePlan { evict_dedup: false, record_dedup: false, outcome: Err(reason) };
    }
    let mut evict = false;
    if let Some(record) = existing_dedup {
        if dedup_record_is_live(record, now) {
            return RoutePlan { evict_dedup: false, record_dedup: false, outcome: Err(RouteDrop::Duplicate) };
        }
        evict = true;
    }
    let mut signed: Vec<u8> = Vec::new();
    append_bytes(&mut signed, envelope.recipient_id.as_str().as_bytes());
    append_bytes(&mut signed, envelope.message_id.as_str().as_bytes());
    append_bytes(&mut signed, envelope.payload_hex.as_str().as_bytes());
    assert(signed@ =~= envelope_signed_data(envelope));
    if !verify_sender_signature(sender_id, signed.as_slice(), envelope.signature_hex.as_str()) {
        return RoutePlan { evict_dedup: evict, record_dedup: true, outcome: Err(RouteDrop::BadSignature) };
    }
    let mut stamped = envelope;
    stamped.timestamp = now;
    RoutePlan { evict_dedup: evict, record_dedup: true, outcome: Ok(stamped) }
}

/// The plan for a WebRTC signal from the sender whose key hex is
/// `sender_hex`, at relay time `now`: a recipient ID that is not 64 bytes is
/// `InvalidRecipient`, a signature that does not verify is `BadSignature`,
/// and a signal that passes both is accepted, stamped with `now`.
pub open spec fn webrtc_plan_spec(sender_hex: Seq<u8>, signal: WebRtcSignal, now: i64) -> Result<WebRtcSignal, RouteDrop> {
    if text_bytes(signal.recipient_id).len() != 64 {
        Err(RouteDrop::InvalidRecipient)
    } else if !sender_signature_ok(sender_hex, signal_signed_data(signal), text_bytes(signal.signature_hex)) {
        Err(RouteDrop::BadSignature)
    } else {
        Ok(WebRtcSignal { timestamp: now, ..signal })
    }
}

/// Plans the routing of a WebRTC signal from `sender_id`: a recipient ID
/// that is not 64 bytes or a signature (over recipient_id || payload_hex)
/// that does not verify drops it; otherwise it is stamped with the relay's
/// time.
pub fn plan_webrtc(sender_id: &str, signal: WebRtcSignal, now: i64) -> (r: Result<WebRtcSignal, RouteDrop>)
    ensures
        text_bytes(signal.recipient_id).len() != 64 ==> r == Err::<WebRtcSignal, RouteDrop>(RouteDrop::InvalidRecipient),
        text_bytes(signal.recipient_id).len() == 64
            && !sender_signature_ok(encode_utf8(sender_id@), signal_signed_data(signal), text_bytes(signal.signature_hex))
            ==> r == Err::<WebRtcSignal, RouteDrop>(RouteDrop::BadSignature),
        r is Ok ==> text_bytes(signal.recipient_id).len() == 64
            && sender_signature_ok(encode_utf8(sender_id@), signal_signed_data(signal), text_bytes(signal.signature_hex)),
        r matches Ok(out) ==> out.recipient_id@ == signal.recipient_id@ && out.payload_hex@ == signal.payload_hex@
            && out.signature_hex@ == signal.signature_hex@ && out.timestamp == now,
        r == webrtc_plan_spec(encode_utf8(sender_id@), signal, now),
{
    if signal.recipient_id.as_str().as_bytes().len() != 64 {
        return Err(RouteDrop::InvalidRecipient);
    }
    let mut signed: Vec<u8> = Vec::new();
    append_bytes(&mut signed, signal.recipient_id.as_str().as_bytes());
    append_bytes(&mut signed, signal.payload_hex.as_str().as_bytes());
    assert(signed@ =~= signal_signed_data(signal));
    if !verify_sender_signature(sender_id, signed.as_slice(), signal.signature_hex.as_str()) {
        return Err(RouteDrop::BadSignature);
    }
    let mut stamped = signal;
    stamped.timestamp = now;
    Ok(stamped)
}

/// The action on a queued item of the given kind and expiry at `now`.
pub open spec fn queue_action_spec(kind: QueuedKind, expires: i64, now: i64) -> QueueAction {
    if now > expires {
        QueueAction { deliver: false, delete: true }
    } else {
        match kind {
            QueuedKind::Envelope => QueueAction { deliver: true, delete: false },
            QueuedKind::Signal => QueueAction { deliver: true, delete: true },
            QueuedKind::Unreadable => QueueAction { deliver: false, delete: false },
        }
    }
}

/// What to do with a queued item when its recipient connects: an expired
/// item is deleted undelivered; an envelope is delivered and kept until
/// acknowledged; a signal is delivered and deleted; an unreadable item is
/// left alone.
pub fn queued_item_action(kind: QueuedKind, expires: i64, now: i64) -> (r: QueueAction)
    ensures
        r == queue_action_spec(kind, expires, now),
        now > expires ==> !r.deliver && r.delete,
        now <= expires && kind is Envelope ==> r.deliver && !r.delete,
        now <= expires && kind is Signal ==> r.deliver && r.delete,
        kind is Unreadable ==> !r.deliver,
{
    if now > expires {
        return QueueAction { deliver: false, delete: true };
    }
    match kind {
        QueuedKind::Envelope => QueueAction { deliver: true, delete: false },
        QueuedKind::Signal => QueueAction { deliver: true, delete: true },
        QueuedKind::Unreadable => QueueAction { deliver: false, delete: false },
    }
}

/// What the HTTP inbox does with a queued item at `now`: an unreadable
/// item is left alone; an expired one is deleted undelivered; any other is
/// returned and deleted.
pub open spec fn inbox_action_spec(readable: bool, expires: i64, now: i64) -> QueueAction {
    if !readable {
        QueueAction { deliver: false, delete: false }
    } else if now > expires {
        QueueAction { deliver: false, delete: true }
    } else {
        QueueAction { deliver: true, delete: true }
    }
}

/// See `inbox_action_spec`.
pub fn inbox_item_action(readable: bool, expires: i64, now: i64) -> (r: QueueAction)
    ensures
        r == inbox_action_spec(readable, expires, now),
        !readable ==> !r.deliver && !r.delete,
        readable && now > expires ==> !r.deliver && r.delete,
        readable && now <= expires ==> r.deliver && r.delete,
{
    if !readable {
        return QueueAction { deliver: false, delete: false };
    }
    if now > expires {
        return QueueAction { deliver: false, delete: true };
    }
    QueueAction { deliver: true, delete: true }
}

/// Whether the hourly pruning pass deletes a dedup record at `now`: an
/// 8-byte record older than `DEDUP_WINDOW_SECS`. Records of any other size
/// are left in place.
pub fn dedup_record_is_stale(record: &[u8], now: i64) -> (r: bool)
    requires
        now >= i64::MIN + DEDUP_WINDOW_SECS,
    ensures
        r == (record@.len() == 8 && !dedup_live(record@, now as int)),
{
    record.len() == 8 && !dedup_record_is_live(record, now)
}

/// Shortest JWT signing secret accepted without complaint, in bytes.
pub const MIN_JWT_SECRET_LEN: usize = 32;

/// What the relay does about its JWT signing secret at start-up.
#[derive(Debug, Clone, Copy, PartialEq, Eq, Structural)]
pub enum JwtSecretChoice {
    /// Use the configured secret.
    UseConfigured,
    /// Use the configured secret although it is short, with a warning.
    UseShortConfigured,
    /// Refuse to start: the configured secret is too short for production.
    RefuseShort,
    /// Refuse to start: production needs a configured secret.
    RefuseMissing,
    /// Generate an ephemeral random secret (sessions end at restart).
    GenerateEphemeral,
}

/// The start-up policy on the JWT secret, given whether the deployment is
/// production and the length of the configured secret, if any: a secret of
/// at least `MIN_JWT_SECRET_LEN` bytes is used; a shorter one is refused in
/// production and used with a warning elsewhere; a missing one is refused
/// in production and replaced by an ephemeral one elsewhere.
pub open spec fn jwt_secret_choice_spec(is_production: bool, configured_len: Option<usize>) -> JwtSecretChoice {
    match configured_len {
        Some(n) => if n >= MIN_JWT_SECRET_LEN {
            JwtSecretChoice::UseConfigured
        } else if is_production {
            JwtSecretChoice::RefuseShort
        } else {
            JwtSecretChoice::UseShortConfigured
        },
        None => if is_production { JwtSecretChoice::RefuseMissing } else { JwtSecretChoice::GenerateEphemeral },
    }
}

/// See `jwt_secret_choice_spec`.
pub fn jwt_secret_choice(is_production: bool, configured_len: Option<usize>) -> (r: JwtSecretChoice)
    ensures
        r == jwt_secret_choice_spec(is_production, configured_len),
{
    match configured_len {
        Some(n) => {
            if n >= MIN_JWT_SECRET_LEN {
                JwtSecretChoice::UseConfigured
            } else if is_production {
                JwtSecretChoice::RefuseShort
            } else {
                JwtSecretChoice::UseShortConfigured
            }
        },
        None => {
            if is_production {
                JwtSecretChoice::RefuseMissing
            } else {
                JwtSecretChoice::GenerateEphemeral
            }
        },
    }
}

/// Queue law of the relay: an expired item, of any kind, is never delivered
/// and is deleted; a live envelope is delivered and kept until acknowledged;
/// a live signal is delivered once and deleted; an unreadable item is never
/// delivered. The HTTP inbox delivers and deletes every live readable item,
/// deletes expired ones undelivered and leaves unreadable ones alone.
pub proof fn lemma_queue_policy(kind: QueuedKind, readable: bool, expires: i64, now: i64)
    ensures
        now > expires ==> !queue_action_spec(kind, expires, now).deliver && queue_action_spec(kind, expires, now).delete,
        now <= expires && kind is Envelope ==> queue_action_spec(kind, expires, now).deliver
            && !queue_action_spec(kind, expires, now).delete,
        now <= expires && kind is Signal ==> queue_action_spec(kind, expires, now).deliver
            && queue_action_spec(kind, expires, now).delete,
        kind is Unreadable ==> !queue_action_spec(kind, expires, now).deliver,
        inbox_action_spec(readable, expires, now).deliver <==> readable && now <= expires,
        inbox_action_spec(readable, expires, now).delete <==> readable,
{
}

/// Expiry time of an item queued at `now` for `ttl` seconds.
pub fn queue_expiry(now: i64, ttl: i64) -> (r: i64)
    requires
        0 <= ttl,
        now <= i64::MAX - ttl,
    ensures
        r == now + ttl,
{
    now + ttl
}

/// The dedup key of a message ID: "dedup:" followed by the ID.
pub fn dedup_key(message_id: &str) -> (r: String)
    ensures
        r@ == "dedup:"@ + message_id@,
{
    let mut out = String::new();
    push_str(&mut out, "dedup:");
    push_str(&mut out, message_id);
    out
}

/// The queue key of a message for a recipient:
/// "queue:" recipient ":" message ID.
pub fn queue_key(recipient_id: &str, message_id: &str) -> (r: String)
    ensures
        r@ == "queue:"@ + recipient_id@ + ":"@ + message_id@,
{
    let mut out = String::new();
    push_str(&mut out, "queue:");
    push_str(&mut out, recipient_id);
    push_str(&mut out, ":");
    push_str(&mut out, message_id);
    out
}

/// The prefix of all queue keys of a recipient: "queue:" recipient ":".
pub fn queue_prefix(identity_id: &str) -> (r: String)
    ensures
        r@ == "queue:"@ + identity_id@ + ":"@,
{
    let mut out = String::new();
    push_str(&mut out, "queue:");
    push_str(&mut out, identity_id);
    push_str(&mut out, ":");
    out
}

/// Replay law of the relay: once an envelope's message ID is recorded at
/// time `recorded_at`, the same message ID arriving again within the dedup
/// window is dropped as a duplicate (the shape checks passing).
pub proof fn lemma_replay_within_window_dropped(sender_hex: Seq<u8>, e: SealedEnvelope, recorded_at: i64, now: i64)
    requires
        envelope_shape_error(e) is None,
        recorded_at <= now <= recorded_at + DEDUP_WINDOW_SECS,
    ensures
        route_plan_spec(sender_hex, e, Some(spec_u64_to_le_bytes(recorded_at as u64).reverse()), now as int).2
            == Err::<SealedEnvelope, RouteDrop>(RouteDrop::Duplicate),
{
    vstd::bytes::lemma_auto_spec_u64_to_from_le_bytes();
    let le = spec_u64_to_le_bytes(recorded_at as u64);
    assert(le.reverse().reverse() =~= le);
    assert(u64_from_be(le.reverse()) == recorded_at as u64);
    assert((recorded_at as u64) as i64 == recorded_at) by (bit_vector);
}

} // verus!
