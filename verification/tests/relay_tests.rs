use ed25519_dalek::{Signer, SigningKey};
use sibna_core::relay::{
    dedup_key, dedup_record, dedup_record_is_live, dedup_record_is_stale, inbox_item_action, jwt_secret_choice, JwtSecretChoice, plan_route, plan_webrtc, queue_expiry, queue_key, queue_prefix,
    queued_item_action, check_envelope_shape, verify_sender_signature, QueueAction, QueuedKind, RouteDrop,
    SealedEnvelope, WebRtcSignal, DEDUP_WINDOW_SECS, QUEUE_TTL_SECS, SIGNAL_TTL_SECS,
};

fn sender() -> (SigningKey, String) {
    let key = SigningKey::from_bytes(&[3u8; 32]);
    let id = hex::encode(key.verifying_key().to_bytes());
    (key, id)
}

fn signed_envelope(key: &SigningKey, message_id: &str) -> SealedEnvelope {
    let recipient_id = "cd".repeat(32);
    let payload_hex = "00ff00ff".to_string();
    let data = format!("{}{}{}", recipient_id, message_id, payload_hex);
    SealedEnvelope {
        recipient_id,
        payload_hex,
        compressed: false,
        message_id: message_id.to_string(),
        timestamp: 5,
        signature_hex: hex::encode(key.sign(data.as_bytes()).to_bytes()),
    }
}

#[test]
fn route_accepts_and_stamps_signed_envelope() {
    let (key, id) = sender();
    let env = signed_envelope(&key, "m-1");
    let plan = plan_route(&id, env.clone(), None, 1_000_000);
    assert!(!plan.evict_dedup);
    assert!(plan.record_dedup);
    let out = plan.outcome.unwrap();
    assert_eq!(out.timestamp, 1_000_000);
    assert_eq!(out.message_id, env.message_id);
    assert_eq!(out.payload_hex, env.payload_hex);
}

#[test]
fn route_drops_replay_within_window_and_evicts_stale_record() {
    let (key, id) = sender();
    let env = signed_envelope(&key, "m-2");
    let now = 10_000_000i64;
    let fresh = dedup_record(now - 10);
    let plan = plan_route(&id, env.clone(), Some(&fresh), now);
    assert_eq!(plan.outcome.unwrap_err(), RouteDrop::Duplicate);
    assert!(!plan.record_dedup);

    let stale = dedup_record(now - DEDUP_WINDOW_SECS - 1);
    let plan = plan_route(&id, env, Some(&stale), now);
    assert!(plan.evict_dedup);
    assert!(plan.record_dedup);
    assert!(plan.outcome.is_ok());
}

#[test]
fn route_rejects_bad_shapes_and_signatures() {
    let (key, id) = sender();
    let mut env = signed_envelope(&key, "m-3");
    env.payload_hex = "11".to_string();
    let plan = plan_route(&id, env, None, 100);
    assert_eq!(plan.outcome.unwrap_err(), RouteDrop::BadSignature);
    assert!(plan.record_dedup);

    let mut no_id = signed_envelope(&key, "m-4");
    no_id.message_id = String::new();
    assert_eq!(check_envelope_shape(&no_id), Some(RouteDrop::InvalidMessageId));
    let mut long_id = signed_envelope(&key, "m-4");
    long_id.message_id = "x".repeat(129);
    assert_eq!(plan_route(&id, long_id, None, 100).outcome.unwrap_err(), RouteDrop::InvalidMessageId);
    let mut bad_recipient = signed_envelope(&key, "m-5");
    bad_recipient.recipient_id = "zz".repeat(32);
    assert_eq!(check_envelope_shape(&bad_recipient), Some(RouteDrop::InvalidRecipient));
    let mut short_recipient = signed_envelope(&key, "m-5");
    short_recipient.recipient_id = "ab".to_string();
    assert_eq!(check_envelope_shape(&short_recipient), Some(RouteDrop::InvalidRecipient));
    let mut huge = signed_envelope(&key, "m-6");
    huge.payload_hex = "a".repeat(20 * 1024 * 1024 + 1);
    assert_eq!(check_envelope_shape(&huge), Some(RouteDrop::OversizedPayload));
    assert_eq!(check_envelope_shape(&signed_envelope(&key, "ok")), None);

    let (_, other) = {
        let k = SigningKey::from_bytes(&[4u8; 32]);
        let i = hex::encode(k.verifying_key().to_bytes());
        (k, i)
    };
    assert_eq!(
        plan_route(&other, signed_envelope(&key, "m-7"), None, 100).outcome.unwrap_err(),
        RouteDrop::BadSignature
    );
}

#[test]
fn webrtc_signals() {
    let (key, id) = sender();
    let recipient_id = "ef".repeat(32);
    let payload_hex = "beef".to_string();
    let sig = key.sign(format!("{}{}", recipient_id, payload_hex).as_bytes());
    let signal = WebRtcSignal {
        recipient_id: recipient_id.clone(),
        payload_hex: payload_hex.clone(),
        signature_hex: hex::encode(sig.to_bytes()),
        timestamp: 1,
    };
    let out = plan_webrtc(&id, signal.clone(), 777).unwrap();
    assert_eq!(out.timestamp, 777);
    assert_eq!(out.payload_hex, payload_hex);

    let mut short = signal.clone();
    short.recipient_id = "ef".to_string();
    assert_eq!(plan_webrtc(&id, short, 777).unwrap_err(), RouteDrop::InvalidRecipient);
    let mut forged = signal;
    forged.payload_hex = "dead".to_string();
    assert_eq!(plan_webrtc(&id, forged, 777).unwrap_err(), RouteDrop::BadSignature);
}

#[test]
fn sender_signature_check() {
    let (key, id) = sender();
    let sig = hex::encode(key.sign(b"data").to_bytes());
    assert!(verify_sender_signature(&id, b"data", &sig));
    assert!(!verify_sender_signature(&id, b"datA", &sig));
    assert!(!verify_sender_signature("nothex", b"data", &sig));
    assert!(!verify_sender_signature(&id[..62], b"data", &sig));
    assert!(!verify_sender_signature(&id, b"data", &sig[..126]));
}

#[test]
fn dedup_records() {
    let r = dedup_record(0x0102_0304_0506_0708);
    assert_eq!(r, vec![1, 2, 3, 4, 5, 6, 7, 8]);
    assert!(dedup_record_is_live(&dedup_record(1_000_000), 1_000_000 + DEDUP_WINDOW_SECS));
    assert!(!dedup_record_is_live(&dedup_record(1_000_000), 1_000_001 + DEDUP_WINDOW_SECS));
    assert!(!dedup_record_is_live(&[1, 2, 3], 0));
}

#[test]
fn queue_policy_and_keys() {
    assert_eq!(queued_item_action(QueuedKind::Envelope, 100, 100), QueueAction { deliver: true, delete: false });
    assert_eq!(queued_item_action(QueuedKind::Signal, 100, 50), QueueAction { deliver: true, delete: true });
    assert_eq!(queued_item_action(QueuedKind::Unreadable, 100, 50), QueueAction { deliver: false, delete: false });
    assert_eq!(queued_item_action(QueuedKind::Envelope, 100, 101), QueueAction { deliver: false, delete: true });
    assert_eq!(queue_expiry(1_000, QUEUE_TTL_SECS), 1_000 + 7 * 86_400);
    assert_eq!(queue_expiry(1_000, SIGNAL_TTL_SECS), 1_060);
    assert_eq!(dedup_key("abc"), "dedup:abc");
    assert_eq!(queue_key("bob", "m1"), "queue:bob:m1");
    assert_eq!(queue_prefix("bob"), "queue:bob:");
}

#[test]
fn inbox_policy_and_pruning() {
    assert_eq!(inbox_item_action(true, 100, 100), QueueAction { deliver: true, delete: true });
    assert_eq!(inbox_item_action(true, 100, 101), QueueAction { deliver: false, delete: true });
    assert_eq!(inbox_item_action(false, 100, 50), QueueAction { deliver: false, delete: false });
    let now = 1_000_000i64;
    assert!(dedup_record_is_stale(&dedup_record(now - DEDUP_WINDOW_SECS - 1), now));
    assert!(!dedup_record_is_stale(&dedup_record(now - DEDUP_WINDOW_SECS), now));
    assert!(!dedup_record_is_stale(&[1, 2, 3], now));
}

#[test]
fn jwt_secret_policy() {
    assert_eq!(jwt_secret_choice(true, Some(64)), JwtSecretChoice::UseConfigured);
    assert_eq!(jwt_secret_choice(false, Some(32)), JwtSecretChoice::UseConfigured);
    assert_eq!(jwt_secret_choice(true, Some(31)), JwtSecretChoice::RefuseShort);
    assert_eq!(jwt_secret_choice(false, Some(31)), JwtSecretChoice::UseShortConfigured);
    assert_eq!(jwt_secret_choice(true, None), JwtSecretChoice::RefuseMissing);
    assert_eq!(jwt_secret_choice(false, None), JwtSecretChoice::GenerateEphemeral);
}
