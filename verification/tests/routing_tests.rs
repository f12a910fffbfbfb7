use sibna_core::error::ProtocolError;
use sibna_core::metadata::SignedEnvelope;
use sibna_core::p2p::{DiscoveredPeer, IpAddress, PeerAddress};
use sibna_core::routing::{
    check_message_size, peer_slot_available, screen_discovered_peer, DiscoveryVerdict, SeenSessions,
    MAX_ACTIVE_PEERS, MAX_MESSAGE_BYTES,
};

fn lan_peer(token: &str, last: u8, port: u16) -> DiscoveredPeer {
    DiscoveredPeer {
        session_token: token.to_string(),
        addr: PeerAddress { ip: IpAddress::V4([192, 168, 1, last]), port },
        name: format!("peer-{token}._sibna._tcp.local."),
    }
}

#[test]
fn message_size_guard() {
    assert_eq!(check_message_size(0), Ok(()));
    assert_eq!(check_message_size(MAX_MESSAGE_BYTES), Ok(()));
    assert_eq!(check_message_size(MAX_MESSAGE_BYTES + 1), Err(ProtocolError::InvalidArgument));
    assert_eq!(MAX_MESSAGE_BYTES, 64 * 1024 * 1024);
}

#[test]
fn peer_cap() {
    assert!(peer_slot_available(0));
    assert!(peer_slot_available(MAX_ACTIVE_PEERS - 1));
    assert!(!peer_slot_available(MAX_ACTIVE_PEERS));
}

#[test]
fn discovery_dials_each_session_once() {
    let mut seen = SeenSessions::new();
    let a = lan_peer("aaaa", 10, 4000);
    assert_eq!(screen_discovered_peer(&mut seen, &a, 0), DiscoveryVerdict::Connect);
    assert!(seen.contains(&a.session_token));
    assert_eq!(screen_discovered_peer(&mut seen, &a, 1), DiscoveryVerdict::AlreadySeen);
    let b = lan_peer("bbbb", 11, 4000);
    assert_eq!(screen_discovered_peer(&mut seen, &b, 1), DiscoveryVerdict::Connect);
}

#[test]
fn discovery_checks_address_then_cap() {
    let mut seen = SeenSessions::new();
    let bad_port = lan_peer("cccc", 12, 0);
    assert_eq!(screen_discovered_peer(&mut seen, &bad_port, 0), DiscoveryVerdict::InvalidAddress);
    assert!(!seen.contains(&bad_port.session_token));
    let ok = lan_peer("cccc", 12, 4000);
    assert_eq!(screen_discovered_peer(&mut seen, &ok, MAX_ACTIVE_PEERS), DiscoveryVerdict::PeerCapReached);
    assert!(!seen.contains(&ok.session_token));
    assert_eq!(screen_discovered_peer(&mut seen, &ok, 3), DiscoveryVerdict::Connect);
}

#[test]
fn seen_sessions_insert_reports_novelty() {
    let mut seen = SeenSessions::new();
    let t = "token".to_string();
    assert!(!seen.contains(&t));
    assert!(seen.insert(&t));
    assert!(!seen.insert(&t));
    assert!(seen.contains(&t));
}

#[test]
fn relay_envelope_is_hex_encoded_and_signed_after() {
    let mut env = SignedEnvelope::unsigned_for_relay(&[0xAB, 0x01], &[0xFF], &[0x10, 0x20], 99, &[0u8; 16], true);
    assert_eq!(env.recipient_id, "ab01");
    assert_eq!(env.payload_hex, "ff");
    assert_eq!(env.sender_id, "1020");
    assert_eq!(env.timestamp, 99);
    assert_eq!(env.message_id, "0".repeat(32));
    assert_eq!(env.signature_hex, "");
    assert!(!env.compressed);
    assert!(env.is_dummy);
    env.attach_signature(&[0xde, 0xad]);
    assert_eq!(env.signature_hex, "dead");
    assert_eq!(env.recipient_id, "ab01");
}
