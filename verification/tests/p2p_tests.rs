use sibna_core::p2p::{
    advertised_ip, is_valid_peer_addr, mdns_host_name, mdns_instance_name, mdns_txt_properties, new_session_token, resolve_discovered_peer, IpAddress, PeerAddress,
    SESSION_TOKEN_LEN,
};

/// An IPv4 socket address such as `192.168.1.5:4000`.
fn v4(a: u8, b: u8, c: u8, d: u8, port: u16) -> PeerAddress {
    PeerAddress { ip: IpAddress::V4([a, b, c, d]), port }
}

/// An IPv6 socket address given as its eight 16-bit groups.
fn v6(groups: [u16; 8], port: u16) -> PeerAddress {
    let mut octets = [0u8; 16];
    for (i, g) in groups.iter().enumerate() {
        octets[2 * i] = (g >> 8) as u8;
        octets[2 * i + 1] = (g & 0xff) as u8;
    }
    PeerAddress { ip: IpAddress::V6(octets), port }
}

#[test]
fn rejects_loopback() {
    assert!(!is_valid_peer_addr(&v4(127, 0, 0, 1, 4000)));
    assert!(!is_valid_peer_addr(&v6([0, 0, 0, 0, 0, 0, 0, 1], 4000)));
}

#[test]
fn rejects_unspecified() {
    assert!(!is_valid_peer_addr(&v4(0, 0, 0, 0, 4000)));
    assert!(!is_valid_peer_addr(&v6([0; 8], 4000)));
}

#[test]
fn rejects_zero_port() {
    assert!(!is_valid_peer_addr(&v4(192, 168, 1, 5, 0)));
}

#[test]
fn allows_lan_address() {
    assert!(is_valid_peer_addr(&v4(192, 168, 1, 100, 4000)));
    assert!(is_valid_peer_addr(&v4(10, 0, 0, 5, 9000)));
}

#[test]
fn allows_public_address() {
    assert!(is_valid_peer_addr(&v4(203, 0, 113, 5, 4000)));
}

// ── further cases ───────────────────────────────────────────────────────────

#[test]
fn rejects_multicast_and_whole_loopback_block() {
    assert!(!is_valid_peer_addr(&v4(224, 0, 0, 251, 5353)));
    assert!(!is_valid_peer_addr(&v4(239, 1, 2, 3, 4000)));
    assert!(!is_valid_peer_addr(&v6([0xff02, 0, 0, 0, 0, 0, 0, 0xfb], 5353)));
    assert!(!is_valid_peer_addr(&v4(127, 8, 9, 10, 4000)));
    assert!(is_valid_peer_addr(&v4(240, 0, 0, 1, 4000)));
    assert!(is_valid_peer_addr(&v6([0xfe80, 0, 0, 0, 0, 0, 0, 1], 4000)));
    assert!(is_valid_peer_addr(&v6([0x2001, 0xdb8, 0, 0, 0, 0, 0, 2], 4000)));
}

#[test]
fn session_tokens_are_fresh_hex() {
    let a = new_session_token();
    let b = new_session_token();
    assert_eq!(a.len(), 2 * SESSION_TOKEN_LEN);
    assert!(a.chars().all(|c| c.is_ascii_hexdigit() && !c.is_ascii_uppercase()));
    assert_ne!(a, b);
}

#[test]
fn instance_and_host_names() {
    let token = "0123456789abcdef0123456789abcdef";
    assert_eq!(mdns_instance_name(Some("laptop"), token), "laptop-0123456789ab");
    assert_eq!(mdns_instance_name(None, token), "Sibna-0123456789ab");
    assert_eq!(mdns_host_name("Sibna-0123456789ab"), "Sibna-0123456789ab.local.");
}

#[test]
fn resolved_services_become_peers() {
    let ip = IpAddress::V4([192, 168, 1, 7]);
    let own = "Sibna-0123456789ab";
    assert!(resolve_discovered_peer(own, "Sibna-0123456789ab._sibna._tcp.local.", Some("t"), Some(ip), 4000).is_none());
    assert!(resolve_discovered_peer(own, "laptop-ffff._sibna._tcp.local.", None, Some(ip), 4000).is_none());
    assert!(resolve_discovered_peer(own, "laptop-ffff._sibna._tcp.local.", Some("t"), None, 4000).is_none());
    let p = resolve_discovered_peer(own, "laptop-ffff._sibna._tcp.local.", Some("tok"), Some(ip), 4000).unwrap();
    assert_eq!(p.session_token, "tok");
    assert_eq!(p.name, "laptop-ffff._sibna._tcp.local.");
    assert_eq!(p.addr, PeerAddress { ip, port: 4000 });
}

#[test]
fn advertised_address_for_wildcard_binds() {
    let any = IpAddress::V4([0, 0, 0, 0]);
    let lo = IpAddress::V4([127, 0, 0, 1]);
    let v6 = IpAddress::V6([0xfe, 0x80, 0, 0, 0, 0, 0, 0, 0, 0, 0, 0, 0, 0, 0, 1]);
    let lan = IpAddress::V4([192, 168, 1, 20]);
    let lan2 = IpAddress::V4([10, 0, 0, 2]);
    assert_eq!(advertised_ip(any, &[lo, v6, lan, lan2]), lan);
    assert_eq!(advertised_ip(any, &[lo, v6]), any);
    assert_eq!(advertised_ip(any, &[]), any);
    assert_eq!(advertised_ip(lan2, &[lan]), lan2);
}

#[test]
fn txt_properties_carry_token_and_version() {
    let props = mdns_txt_properties("00112233445566778899aabbccddeeff");
    assert_eq!(props.len(), 2);
    assert_eq!(props[0], ("session".to_string(), "00112233445566778899aabbccddeeff".to_string()));
    assert_eq!(props[1], ("version".to_string(), "2".to_string()));
}
