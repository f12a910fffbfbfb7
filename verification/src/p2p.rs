//! Peer-to-peer address screening and mDNS instance naming.

use vstd::prelude::*;
use vstd::string::{StrSliceExecFns, StringSliceAdditionalSpecFns};
use crate::backend::{hex_encode, hex_encode_spec, hex_digit_char, thread_rng_fill};

verus! {

/// An IP address as its octets.
#[derive(Debug, Clone, Copy, PartialEq, Eq)]
pub enum IpAddress {
    V4([u8; 4]),
    V6([u8; 16]),
}

/// A socket address: IP address and port.
#[derive(Debug, Clone, Copy, PartialEq, Eq)]
pub struct PeerAddress {
    pub ip: IpAddress,
    pub port: u16,
}

/// Loopback: 127.0.0.0/8, or `::1`.
pub open spec fn ip_is_loopback(ip: IpAddress) -> bool {
    match ip {
        IpAddress::V4(o) => o[0] == 127,
        IpAddress::V6(o) => (forall|i: int| 0 <= i < 15 ==> o[i] == 0) && o[15] == 1,
    }
}

/// Multicast: 224.0.0.0/4, or `ff00::/8`.
pub open spec fn ip_is_multicast(ip: IpAddress) -> bool {
    match ip {
        IpAddress::V4(o) => 224 <= o[0] <= 239,
        IpAddress::V6(o) => o[0] == 0xff,
    }
}

/// Unspecified: `0.0.0.0`, or `::`.
pub open spec fn ip_is_unspecified(ip: IpAddress) -> bool {
    match ip {
        IpAddress::V4(o) => forall|i: int| 0 <= i < 4 ==> o[i] == 0,
        IpAddress::V6(o) => forall|i: int| 0 <= i < 16 ==> o[i] == 0,
    }
}

/// An address is safe to dial unless it is loopback, multicast or
/// unspecified, or has port 0. Private (RFC 1918) addresses are allowed:
/// discovery is LAN-scoped.
pub open spec fn peer_addr_ok(addr: PeerAddress) -> bool {
    !ip_is_loopback(addr.ip) && !ip_is_multicast(addr.ip) && !ip_is_unspecified(addr.ip) && addr.port != 0
}

fn all_zero_from<const N: usize>(octets: &[u8; N], from: usize) -> (r: bool)
    requires
        from <= N,
    ensures
        r == (forall|i: int| from <= i < N ==> octets@[i] == 0),
{
    let mut i = from;
    while i < N
        invariant
            from <= i <= N,
            forall|k: int| from <= k < i ==> octets@[k] == 0,
        decreases N - i,
    {
        if octets[i] != 0 {
            return false;
        }
        i = i + 1;
    }
    true
}

impl IpAddress {
    /// See `ip_is_loopback`.
    pub fn is_loopback(&self) -> (r: bool)
        ensures
            r == ip_is_loopback(*self),
    {
        match self {
            IpAddress::V4(o) => o[0] == 127,
            IpAddress::V6(o) => {
                let mut first: [u8; 15] = [0u8; 15];
                let mut i: usize = 0;
                while i < 15
                    invariant
                        0 <= i <= 15,
                        forall|k: int| 0 <= k < i ==> first@[k] == o@[k],
                    decreases 15 - i,
                {
                    first[i] = o[i];
                    i = i + 1;
                }
                all_zero_from(&first, 0) && o[15] == 1
            },
        }
    }

    /// See `ip_is_multicast`.
    pub fn is_multicast(&self) -> (r: bool)
        ensures
            r == ip_is_multicast(*self),
    {
        match self {
            IpAddress::V4(o) => 224 <= o[0] && o[0] <= 239,
            IpAddress::V6(o) => o[0] == 0xff,
        }
    }

    /// See `ip_is_unspecified`.
    pub fn is_unspecified(&self) -> (r: bool)
        ensures
            r == ip_is_unspecified(*self),
    {
        match self {
            IpAddress::V4(o) => all_zero_from(o, 0),
            IpAddress::V6(o) => all_zero_from(o, 0),
        }
    }
}

/// Returns true only for addresses safe to dial (see `peer_addr_ok`).
pub fn is_valid_peer_addr(addr: &PeerAddress) -> (r: bool)
    ensures
        r == peer_addr_ok(*addr),
{
    let ip = addr.ip;
    if ip.is_loopback() {
        return false;
    }
    if ip.is_multicast() {
        return false;
    }
    if ip.is_unspecified() {
        return false;
    }
    if addr.port == 0 {
        return false;
    }
    true
}

/// A peer found on the local network.
#[derive(Debug, Clone)]
pub struct DiscoveredPeer {
    /// The peer's random per-session token (not its identity key); used to
    /// deduplicate discovery events only.
    pub session_token: String,
    /// Address to dial.
    pub addr: PeerAddress,
    /// Full mDNS name of the peer's service.
    pub name: String,
}

/// The peer described by a resolved mDNS service, if any: our own service
/// (whose full name starts with our instance name) is ignored, and so is a
/// service without a session token or without an address.
pub open spec fn resolved_peer_spec(own_instance: Seq<u8>, fullname: Seq<u8>, has_session: bool,
    first_ip: Option<IpAddress>) -> bool
{
    !own_instance.is_prefix_of(fullname) && has_session && first_ip is Some
}

fn bytes_start_with(data: &[u8], prefix: &[u8]) -> (r: bool)
    ensures
        r == prefix@.is_prefix_of(data@),
{
    if prefix.len() > data.len() {
        return false;
    }
    let mut i: usize = 0;
    while i < prefix.len()
        invariant
            0 <= i <= prefix@.len() <= data@.len(),
            forall|k: int| 0 <= k < i ==> prefix@[k] == data@[k],
        decreases prefix@.len() - i,
    {
        if prefix[i] != data[i] {
            return false;
        }
        i = i + 1;
    }
    assert(prefix@ =~= data@.subrange(0, prefix@.len() as int));
    true
}

/// Turns a resolved mDNS service into a discovered peer (see
/// `resolved_peer_spec`): the session token and full name are copied, the
/// first advertised address is dialled on the advertised port.
pub fn resolve_discovered_peer(own_instance: &str, fullname: &str, session: Option<&str>,
    first_ip: Option<IpAddress>, port: u16) -> (r: Option<DiscoveredPeer>)
    ensures
        r is Some <==> resolved_peer_spec(own_instance.spec_bytes(), fullname.spec_bytes(), session is Some, first_ip),
        own_instance.spec_bytes().is_prefix_of(fullname.spec_bytes()) ==> r is None,
        !own_instance.spec_bytes().is_prefix_of(fullname.spec_bytes()) && session is Some && first_ip is Some
            ==> r is Some,
        r matches Some(p) ==> p.session_token@ == session->Some_0@ && p.name@ == fullname@
            && p.addr == (PeerAddress { ip: first_ip->Some_0, port }),
{
    if bytes_start_with(fullname.as_bytes(), own_instance.as_bytes()) {
        return None;
    }
    let token = match session {
        Some(t) => t,
        None => return None,
    };
    let ip = match first_ip {
        Some(ip) => ip,
        None => return None,
    };
    Some(DiscoveredPeer { session_token: token.to_owned(), addr: PeerAddress { ip, port }, name: fullname.to_owned() })
}

/// Discovery law: a resolved service is ignored as our own exactly when our
/// full instance name (node name and token digits) starts its full name;
/// every other service with a session token and an address is a peer. In
/// particular another node whose name differs from ours only in its token
/// digits is a peer.
pub proof fn lemma_own_service_only_ignored(own_instance: Seq<u8>, fullname: Seq<u8>, has_session: bool,
    first_ip: Option<IpAddress>)
    ensures
        own_instance.is_prefix_of(fullname) ==> !resolved_peer_spec(own_instance, fullname, has_session, first_ip),
        !own_instance.is_prefix_of(fullname) && has_session && first_ip is Some
            ==> resolved_peer_spec(own_instance, fullname, has_session, first_ip),
        own_instance.len() <= fullname.len() && (exists|i: int| 0 <= i < own_instance.len() && own_instance[i] != fullname[i])
            && has_session && first_ip is Some ==> resolved_peer_spec(own_instance, fullname, has_session, first_ip),
{
}

/// The first address that can be advertised in place of a wildcard: an
/// IPv4 address that is not loopback.
pub open spec fn first_advertisable(addrs: Seq<IpAddress>) -> Option<IpAddress>
    decreases addrs.len(),
{
    if addrs.len() == 0 {
        None
    } else if addrs[0] is V4 && !ip_is_loopback(addrs[0]) {
        Some(addrs[0])
    } else {
        first_advertisable(addrs.drop_first())
    }
}

/// The address to advertise over mDNS for a node bound to `bind_ip`: the
/// bind address itself, unless it is the unspecified address, in which case
/// the first non-loopback IPv4 interface address (`bind_ip` when there is
/// none).
pub fn advertised_ip(bind_ip: IpAddress, interfaces: &[IpAddress]) -> (r: IpAddress)
    ensures
        !ip_is_unspecified(bind_ip) ==> r == bind_ip,
        ip_is_unspecified(bind_ip) ==> r == (match first_advertisable(interfaces@) {
            Some(a) => a,
            None => bind_ip,
        }),
{
    if !bind_ip.is_unspecified() {
        return bind_ip;
    }
    let mut i: usize = 0;
    assert(interfaces@.subrange(0, interfaces@.len() as int) =~= interfaces@);
    while i < interfaces.len()
        invariant
            0 <= i <= interfaces@.len(),
            ip_is_unspecified(bind_ip),
            first_advertisable(interfaces@) == first_advertisable(interfaces@.subrange(i as int, interfaces@.len() as int)),
        decreases interfaces@.len() - i,
    {
        let a = interfaces[i];
        let ghost rest = interfaces@.subrange(i as int, interfaces@.len() as int);
        assert(rest[0] == a);
        if matches!(a, IpAddress::V4(_)) && !a.is_loopback() {
            return a;
        }
        assert(rest.drop_first() =~= interfaces@.subrange(i + 1, interfaces@.len() as int));
        i = i + 1;
    }
    bind_ip
}

/// Service type that Sibna nodes advertise over mDNS.
pub const SIBNA_SERVICE_TYPE: &'static str = "_sibna._tcp.local.";

/// Length of the random session token in bytes (128 bits).
pub const SESSION_TOKEN_LEN: usize = 16;

/// Number of token digits that go into an instance name.
pub const INSTANCE_TOKEN_DIGITS: usize = 12;

/// The mDNS instance name: the node name (or "Sibna") followed by a hyphen
/// and the first twelve digits of the session token.
pub open spec fn instance_name_spec(node_name: Option<Seq<char>>, session_hex: Seq<char>) -> Seq<char> {
    match node_name {
        Some(n) => n + "-"@ + session_hex.subrange(0, 12),
        None => "Sibna-"@ + session_hex.subrange(0, 12),
    }
}

/// Version of the discovery record that nodes advertise.
pub const DISCOVERY_RECORD_VERSION: &'static str = "2";

/// The TXT properties a node advertises: its session token under
/// "session" and the record version "2" under "version". The identity key is
/// never among them.
pub fn mdns_txt_properties(session_hex: &str) -> (r: Vec<(String, String)>)
    ensures
        r@.len() == 2,
        r@[0].0@ == "session"@ && r@[0].1@ == session_hex@,
        r@[1].0@ == "version"@ && r@[1].1@ == "2"@,
{
    let mut props: Vec<(String, String)> = Vec::new();
    props.push(("session".to_owned(), session_hex.to_owned()));
    props.push(("version".to_owned(), DISCOVERY_RECORD_VERSION.to_owned()));
    props
}

/// A fresh random session token, hex-encoded (32 lower-case digits). The
/// token, not the long-term identity key, is what mDNS advertises, so
/// passive observers cannot link sessions across restarts.
pub fn new_session_token() -> (r: String)
    ensures
        exists|token: Seq<u8>| token.len() == SESSION_TOKEN_LEN && r@ == hex_encode_spec(token),
        r@.len() == 2 * SESSION_TOKEN_LEN,
        vstd::utf8::is_ascii_chars(r@),
{
    let mut token_bytes = [0u8; 16];
    thread_rng_fill(&mut token_bytes);
    let hex = hex_encode(&token_bytes);
    assert forall|i: int| 0 <= i < hex@.len() implies '\0' <= #[trigger] hex@[i] <= '\u{7f}' by {
        let v: int = if i % 2 == 0 { token_bytes@[i / 2] as int / 16 } else { token_bytes@[i / 2] as int % 16 };
        assert(0 <= v < 16);
        assert(hex@[i] == hex_digit_char(v));
    }
    hex
}

fn push_str(out: &mut String, s: &str)
    ensures
        final(out)@ == old(out)@ + s@,
{
    out.append(s);
}

/// The instance name of a node (see `instance_name_spec`).
pub fn mdns_instance_name(node_name: Option<&str>, session_hex: &str) -> (r: String)
    requires
        session_hex@.len() >= 12,
        vstd::utf8::is_ascii_chars(session_hex@),
    ensures
        r@ == instance_name_spec(match node_name { Some(n) => Some(n@), None => None }, session_hex@),
{
    let head = session_hex.substring_ascii(0, INSTANCE_TOKEN_DIGITS);
    let mut out = String::new();
    match node_name {
        Some(n) => {
            push_str(&mut out, n);
            push_str(&mut out, "-");
        },
        None => {
            push_str(&mut out, "Sibna-");
        },
    }
    push_str(&mut out, head);
    out
}

/// The mDNS host name of an instance: the instance name followed by
/// ".local.".
pub fn mdns_host_name(instance_name: &str) -> (r: String)
    ensures
        r@ == instance_name@ + ".local."@,
{
    let mut out = String::new();
    push_str(&mut out, instance_name);
    push_str(&mut out, ".local.");
    out
}

} // verus!
