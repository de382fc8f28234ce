//! IP addresses and networks: which client a request comes from, and which
//! webhook targets are refused.
use vstd::prelude::*;
use crate::text::{chars_of, find, first_piece, slice_vec, string_from_chars, trim, trimmed};

verus! {

/// An IP address: four octets, or eight 16-bit segments.
#[derive(Debug, Clone, Copy, PartialEq, Eq)]
pub enum IpAddress {
    V4([u8; 4]),
    V6([u16; 8]),
}

/// A network in CIDR notation: an address and the number of leading bits that
/// name the network.
#[derive(Debug, Clone, Copy, PartialEq, Eq)]
pub struct IpNetwork {
    pub addr: IpAddress,
    pub prefix_len: u8,
}

/// The address as a 32-bit number.
pub open spec fn v4_bits(o: Seq<u8>) -> u32 {
    ((o[0] as u32) * 0x100_0000 + (o[1] as u32) * 0x1_0000 + (o[2] as u32) * 0x100 + o[3] as u32) as u32
}

/// The address as a 128-bit number.
pub open spec fn v6_bits(s: Seq<u16>) -> u128 {
    ((s[0] as u128) * 0x1_0000_0000_0000_0000_0000_0000_0000 + (s[1] as u128)
        * 0x1_0000_0000_0000_0000_0000_0000 + (s[2] as u128) * 0x1_0000_0000_0000_0000_0000
        + (s[3] as u128) * 0x1_0000_0000_0000_0000 + (s[4] as u128) * 0x1_0000_0000_0000
        + (s[5] as u128) * 0x1_0000_0000 + (s[6] as u128) * 0x1_0000 + s[7] as u128) as u128
}

/// A network is well formed when its prefix fits its address family.
pub open spec fn network_wf(n: IpNetwork) -> bool {
    match n.addr {
        IpAddress::V4(_) => n.prefix_len <= 32,
        IpAddress::V6(_) => n.prefix_len <= 128,
    }
}

/// `ip` lies in `net`: same family, and the first `prefix_len` bits agree.
pub open spec fn contains_spec(net: IpNetwork, ip: IpAddress) -> bool {
    match (net.addr, ip) {
        (IpAddress::V4(a), IpAddress::V4(b)) => net.prefix_len == 0 || (v4_bits(a@) >> ((32
            - net.prefix_len) as u32)) == (v4_bits(b@) >> ((32 - net.prefix_len) as u32)),
        (IpAddress::V6(a), IpAddress::V6(b)) => net.prefix_len == 0 || (v6_bits(a@) >> ((128
            - net.prefix_len) as u32)) == (v6_bits(b@) >> ((128 - net.prefix_len) as u32)),
        _ => false,
    }
}

fn v4_value(o: &[u8; 4]) -> (r: u32)
    ensures
        r == v4_bits(o@),
{
    (o[0] as u32) * 0x100_0000 + (o[1] as u32) * 0x1_0000 + (o[2] as u32) * 0x100 + o[3] as u32
}

fn v6_value(s: &[u16; 8]) -> (r: u128)
    ensures
        r == v6_bits(s@),
{
    (s[0] as u128) * 0x1_0000_0000_0000_0000_0000_0000_0000 + (s[1] as u128)
        * 0x1_0000_0000_0000_0000_0000_0000 + (s[2] as u128) * 0x1_0000_0000_0000_0000_0000
        + (s[3] as u128) * 0x1_0000_0000_0000_0000 + (s[4] as u128) * 0x1_0000_0000_0000
        + (s[5] as u128) * 0x1_0000_0000 + (s[6] as u128) * 0x1_0000 + s[7] as u128
}

impl IpNetwork {
    /// `ipnet::IpNet::contains` for an address: same family, same network bits.
    pub fn contains(&self, ip: &IpAddress) -> (r: bool)
        requires
            network_wf(*self),
        ensures
            r == contains_spec(*self, *ip),
    {
        match (&self.addr, ip) {
            (IpAddress::V4(a), IpAddress::V4(b)) => {
                if self.prefix_len == 0 {
                    return true;
                }
                let shift = (32 - self.prefix_len) as u32;
                (v4_value(a) >> shift) == (v4_value(b) >> shift)
            },
            (IpAddress::V6(a), IpAddress::V6(b)) => {
                if self.prefix_len == 0 {
                    return true;
                }
                let shift = (128 - self.prefix_len) as u32;
                (v6_value(a) >> shift) == (v6_value(b) >> shift)
            },
            _ => false,
        }
    }
}

/// What `ipnet::IpNet`'s `FromStr` gives for a CIDR text such as
/// `10.0.0.0/8`, or `None` when it does not parse.
pub uninterp spec fn ipnet_parse(s: Seq<char>) -> Option<IpNetwork>;

/// Parses a CIDR network with the `ipnet` crate.  The result is named by
/// `ipnet_parse`; `ipnet` only builds networks whose prefix fits the family.
#[verifier::external_body]
pub(crate) fn parse_network(s: &str) -> (r: Option<IpNetwork>)
    ensures
        r == ipnet_parse(s@),
        r matches Some(n) ==> network_wf(n),
{
    match s.parse::<ipnet::IpNet>() {
        Ok(ipnet::IpNet::V4(n)) => Some(IpNetwork { addr: IpAddress::V4(n.addr().octets()), prefix_len: n.prefix_len() }),
        Ok(ipnet::IpNet::V6(n)) => Some(IpNetwork { addr: IpAddress::V6(n.addr().segments()), prefix_len: n.prefix_len() }),
        Err(_) => None,
    }
}

/// Some trusted network holds `peer`.
pub open spec fn trusted_peer(trusted: Seq<IpNetwork>, peer: IpAddress) -> bool {
    exists|i: int| 0 <= i < trusted.len() && contains_spec(#[trigger] trusted[i], peer)
}

/// The client a request is attributed to.  Forwarded addresses are believed
/// only from a trusted proxy: the first `X-Forwarded-For` entry, else
/// `X-Real-IP`, else the peer itself.
pub open spec fn client_ip_spec(
    forwarded_for: Option<IpAddress>,
    real_ip: Option<IpAddress>,
    peer: IpAddress,
    trusted: Seq<IpNetwork>,
) -> IpAddress {
    if !trusted_peer(trusted, peer) {
        peer
    } else {
        match forwarded_for {
            Some(ip) => ip,
            None => match real_ip {
                Some(ip) => ip,
                None => peer,
            },
        }
    }
}

/// Extracts the real client IP.  `forwarded_for` is the first entry of
/// `X-Forwarded-For` and `real_ip` the `X-Real-IP` header, each parsed (`None`
/// when absent or not an address).  Forwarded headers are trusted only when the
/// TCP peer lies in one of the `trusted` networks; with none configured, the
/// peer is used directly, which prevents spoofing.
pub fn extract_client_ip(
    forwarded_for: Option<IpAddress>,
    real_ip: Option<IpAddress>,
    peer: IpAddress,
    trusted: &[IpNetwork],
) -> (r: IpAddress)
    requires
        forall|i: int| 0 <= i < trusted.len() ==> network_wf(#[trigger] trusted[i]),
    ensures
        r == client_ip_spec(forwarded_for, real_ip, peer, trusted@),
{
    let mut i: usize = 0;
    while i < trusted.len()
        invariant
            i <= trusted.len(),
            forall|k: int| 0 <= k < trusted.len() ==> network_wf(#[trigger] trusted[k]),
            forall|k: int| 0 <= k < i ==> !contains_spec(#[trigger] trusted@[k], peer),
        decreases trusted.len() - i,
    {
        if trusted[i].contains(&peer) {
            assert(trusted_peer(trusted@, peer));
            return match forwarded_for {
                Some(ip) => ip,
                None => match real_ip {
                    Some(ip) => ip,
                    None => peer,
                },
            };
        }
        i += 1;
    }
    peer
}

/// Without a trusted proxy that holds the peer, no header can change the
/// address a request is attributed to.
pub proof fn lemma_untrusted_peer_not_spoofable(
    f1: Option<IpAddress>,
    r1: Option<IpAddress>,
    f2: Option<IpAddress>,
    r2: Option<IpAddress>,
    peer: IpAddress,
    trusted: Seq<IpNetwork>,
)
    requires
        !trusted_peer(trusted, peer),
    ensures
        client_ip_spec(f1, r1, peer, trusted) == peer,
        client_ip_spec(f1, r1, peer, trusted) == client_ip_spec(f2, r2, peer, trusted),
{
}

/// The first entry of an `X-Forwarded-For` header, trimmed.
pub fn first_forwarded(header: &str) -> (r: String)
    ensures
        r@ == trim(first_piece(header@, ',')),
{
    let cs = chars_of(header);
    let end = match find(cs.as_slice(), ',') {
        Some(i) => i,
        None => cs.len(),
    };
    let first = slice_vec(cs.as_slice(), 0, end);
    assert(first@ =~= first_piece(header@, ','));
    string_from_chars(trimmed(first.as_slice()).as_slice())
}

/// Addresses a webhook may not target: loopback, private, link-local
/// (including cloud metadata), unspecified and broadcast IPv4; loopback,
/// unspecified, link-local (fe80::/10) and unique-local (fc00::/7) IPv6.
pub open spec fn blocked_spec(ip: IpAddress) -> bool {
    match ip {
        IpAddress::V4(o) => {
            let a = o@[0];
            let b = o@[1];
            ||| a == 127
            ||| a == 10
            ||| (a == 172 && 16 <= b && b <= 31)
            ||| (a == 192 && b == 168)
            ||| (a == 169 && b == 254)
            ||| (a == 0 && b == 0 && o@[2] == 0 && o@[3] == 0)
            ||| (a == 255 && b == 255 && o@[2] == 255 && o@[3] == 255)
        },
        IpAddress::V6(s) => {
            let zero_head = s@[0] == 0 && s@[1] == 0 && s@[2] == 0 && s@[3] == 0 && s@[4] == 0
                && s@[5] == 0 && s@[6] == 0;
            ||| (zero_head && s@[7] == 1)
            ||| (zero_head && s@[7] == 0)
            ||| (s@[0] & 0xffc0) == 0xfe80
            ||| (s@[0] & 0xfe00) == 0xfc00
        },
    }
}

/// Whether a webhook may not be delivered to `ip` (see `blocked_spec`).
pub fn is_blocked_ip(ip: IpAddress) -> (r: bool)
    ensures
        r == blocked_spec(ip),
{
    match ip {
        IpAddress::V4(o) => {
            let a = o[0];
            let b = o[1];
            a == 127 || a == 10 || (a == 172 && 16 <= b && b <= 31) || (a == 192 && b == 168) || (a
                == 169 && b == 254) || (a == 0 && b == 0 && o[2] == 0 && o[3] == 0) || (a == 255
                && b == 255 && o[2] == 255 && o[3] == 255)
        },
        IpAddress::V6(s) => {
            let zero_head = s[0] == 0 && s[1] == 0 && s[2] == 0 && s[3] == 0 && s[4] == 0 && s[5]
                == 0 && s[6] == 0;
            (zero_head && s[7] == 1) || (zero_head && s[7] == 0) || (s[0] & 0xffc0) == 0xfe80 || (
            s[0] & 0xfe00) == 0xfc00
        },
    }
}

/// Behind a trusted proxy the client is the first `X-Forwarded-For` address,
/// else the `X-Real-IP` address, else the proxy itself.
pub proof fn lemma_trusted_proxy_forwards(
    forwarded_for: Option<IpAddress>,
    real_ip: Option<IpAddress>,
    peer: IpAddress,
    trusted: Seq<IpNetwork>,
)
    requires
        trusted_peer(trusted, peer),
    ensures
        forwarded_for matches Some(ip) ==> client_ip_spec(forwarded_for, real_ip, peer, trusted) == ip,
        forwarded_for is None ==> client_ip_spec(forwarded_for, real_ip, peer, trusted) == match real_ip {
            Some(ip) => ip,
            None => peer,
        },
{
}

/// A network holds its own address; a `/0` network holds every address of its
/// family and none of the other; a host network (`/32`, `/128`) holds exactly
/// its address.
pub proof fn lemma_network_membership(net: IpNetwork, ip: IpAddress)
    ensures
        contains_spec(net, net.addr),
        net.prefix_len == 0 ==> (contains_spec(net, ip) <==> ((net.addr is V4 && ip is V4) || (net.addr is V6
            && ip is V6))),
        (net.addr is V4 && ip is V6) || (net.addr is V6 && ip is V4) ==> !contains_spec(net, ip),
        net.addr matches IpAddress::V4(a) ==> (net.prefix_len == 32 ==> (contains_spec(net, ip) <==> (ip matches IpAddress::V4(
            b,
        ) && v4_bits(a@) == v4_bits(b@)))),
        net.addr matches IpAddress::V6(a) ==> (net.prefix_len == 128 ==> (contains_spec(net, ip) <==> (ip matches IpAddress::V6(
            b,
        ) && v6_bits(a@) == v6_bits(b@)))),
{
    match (net.addr, ip) {
        (IpAddress::V4(a), IpAddress::V4(b)) => {
            let (x, y) = (v4_bits(a@), v4_bits(b@));
            assert((x >> 0u32) == x && (y >> 0u32) == y) by (bit_vector);
        },
        (IpAddress::V6(a), IpAddress::V6(b)) => {
            let (x, y) = (v6_bits(a@), v6_bits(b@));
            assert((x >> 0u32) == x && (y >> 0u32) == y) by (bit_vector);
        },
        _ => {},
    }
}

/// Webhooks never reach the machine itself or private networks: every IPv4
/// address in 127/8, 10/8, 172.16/12, 192.168/16 or 169.254/16 (cloud
/// metadata) is blocked, as are `0.0.0.0`, `255.255.255.255`, `::1`, `::`,
/// and every address in fe80::/10 and fc00::/7; an IPv4 address whose first
/// octet is in 11-126 or 128-168 (other than those ranges) is not.
pub proof fn lemma_blocked_ranges(ip: IpAddress)
    ensures
        ip matches IpAddress::V4(o) ==> ((o[0] == 127 || o[0] == 10 || (o[0] == 172 && 16 <= o[1] <= 31) || (o[0]
            == 192 && o[1] == 168) || (o[0] == 169 && o[1] == 254)) ==> blocked_spec(ip)),
        ip matches IpAddress::V4(o) ==> ((11 <= o[0] <= 126 || 128 <= o[0] <= 168) ==> !blocked_spec(ip)),
        ip matches IpAddress::V6(s) ==> ((s[0] & 0xffc0) == 0xfe80 || (s[0] & 0xfe00) == 0xfc00 ==> blocked_spec(ip)),
        ip matches IpAddress::V6(s) ==> ((s@ == seq![0u16, 0, 0, 0, 0, 0, 0, 1] || s@ == seq![0u16, 0, 0, 0, 0, 0, 0, 0])
            ==> blocked_spec(ip)),
        ip matches IpAddress::V4(o) ==> (o@ == seq![0u8, 0, 0, 0] || o@ == seq![255u8, 255, 255, 255] ==> blocked_spec(ip)),
{
    match ip {
        IpAddress::V6(s) => {
            if s@ == seq![0u16, 0, 0, 0, 0, 0, 0, 1] || s@ == seq![0u16, 0, 0, 0, 0, 0, 0, 0] {
                assert(s@[0] == 0 && s@[7] <= 1);
            }
        },
        IpAddress::V4(o) => {
            if o@ == seq![0u8, 0, 0, 0] || o@ == seq![255u8, 255, 255, 255] {
                assert(o@[0] == o@[3]);
            }
        },
    }
}

} // verus!
