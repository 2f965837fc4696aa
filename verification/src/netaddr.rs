//! Network addresses of peers: the IP family, routability and the key
//! under which the address book files a peer.

use vstd::prelude::*;
use crate::text::{split, split_chars, parse_unsigned, parse_unsigned_chars, all_digits, decimal_value, lemma_split_nonempty};

verus! {

/// An IPv4 address by its four octets, or an IPv6 address by its eight
/// 16-bit segments, most significant first.
#[derive(Clone, Copy, Debug, PartialEq, Eq, Structural)]
pub enum IpAddress {
    V4(u8, u8, u8, u8),
    V6(u16, u16, u16, u16, u16, u16, u16, u16),
}

/// A peer's IP address and port.
#[derive(Clone, Copy, Debug, PartialEq, Eq, Structural)]
pub struct NetAddress {
    pub ip: IpAddress,
    pub port: u16,
}

/// The key under which the address book files an address: the IP family
/// (4 or 6), the octets or segments, and the port.
pub type NodeKey = (u8, u16, u16, u16, u16, u16, u16, u16, u16, u16);

impl IpAddress {
    /// Whether this is an IPv4 address.
    pub fn is_ipv4(&self) -> (r: bool)
        ensures
            r == (*self is V4),
    {
        match self {
            IpAddress::V4(..) => true,
            IpAddress::V6(..) => false,
        }
    }

    /// Whether this is an IPv6 address.
    pub fn is_ipv6(&self) -> (r: bool)
        ensures
            r == (*self is V6),
    {
        match self {
            IpAddress::V4(..) => false,
            IpAddress::V6(..) => true,
        }
    }
}

impl NetAddress {
    /// An address from its IP and port.
    pub fn new(ip: IpAddress, port: u16) -> (r: NetAddress)
        ensures
            r.ip == ip,
            r.port == port,
    {
        NetAddress { ip, port }
    }
}

/// The key of an address.
pub open spec fn key_of(a: NetAddress) -> NodeKey {
    match a.ip {
        IpAddress::V4(x, y, z, w) => (4u8, x as u16, y as u16, z as u16, w as u16, 0u16, 0u16, 0u16, 0u16, a.port),
        IpAddress::V6(s0, s1, s2, s3, s4, s5, s6, s7) => (6u8, s0, s1, s2, s3, s4, s5, s6, s7, a.port),
    }
}

/// Two addresses share a key only when they are the same address.
pub proof fn lemma_key_injective(a: NetAddress, b: NetAddress)
    requires
        key_of(a) == key_of(b),
    ensures
        a == b,
{
}

/// Computes the key of an address.
pub fn node_key(a: &NetAddress) -> (r: NodeKey)
    ensures
        r == key_of(*a),
{
    match a.ip {
        IpAddress::V4(x, y, z, w) => (4u8, x as u16, y as u16, z as u16, w as u16, 0u16, 0u16, 0u16, 0u16, a.port),
        IpAddress::V6(s0, s1, s2, s3, s4, s5, s6, s7) => (6u8, s0, s1, s2, s3, s4, s5, s6, s7, a.port),
    }
}

/// An IPv4 address that is neither private (10/8, 172.16/12, 192.168/16),
/// loopback (127/8), unspecified, multicast (224/4), broadcast, nor link
/// local (169.254/16), nor in one of the reserved ranges: the documentation
/// ranges 192.0.2.0/24, 198.51.100.0/24, 203.0.113.0/24 and the
/// benchmarking range 198.18.0.0/15.
pub open spec fn ipv4_routable(a: u8, b: u8, c: u8, d: u8) -> bool {
    let private = a == 10 || (a == 172 && 16 <= b && b <= 31) || (a == 192 && b == 168);
    let loopback = a == 127;
    let unspecified = a == 0 && b == 0 && c == 0 && d == 0;
    let multicast = 224 <= a && a <= 239;
    let broadcast = a == 255 && b == 255 && c == 255 && d == 255;
    let link_local = a == 169 && b == 254;
    let reserved = (a == 192 && b == 0 && c == 2) || (a == 198 && b == 51 && c == 100) || (a == 203
        && b == 0 && c == 113) || (a == 198 && (b == 18 || b == 19));
    !private && !loopback && !unspecified && !multicast && !broadcast && !link_local && !reserved
}

/// An IPv6 address that is neither loopback (::1), unspecified (::),
/// multicast (ff00::/8), unique local (fc00::/7), unicast link local
/// (fe80::/10), nor in the documentation range 2001:db8::/32 or the
/// benchmarking range 2001:2::/48.
pub open spec fn ipv6_routable(
    s0: u16,
    s1: u16,
    s2: u16,
    s3: u16,
    s4: u16,
    s5: u16,
    s6: u16,
    s7: u16,
) -> bool {
    let zero_tail = s1 == 0 && s2 == 0 && s3 == 0 && s4 == 0 && s5 == 0 && s6 == 0;
    let loopback = s0 == 0 && zero_tail && s7 == 1;
    let unspecified = s0 == 0 && zero_tail && s7 == 0;
    let multicast = s0 >= 0xff00;
    let unique_local = 0xfc00 <= s0 && s0 <= 0xfdff;
    let link_local = 0xfe80 <= s0 && s0 <= 0xfebf;
    let reserved = s0 == 0x2001 && (s1 == 0xdb8 || (s1 == 0x2 && s2 == 0));
    !loopback && !unspecified && !multicast && !unique_local && !link_local && !reserved
}

/// An address to which peers can connect: a non-zero port and a routable IP.
pub open spec fn routable(a: NetAddress) -> bool {
    a.port != 0 && match a.ip {
        IpAddress::V4(x, y, z, w) => ipv4_routable(x, y, z, w),
        IpAddress::V6(s0, s1, s2, s3, s4, s5, s6, s7) => ipv6_routable(
            s0,
            s1,
            s2,
            s3,
            s4,
            s5,
            s6,
            s7,
        ),
    }
}

/// Whether peers can connect to `address`.
pub fn is_routable(address: &NetAddress) -> (r: bool)
    ensures
        r == routable(*address),
{
    if address.port == 0 {
        return false;
    }
    match address.ip {
        IpAddress::V4(a, b, c, d) => {
            let private = a == 10 || (a == 172 && 16 <= b && b <= 31) || (a == 192 && b == 168);
            let loopback = a == 127;
            let unspecified = a == 0 && b == 0 && c == 0 && d == 0;
            let multicast = 224 <= a && a <= 239;
            let broadcast = a == 255 && b == 255 && c == 255 && d == 255;
            let link_local = a == 169 && b == 254;
            let reserved = (a == 192 && b == 0 && c == 2) || (a == 198 && b == 51 && c == 100) || (a
                == 203 && b == 0 && c == 113) || (a == 198 && (b == 18 || b == 19));
            !private && !loopback && !unspecified && !multicast && !broadcast && !link_local
                && !reserved
        },
        IpAddress::V6(s0, s1, s2, s3, s4, s5, s6, s7) => {
            let zero_tail = s1 == 0 && s2 == 0 && s3 == 0 && s4 == 0 && s5 == 0 && s6 == 0;
            let loopback = s0 == 0 && zero_tail && s7 == 1;
            let unspecified = s0 == 0 && zero_tail && s7 == 0;
            let multicast = s0 >= 0xff00;
            let unique_local = 0xfc00 <= s0 && s0 <= 0xfdff;
            let link_local = 0xfe80 <= s0 && s0 <= 0xfebf;
            let reserved = s0 == 0x2001 && (s1 == 0xdb8 || (s1 == 0x2 && s2 == 0));
            !loopback && !unspecified && !multicast && !unique_local && !link_local && !reserved
        },
    }
}

/// One octet of a dotted IPv4 address as `Ipv4Addr::from_str` reads it: one
/// to three ASCII digits, no leading zero unless the octet is `0` itself,
/// and a value of at most 255.
pub open spec fn parse_octet(s: Seq<char>) -> Option<u8> {
    if 1 <= s.len() <= 3 && all_digits(s) && !(s.len() > 1 && s[0] == '0') && decimal_value(s)
        <= 255 {
        Some(decimal_value(s) as u8)
    } else {
        None
    }
}

/// A dotted IPv4 address as `Ipv4Addr::from_str` reads it: exactly four
/// octets separated by dots, nothing before or after.
pub open spec fn parse_ipv4(s: Seq<char>) -> Option<IpAddress> {
    let p = split(s, '.');
    if p.len() == 4 && parse_octet(p[0]) is Some && parse_octet(p[1]) is Some && parse_octet(p[2]) is Some
        && parse_octet(p[3]) is Some {
        Some(
            IpAddress::V4(
                parse_octet(p[0])->0,
                parse_octet(p[1])->0,
                parse_octet(p[2])->0,
                parse_octet(p[3])->0,
            ),
        )
    } else {
        None
    }
}

/// A port as `u16::from_str` reads it.
pub open spec fn parse_port(s: Seq<char>) -> Option<u16> {
    match parse_unsigned(s, 65535) {
        Some(n) => Some(n as u16),
        None => None,
    }
}

/// Reads one octet.
fn read_octet(v: &Vec<char>) -> (r: Option<u8>)
    ensures
        r == parse_octet(v@),
{
    if v.len() < 1 || v.len() > 3 {
        return None;
    }
    if (v.len() > 1 && v[0] == '0') || v[0] == '+' {
        proof {
            if v@[0] == '+' {
                assert(!crate::text::is_digit(v@[0]));
            }
        }
        return None;
    }
    let n = parse_unsigned_chars(v, 255);
    match n {
        Some(x) => Some(x as u8),
        None => None,
    }
}

/// Reads a dotted IPv4 address.
pub fn read_ipv4(v: &Vec<char>) -> (r: Option<IpAddress>)
    ensures
        r == parse_ipv4(v@),
{
    let parts = split_chars(v, '.');
    proof {
        lemma_split_nonempty(v@, '.');
    }
    let ghost p = split(v@, '.');
    assert(parts@.len() == p.len());
    if parts.len() != 4 {
        return None;
    }
    assert(parts@[0]@ == p[0]);
    assert(parts@[1]@ == p[1]);
    assert(parts@[2]@ == p[2]);
    assert(parts@[3]@ == p[3]);
    let a = read_octet(&parts[0]);
    let b = read_octet(&parts[1]);
    let c = read_octet(&parts[2]);
    let d = read_octet(&parts[3]);
    match (a, b, c, d) {
        (Some(a), Some(b), Some(c), Some(d)) => Some(IpAddress::V4(a, b, c, d)),
        _ => None,
    }
}

/// Reads a port.
pub fn read_port(v: &Vec<char>) -> (r: Option<u16>)
    ensures
        r == parse_port(v@),
{
    match parse_unsigned_chars(v, 65535) {
        Some(n) => Some(n as u16),
        None => None,
    }
}

} // verus!
