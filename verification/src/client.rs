//! Choosing the client's IP address from proxy headers and the peer address.

use vstd::prelude::*;

verus! {

/// An IP address: four octets, or eight 16-bit groups.
#[derive(Clone, Copy, Debug, PartialEq, Eq)]
pub enum IpAddress {
    V4([u8; 4]),
    V6([u16; 8]),
}

/// The octets of the IPv4 address that a text denotes, as `Ipv4Addr`'s
/// `FromStr` reads it.
pub uninterp spec fn ipv4_from_text(s: Seq<char>) -> Option<[u8; 4]>;

/// The groups of the IPv6 address that a text denotes, as `Ipv6Addr`'s
/// `FromStr` reads it.
pub uninterp spec fn ipv6_from_text(s: Seq<char>) -> Option<[u16; 8]>;

/// `<core::net::Ipv4Addr as FromStr>::from_str`: the octets of the address
/// read, or none where the text is refused. Which texts it accepts is not
/// stated: the result is named `ipv4_from_text`.
#[verifier::external_body]
fn read_ipv4(s: &str) -> (r: Option<[u8; 4]>)
    ensures
        r == ipv4_from_text(s@),
{
    match s.parse::<core::net::Ipv4Addr>() {
        Ok(a) => Some(a.octets()),
        Err(_) => None,
    }
}

/// `<core::net::Ipv6Addr as FromStr>::from_str`: the groups of the address
/// read, or none where the text is refused. Which texts it accepts is not
/// stated: the result is named `ipv6_from_text`.
#[verifier::external_body]
fn read_ipv6(s: &str) -> (r: Option<[u16; 8]>)
    ensures
        r == ipv6_from_text(s@),
{
    match s.parse::<core::net::Ipv6Addr>() {
        Ok(a) => Some(a.segments()),
        Err(_) => None,
    }
}

/// A text read as an IPv4 address, and failing that as an IPv6 address.
pub open spec fn ip_from_text(s: Seq<char>) -> Option<IpAddress> {
    match ipv4_from_text(s) {
        Some(o) => Some(IpAddress::V4(o)),
        None => match ipv6_from_text(s) {
            Some(g) => Some(IpAddress::V6(g)),
            None => None,
        },
    }
}

/// The address a header value gives, if the header is there and reads as one.
pub open spec fn header_ip(h: Option<Seq<char>>) -> Option<IpAddress> {
    match h {
        Some(t) => ip_from_text(t),
        None => None,
    }
}

/// The text of an optional string slice.
pub open spec fn option_str(o: Option<&str>) -> Option<Seq<char>> {
    match o {
        Some(t) => Some(t@),
        None => None,
    }
}

/// The client's address: the `X-Real-IP` header if it reads as an address,
/// else the `X-Forwarded-For` header if it reads as one, else the peer.
pub open spec fn client_ip(
    real_ip: Option<Seq<char>>,
    forwarded_for: Option<Seq<char>>,
    peer: Option<IpAddress>,
) -> Option<IpAddress> {
    match header_ip(real_ip) {
        Some(a) => Some(a),
        None => match header_ip(forwarded_for) {
            Some(a) => Some(a),
            None => peer,
        },
    }
}

/// Reads a text as an IPv4 address, and failing that as an IPv6 address.
pub fn parse_ip_address(s: &str) -> (r: Option<IpAddress>)
    ensures
        r == ip_from_text(s@),
{
    match read_ipv4(s) {
        Some(o) => Some(IpAddress::V4(o)),
        None => match read_ipv6(s) {
            Some(g) => Some(IpAddress::V6(g)),
            None => None,
        },
    }
}

/// The address to look the client's country up by.
pub fn client_address(
    real_ip: Option<&str>,
    forwarded_for: Option<&str>,
    peer: Option<IpAddress>,
) -> (r: Option<IpAddress>)
    ensures
        r == client_ip(option_str(real_ip), option_str(forwarded_for), peer),
{
    let from_real = match real_ip {
        Some(t) => parse_ip_address(t),
        None => None,
    };
    if from_real.is_some() {
        return from_real;
    }
    let from_forwarded = match forwarded_for {
        Some(t) => parse_ip_address(t),
        None => None,
    };
    if from_forwarded.is_some() {
        return from_forwarded;
    }
    peer
}

} // verus!
