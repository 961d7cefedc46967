//! Addresses of either family.

use crate::extractor::AddressKind;
use crate::ipv4::{ipv4_of_text, parse_ipv4_bytes, Ipv4Address};
use crate::ipv6::{ipv6_of_text, parse_ipv6_bytes, Ipv6Address};
use vstd::prelude::*;

verus! {

/// An IPv4 or an IPv6 address.
#[derive(Clone, Copy, Debug, PartialEq, Eq)]
pub enum IpAddress {
    V4(Ipv4Address),
    V6(Ipv6Address),
}

/// The sixteen bytes of eight groups, the high byte of each group first.
pub open spec fn group_bytes(groups: Seq<u16>) -> Seq<u8> {
    Seq::new(
        16,
        |i: int|
            if i % 2 == 0 {
                (groups[i / 2] / 256) as u8
            } else {
                (groups[i / 2] % 256) as u8
            },
    )
}

/// The bytes of an address in network order: four for IPv4, sixteen for
/// IPv6.
pub open spec fn address_bytes(address: IpAddress) -> Seq<u8> {
    match address {
        IpAddress::V4(ip) => seq![ip.a, ip.b, ip.c, ip.d],
        IpAddress::V6(ip) => group_bytes(ip.groups@),
    }
}

/// The bytes of the address that a literal denotes, if it denotes one: as
/// a dotted quad, or else as an IPv6 literal.
pub open spec fn literal_address(text: Seq<u8>) -> Option<Seq<u8>> {
    match ipv4_of_text(text) {
        Some(ip) => Some(seq![ip.a, ip.b, ip.c, ip.d]),
        None => match ipv6_of_text(text) {
            Some(groups) => Some(group_bytes(groups)),
            None => None,
        },
    }
}

/// Whether `address` is the address that a text of the given kind denotes.
pub open spec fn denotes(text: Seq<u8>, kind: AddressKind, address: IpAddress) -> bool {
    match kind {
        AddressKind::IPv4 => address matches IpAddress::V4(ip) && ipv4_of_text(text) == Some(ip),
        AddressKind::IPv6 => address matches IpAddress::V6(ip) && ipv6_of_text(text) == Some(
            ip.groups@,
        ),
    }
}

/// Whether a text of the given kind denotes an address at all.
pub open spec fn is_address_text(text: Seq<u8>, kind: AddressKind) -> bool {
    match kind {
        AddressKind::IPv4 => ipv4_of_text(text) is Some,
        AddressKind::IPv6 => ipv6_of_text(text) is Some,
    }
}

impl IpAddress {
    /// Tells whether two addresses are the same.
    pub fn same(&self, other: &IpAddress) -> (r: bool)
        ensures
            r == (*self == *other),
    {
        match (self, other) {
            (IpAddress::V4(a), IpAddress::V4(b)) => a.a == b.a && a.b == b.b && a.c == b.c && a.d
                == b.d,
            (IpAddress::V6(a), IpAddress::V6(b)) => {
                let same = a.groups[0] == b.groups[0] && a.groups[1] == b.groups[1] && a.groups[2]
                    == b.groups[2] && a.groups[3] == b.groups[3] && a.groups[4] == b.groups[4]
                    && a.groups[5] == b.groups[5] && a.groups[6] == b.groups[6] && a.groups[7]
                    == b.groups[7];
                proof {
                    if same {
                        assert(a.groups =~= b.groups);
                    }
                }
                same
            },
            _ => false,
        }
    }

    /// The family of the address.
    pub open spec fn kind(&self) -> AddressKind {
        match self {
            IpAddress::V4(_) => AddressKind::IPv4,
            IpAddress::V6(_) => AddressKind::IPv6,
        }
    }

    /// The family of the address.
    pub fn address_kind(&self) -> (r: AddressKind)
        ensures
            r == self.kind(),
    {
        match self {
            IpAddress::V4(_) => AddressKind::IPv4,
            IpAddress::V6(_) => AddressKind::IPv6,
        }
    }

    /// Tells whether the address is an IPv4 address.
    pub fn is_ipv4(&self) -> (r: bool)
        ensures
            r == (self is V4),
    {
        match self {
            IpAddress::V4(_) => true,
            IpAddress::V6(_) => false,
        }
    }

    /// Tells whether the address is an IPv6 address.
    pub fn is_ipv6(&self) -> (r: bool)
        ensures
            r == (self is V6),
    {
        match self {
            IpAddress::V4(_) => false,
            IpAddress::V6(_) => true,
        }
    }
}

/// Parses a literal of the given kind.
pub fn parse_address(bytes: &[u8], kind: AddressKind) -> (r: Option<IpAddress>)
    ensures
        match r {
            Some(address) => denotes(bytes@, kind, address),
            None => !is_address_text(bytes@, kind),
        },
{
    match kind {
        AddressKind::IPv4 => match parse_ipv4_bytes(bytes) {
            Some(ip) => Some(IpAddress::V4(ip)),
            None => None,
        },
        AddressKind::IPv6 => match parse_ipv6_bytes(bytes) {
            Some(ip) => Some(IpAddress::V6(ip)),
            None => None,
        },
    }
}

/// Parses a literal of either family.
pub fn parse_literal(bytes: &[u8]) -> (r: Option<IpAddress>)
    ensures
        match r {
            Some(address) => literal_address(bytes@) == Some(address_bytes(address)),
            None => literal_address(bytes@) is None,
        },
{
    match parse_ipv4_bytes(bytes) {
        Some(ip) => Some(IpAddress::V4(ip)),
        None => match parse_ipv6_bytes(bytes) {
            Some(ip) => Some(IpAddress::V6(ip)),
            None => None,
        },
    }
}

} // verus!
