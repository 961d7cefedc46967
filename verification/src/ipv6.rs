//! Parsing of IPv6 literals in their text forms, and their address categories.
//!
//! The accepted forms are the full form of eight groups, the forms with one
//! run of zero groups written as `::`, and either of them with the last two
//! groups written as a dotted quad.

use crate::ipv4::{
    ipv4_value, is_digit, is_strict_ipv4, lemma_split_fields_extend,
    lemma_split_fields_nonempty, parse_ipv4_bytes, split_fields, Ipv4Address,
};
use vstd::prelude::*;

verus! {

pub const COLON: u8 = 0x3a;

/// An IPv6 address as its eight groups of sixteen bits, most significant
/// first.
#[derive(Clone, Copy, Debug, PartialEq, Eq)]
pub struct Ipv6Address {
    pub groups: [u16; 8],
}

/// Whether a byte is a hexadecimal digit, in either case.
pub open spec fn is_hex_digit(b: u8) -> bool {
    is_digit(b) || 0x61 <= b <= 0x66 || 0x41 <= b <= 0x46
}

/// The value of a hexadecimal digit, and zero for any other byte.
pub open spec fn hex_digit_value(b: u8) -> nat {
    if is_digit(b) {
        (b - 0x30) as nat
    } else if 0x61 <= b <= 0x66 {
        (b - 0x61 + 10) as nat
    } else if 0x41 <= b <= 0x46 {
        (b - 0x41 + 10) as nat
    } else {
        0
    }
}

/// The number that a run of hexadecimal digits denotes.
pub open spec fn hex_value(t: Seq<u8>) -> nat
    decreases t.len(),
{
    if t.len() == 0 {
        0
    } else {
        hex_value(t.drop_last()) * 16 + hex_digit_value(t.last())
    }
}

/// One group in text form: one to four hexadecimal digits.
pub open spec fn is_group_text(t: Seq<u8>) -> bool {
    &&& 1 <= t.len() <= 4
    &&& forall|i: int| 0 <= i < t.len() ==> is_hex_digit(#[trigger] t[i])
}

/// The two groups that an embedded dotted quad stands for.
pub open spec fn v4_groups(ip: Ipv4Address) -> Seq<u16> {
    seq![(ip.a * 256 + ip.b) as u16, (ip.c * 256 + ip.d) as u16]
}

/// The values of a sequence of group texts.
pub open spec fn hex_groups(f: Seq<Seq<u8>>) -> Seq<u16> {
    Seq::new(f.len(), |k: int| hex_value(f[k]) as u16)
}

/// The groups that a colon-separated list denotes: every field is a group,
/// except that the last one may be a dotted quad where `allow_v4` holds.
pub open spec fn groups_of_list(t: Seq<u8>, allow_v4: bool) -> Option<Seq<u16>> {
    let f = split_fields(t, COLON);
    let body = f.drop_last();
    if forall|k: int| 0 <= k < body.len() ==> is_group_text(#[trigger] body[k]) {
        if is_group_text(f.last()) {
            Some(hex_groups(f))
        } else if allow_v4 && is_strict_ipv4(f.last()) {
            Some(hex_groups(body) + v4_groups(ipv4_value(f.last())))
        } else {
            None
        }
    } else {
        None
    }
}

/// The first position at or after `i` where two colons stand side by side,
/// or the length of the text where there is none.
pub open spec fn first_double_colon_from(s: Seq<u8>, i: int) -> int
    decreases s.len() - i,
{
    if i < 0 || i + 1 >= s.len() {
        s.len() as int
    } else if s[i] == COLON && s[i + 1] == COLON {
        i
    } else {
        first_double_colon_from(s, i + 1)
    }
}

/// The first position where two colons stand side by side, or the length
/// of the text where there is none.
pub open spec fn first_double_colon(s: Seq<u8>) -> int {
    first_double_colon_from(s, 0)
}

/// The groups before the zero run, the zero groups, and the groups after it.
pub open spec fn expand(head: Seq<u16>, tail: Seq<u16>) -> Seq<u16> {
    head + Seq::new((8 - head.len() - tail.len()) as nat, |k: int| 0u16) + tail
}

/// The eight groups that a text denotes, if it is an IPv6 literal.
///
/// Without `::` the text is a list of exactly eight groups. With `::`, the
/// lists on either side of its first occurrence hold at most seven groups
/// together, either may be empty, and only the one after it may end in a
/// dotted quad.
pub open spec fn ipv6_of_text(s: Seq<u8>) -> Option<Seq<u16>> {
    let at = first_double_colon(s);
    if at == s.len() {
        match groups_of_list(s, true) {
            Some(g) => if g.len() == 8 {
                Some(g)
            } else {
                None
            },
            None => None,
        }
    } else {
        let head = if at == 0 {
            Some(Seq::<u16>::empty())
        } else {
            groups_of_list(s.take(at), false)
        };
        let tail = if at + 2 == s.len() {
            Some(Seq::<u16>::empty())
        } else {
            groups_of_list(s.skip(at + 2), true)
        };
        match (head, tail) {
            (Some(h), Some(t)) => if h.len() + t.len() <= 7 {
                Some(expand(h, t))
            } else {
                None
            },
            _ => None,
        }
    }
}

/// The loopback address `::1`.
pub open spec fn groups_are_loopback(g: Seq<u16>) -> bool {
    g =~= seq![0u16, 0u16, 0u16, 0u16, 0u16, 0u16, 0u16, 1u16]
}

/// Inside `fe80::/10`, the link-local unicast range.
pub open spec fn groups_are_link_local(g: Seq<u16>) -> bool {
    0xfe80 <= g[0] <= 0xfebf
}

/// Inside `fc00::/7`, the unique local range.
pub open spec fn groups_are_unique_local(g: Seq<u16>) -> bool {
    0xfc00 <= g[0] <= 0xfdff
}

/// Whether an address passes the category filters. Link-local and unique
/// local addresses both count as private.
pub open spec fn ipv6_permitted(g: Seq<u16>, include_private: bool, include_loopback: bool) -> bool {
    &&& (groups_are_link_local(g) || groups_are_unique_local(g) ==> include_private)
    &&& (groups_are_loopback(g) ==> include_loopback)
}

/// Whether a candidate text is accepted as an IPv6 literal: it parses and
/// passes the category filters.
pub open spec fn ipv6_accepted(s: Seq<u8>, include_private: bool, include_loopback: bool) -> bool {
    match ipv6_of_text(s) {
        Some(g) => ipv6_permitted(g, include_private, include_loopback),
        None => false,
    }
}

impl Ipv6Address {
    /// Whether the address is the loopback address.
    pub open spec fn spec_is_loopback(&self) -> bool {
        groups_are_loopback(self.groups@)
    }

    /// Whether the address is in the link-local unicast range.
    pub open spec fn spec_is_unicast_link_local(&self) -> bool {
        groups_are_link_local(self.groups@)
    }

    /// Whether the address is in the unique local range.
    pub open spec fn spec_is_unique_local(&self) -> bool {
        groups_are_unique_local(self.groups@)
    }

    /// The address with the given groups.
    pub fn new(groups: [u16; 8]) -> (r: Ipv6Address)
        ensures
            r.groups == groups,
    {
        Ipv6Address { groups }
    }

    /// The eight groups of the address.
    pub fn segments(&self) -> (r: [u16; 8])
        ensures
            r == self.groups,
    {
        self.groups
    }

    /// Tells whether the address is the loopback address.
    #[verifier::when_used_as_spec(spec_is_loopback)]
    pub fn is_loopback(&self) -> (r: bool)
        ensures
            r == self.spec_is_loopback(),
    {
        self.groups[0] == 0 && self.groups[1] == 0 && self.groups[2] == 0 && self.groups[3] == 0
            && self.groups[4] == 0 && self.groups[5] == 0 && self.groups[6] == 0 && self.groups[7]
            == 1
    }

    /// Tells whether the address is in the link-local unicast range.
    #[verifier::when_used_as_spec(spec_is_unicast_link_local)]
    pub fn is_unicast_link_local(&self) -> (r: bool)
        ensures
            r == self.spec_is_unicast_link_local(),
    {
        0xfe80 <= self.groups[0] && self.groups[0] <= 0xfebf
    }

    /// Tells whether the address is in the unique local range.
    #[verifier::when_used_as_spec(spec_is_unique_local)]
    pub fn is_unique_local(&self) -> (r: bool)
        ensures
            r == self.spec_is_unique_local(),
    {
        0xfc00 <= self.groups[0] && self.groups[0] <= 0xfdff
    }
}

fn hex_digit(b: u8) -> (r: Option<u16>)
    ensures
        r == (if is_hex_digit(b) {
            Some(hex_digit_value(b) as u16)
        } else {
            None
        }),
{
    if 0x30 <= b && b <= 0x39 {
        Some((b - 0x30) as u16)
    } else if 0x61 <= b && b <= 0x66 {
        Some((b - 0x61 + 10) as u16)
    } else if 0x41 <= b && b <= 0x46 {
        Some((b - 0x41 + 10) as u16)
    } else {
        None
    }
}

/// Parses one group: one to four hexadecimal digits and nothing else.
pub fn parse_group(field: &[u8]) -> (r: Option<u16>)
    ensures
        r == (if is_group_text(field@) {
            Some(hex_value(field@) as u16)
        } else {
            None
        }),
{
    let n = field.len();
    if n == 0 || n > 4 {
        return None;
    }
    let mut value: u16 = 0;
    let mut i: usize = 0;
    assert(field@.take(0) == Seq::<u8>::empty());
    while i < n
        invariant
            n == field@.len(),
            0 <= i <= n <= 4,
            forall|k: int| 0 <= k < i ==> is_hex_digit(#[trigger] field@[k]),
            value == hex_value(field@.take(i as int)),
            i == 0 ==> value == 0,
            i == 1 ==> value <= 0xf,
            i == 2 ==> value <= 0xff,
            i == 3 ==> value <= 0xfff,
        decreases n - i,
    {
        proof {
            assert(field@.take(i + 1).drop_last() == field@.take(i as int));
            assert(field@.take(i + 1).last() == field@[i as int]);
        }
        match hex_digit(field[i]) {
            Some(d) => {
                value = value * 16 + d;
            },
            None => {
                return None;
            },
        }
        i += 1;
    }
    assert(field@.take(n as int) == field@);
    Some(value)
}

/// Parses a colon-separated list of groups, whose last field may be a
/// dotted quad where `allow_v4` holds.
pub fn parse_group_list(bytes: &[u8], allow_v4: bool) -> (r: Option<Vec<u16>>)
    ensures
        match groups_of_list(bytes@, allow_v4) {
            Some(g) => r matches Some(v) && v@ == g,
            None => r is None,
        },
{
    let n = bytes.len();
    let mut groups: Vec<u16> = Vec::new();
    let mut start: usize = 0;
    let mut j: usize = 0;
    assert(bytes@.take(0) == Seq::<u8>::empty());
    assert(bytes@.subrange(0, 0) == Seq::<u8>::empty());
    while j < n
        invariant
            n == bytes@.len(),
            0 <= start <= j <= n,
            ({
                let p = split_fields(bytes@.take(j as int), COLON);
                &&& p.len() == groups@.len() + 1
                &&& p.last() == bytes@.subrange(start as int, j as int)
                &&& forall|k: int|
                    0 <= k < groups@.len() ==> is_group_text(#[trigger] p[k]) && groups@[k]
                        == hex_value(p[k]) as u16
            }),
        decreases n - j,
    {
        let ghost p = split_fields(bytes@.take(j as int), COLON);
        let ghost q = split_fields(bytes@.take(j + 1), COLON);
        proof {
            assert(bytes@.take(j + 1).drop_last() == bytes@.take(j as int));
            assert(bytes@.take(j + 1).last() == bytes@[j as int]);
        }
        if bytes[j] == COLON {
            assert(q == p.push(Seq::<u8>::empty()));
            let field = &bytes[start..j];
            match parse_group(field) {
                Some(g) => {
                    groups.push(g);
                },
                None => {
                    proof {
                        let f = split_fields(bytes@, COLON);
                        lemma_split_fields_extend(bytes@, COLON, j + 1, n as int);
                        assert(bytes@.take(n as int) == bytes@);
                        let idx = p.len() - 1;
                        assert(f[idx] == q[idx]);
                        assert(f.drop_last()[idx] == f[idx]);
                    }
                    return None;
                },
            }
            start = j + 1;
            proof {
                assert(bytes@.subrange(j + 1, j + 1) == Seq::<u8>::empty());
                assert forall|k: int| 0 <= k < groups@.len() implies is_group_text(
                    #[trigger] q[k],
                ) && groups@[k] == hex_value(q[k]) as u16 by {
                    assert(q[k] == p[k]);
                }
            }
        } else {
            proof {
                assert(q == p.update(p.len() - 1, p.last().push(bytes@[j as int])));
                assert(bytes@.subrange(start as int, j + 1) == bytes@.subrange(
                    start as int,
                    j as int,
                ).push(bytes@[j as int]));
                assert forall|k: int| 0 <= k < groups@.len() implies is_group_text(
                    #[trigger] q[k],
                ) && groups@[k] == hex_value(q[k]) as u16 by {
                    assert(q[k] == p[k]);
                }
            }
        }
        j += 1;
    }
    let ghost f = split_fields(bytes@, COLON);
    proof {
        assert(bytes@.take(n as int) == bytes@);
        assert forall|k: int| 0 <= k < f.drop_last().len() implies is_group_text(
            #[trigger] f.drop_last()[k],
        ) by {
            assert(f.drop_last()[k] == f[k]);
        }
    }
    let last = &bytes[start..n];
    match parse_group(last) {
        Some(g) => {
            groups.push(g);
            assert(groups@ =~= hex_groups(f));
            Some(groups)
        },
        None => {
            if !allow_v4 {
                return None;
            }
            match parse_ipv4_bytes(last) {
                Some(ip) => {
                    let ghost body = groups@;
                    assert(body =~= hex_groups(f.drop_last()));
                    groups.push(ip.a as u16 * 256 + ip.b as u16);
                    groups.push(ip.c as u16 * 256 + ip.d as u16);
                    assert(groups@ =~= hex_groups(f.drop_last()) + v4_groups(ip));
                    Some(groups)
                },
                None => None,
            }
        },
    }
}

/// Finds the first `::` of a text.
pub fn find_double_colon(bytes: &[u8]) -> (at: usize)
    ensures
        at == first_double_colon(bytes@),
        at <= bytes@.len(),
        at < bytes@.len() ==> at + 2 <= bytes@.len(),
{
    let n = bytes.len();
    let mut i: usize = 0;
    while i < n && i + 1 < n
        invariant
            n == bytes@.len(),
            0 <= i <= n,
            first_double_colon(bytes@) == first_double_colon_from(bytes@, i as int),
        decreases n - i,
    {
        if bytes[i] == COLON && bytes[i + 1] == COLON {
            return i;
        }
        i += 1;
    }
    n
}

/// Parses an IPv6 literal.
pub fn parse_ipv6_bytes(bytes: &[u8]) -> (r: Option<Ipv6Address>)
    ensures
        match ipv6_of_text(bytes@) {
            Some(g) => r matches Some(ip) && ip.groups@ == g,
            None => r is None,
        },
{
    let n = bytes.len();
    let at = find_double_colon(bytes);
    let head: Vec<u16>;
    let tail: Vec<u16>;
    if at == n {
        match parse_group_list(bytes, true) {
            Some(g) => {
                if g.len() != 8 {
                    return None;
                }
                head = g;
                tail = Vec::new();
            },
            None => {
                return None;
            },
        }
    } else {
        if at == 0 {
            head = Vec::new();
        } else {
            let before = &bytes[0..at];
            assert(before@ == bytes@.take(at as int));
            match parse_group_list(before, false) {
                Some(g) => {
                    head = g;
                },
                None => {
                    return None;
                },
            }
        }
        if at + 2 == n {
            tail = Vec::new();
        } else {
            let after = &bytes[at + 2..n];
            assert(after@ == bytes@.skip(at + 2));
            match parse_group_list(after, true) {
                Some(g) => {
                    tail = g;
                },
                None => {
                    return None;
                },
            }
        }
        if head.len() > 7 || tail.len() > 7 - head.len() {
            return None;
        }
    }
    let h = head.len();
    let t = tail.len();
    let mut groups: [u16; 8] = [0u16; 8];
    let mut i: usize = 0;
    while i < h
        invariant
            h == head@.len(),
            t == tail@.len(),
            h + t <= 8,
            0 <= i <= h,
            forall|k: int| 0 <= k < i ==> groups@[k] == head@[k],
            forall|k: int| i <= k < 8 ==> groups@[k] == 0,
        decreases h - i,
    {
        groups[i] = head[i];
        i += 1;
    }
    let mut j: usize = 0;
    while j < t
        invariant
            h == head@.len(),
            t == tail@.len(),
            h + t <= 8,
            0 <= j <= t,
            forall|k: int| 0 <= k < h ==> groups@[k] == head@[k],
            forall|k: int| h <= k < 8 - t ==> groups@[k] == 0,
            forall|k: int| 0 <= k < j ==> groups@[8 - t + k] == tail@[k],
        decreases t - j,
    {
        groups[8 - t + j] = tail[j];
        j += 1;
    }
    proof {
        assert(groups@ =~= expand(head@, tail@));
        if at == n {
            assert(expand(head@, tail@) =~= head@);
        }
    }
    Some(Ipv6Address { groups })
}

/// Parse, then the category filters.
pub fn validate_ipv6(bytes: &[u8], include_private: bool, include_loopback: bool) -> (r: bool)
    ensures
        r == ipv6_accepted(bytes@, include_private, include_loopback),
{
    if bytes.len() < 2 {
        proof {
            lemma_ipv6_min_len(bytes@);
        }
        return false;
    }
    let ip = match parse_ipv6_bytes(bytes) {
        Some(ip) => ip,
        None => {
            return false;
        },
    };
    if !include_private && (ip.is_unicast_link_local() || ip.is_unique_local()) {
        return false;
    }
    if !include_loopback && ip.is_loopback() {
        return false;
    }
    true
}

/// No IPv6 literal is shorter than `::`.
pub proof fn lemma_ipv6_min_len(s: Seq<u8>)
    requires
        s.len() < 2,
    ensures
        ipv6_of_text(s) is None,
{
    assert(first_double_colon(s) == s.len());
    let f = split_fields(s, COLON);
    lemma_split_fields_nonempty(s, COLON);
    if groups_of_list(s, true) is Some {
        let g = groups_of_list(s, true).unwrap();
        assert(f.len() <= 2);
        assert(hex_groups(f).len() <= 2);
        assert(hex_groups(f.drop_last()).len() <= 1);
        assert(g.len() <= 3);
    }
}

} // verus!
