//! Strict parsing of dotted-quad IPv4 literals and their address categories.

use vstd::prelude::*;

verus! {

pub const DOT: u8 = 0x2e;

pub const ZERO: u8 = 0x30;

pub const NINE: u8 = 0x39;

/// An IPv4 address as its four octets, most significant first.
#[derive(Clone, Copy, Debug, PartialEq, Eq, Structural)]
pub struct Ipv4Address {
    pub a: u8,
    pub b: u8,
    pub c: u8,
    pub d: u8,
}

impl Ipv4Address {
    /// Inside one of the ranges set aside for private networks:
    /// 10.0.0.0/8, 172.16.0.0/12 or 192.168.0.0/16.
    pub open spec fn spec_is_private(self) -> bool {
        ||| self.a == 10
        ||| (self.a == 172 && 16 <= self.b <= 31)
        ||| (self.a == 192 && self.b == 168)
    }

    /// Inside 127.0.0.0/8.
    pub open spec fn spec_is_loopback(self) -> bool {
        self.a == 127
    }

    /// The limited broadcast address 255.255.255.255.
    pub open spec fn spec_is_broadcast(self) -> bool {
        self.a == 255 && self.b == 255 && self.c == 255 && self.d == 255
    }

    /// Inside 169.254.0.0/16.
    pub open spec fn spec_is_link_local(self) -> bool {
        self.a == 169 && self.b == 254
    }

    /// The address with the given octets.
    pub fn new(a: u8, b: u8, c: u8, d: u8) -> (r: Ipv4Address)
        ensures
            r == (Ipv4Address { a, b, c, d }),
    {
        Ipv4Address { a, b, c, d }
    }

    /// The four octets of the address.
    pub fn octets(&self) -> (r: [u8; 4])
        ensures
            r@ == seq![self.a, self.b, self.c, self.d],
    {
        [self.a, self.b, self.c, self.d]
    }

    /// Tells whether the address is in a private range.
    #[verifier::when_used_as_spec(spec_is_private)]
    pub fn is_private(self) -> (r: bool)
        ensures
            r == self.spec_is_private(),
    {
        self.a == 10 || (self.a == 172 && 16 <= self.b && self.b <= 31) || (self.a == 192 && self.b
            == 168)
    }

    /// Tells whether the address is a loopback address.
    #[verifier::when_used_as_spec(spec_is_loopback)]
    pub fn is_loopback(self) -> (r: bool)
        ensures
            r == self.spec_is_loopback(),
    {
        self.a == 127
    }

    /// Tells whether the address is the broadcast address.
    #[verifier::when_used_as_spec(spec_is_broadcast)]
    pub fn is_broadcast(self) -> (r: bool)
        ensures
            r == self.spec_is_broadcast(),
    {
        self.a == 255 && self.b == 255 && self.c == 255 && self.d == 255
    }

    /// Tells whether the address is in the link-local range.
    #[verifier::when_used_as_spec(spec_is_link_local)]
    pub fn is_link_local(self) -> (r: bool)
        ensures
            r == self.spec_is_link_local(),
    {
        self.a == 169 && self.b == 254
    }
}

/// Whether an address passes the category filters: it belongs to no
/// category that is switched off. Broadcast and link-local go together.
pub open spec fn ipv4_permitted(
    ip: Ipv4Address,
    include_private: bool,
    include_loopback: bool,
    include_broadcast: bool,
) -> bool {
    &&& (ip.is_private() ==> include_private)
    &&& (ip.is_loopback() ==> include_loopback)
    &&& (ip.is_broadcast() || ip.is_link_local() ==> include_broadcast)
}

/// Whether a candidate text is accepted as an IPv4 literal: it parses
/// strictly and passes the category filters.
pub open spec fn ipv4_accepted(
    s: Seq<u8>,
    include_private: bool,
    include_loopback: bool,
    include_broadcast: bool,
) -> bool {
    is_strict_ipv4(s) && ipv4_permitted(
        ipv4_value(s),
        include_private,
        include_loopback,
        include_broadcast,
    )
}

/// Whether a byte is a decimal digit.
pub open spec fn is_digit(b: u8) -> bool {
    ZERO <= b <= NINE
}

/// The value of a decimal digit, and zero for any other byte.
pub open spec fn digit_value(b: u8) -> nat {
    if is_digit(b) {
        (b - ZERO) as nat
    } else {
        0
    }
}

/// The number that a run of decimal digits denotes.
pub open spec fn decimal_value(t: Seq<u8>) -> nat
    decreases t.len(),
{
    if t.len() == 0 {
        0
    } else {
        decimal_value(t.drop_last()) * 10 + digit_value(t.last())
    }
}

/// The pieces of `s` between occurrences of `sep`, in order. A text without
/// any separator is a single field, and an empty text a single empty field.
pub open spec fn split_fields(s: Seq<u8>, sep: u8) -> Seq<Seq<u8>>
    decreases s.len(),
{
    if s.len() == 0 {
        seq![Seq::<u8>::empty()]
    } else {
        let before = split_fields(s.drop_last(), sep);
        if s.last() == sep {
            before.push(Seq::<u8>::empty())
        } else {
            before.update(before.len() - 1, before.last().push(s.last()))
        }
    }
}

/// One octet in strict decimal form: one to three digits, no leading zero
/// unless the octet is the single digit `0`, and a value of at most 255.
pub open spec fn is_octet_text(t: Seq<u8>) -> bool {
    &&& 1 <= t.len() <= 3
    &&& forall|i: int| 0 <= i < t.len() ==> is_digit(#[trigger] t[i])
    &&& (t.len() > 1 ==> t[0] != ZERO)
    &&& decimal_value(t) <= 255
}

/// Exactly four strict octets separated by single dots.
pub open spec fn is_strict_ipv4(s: Seq<u8>) -> bool {
    let f = split_fields(s, DOT);
    &&& f.len() == 4
    &&& forall|k: int| 0 <= k < 4 ==> is_octet_text(#[trigger] f[k])
}

/// The address that a strict dotted quad denotes.
pub open spec fn ipv4_value(s: Seq<u8>) -> Ipv4Address {
    let f = split_fields(s, DOT);
    Ipv4Address {
        a: decimal_value(f[0]) as u8,
        b: decimal_value(f[1]) as u8,
        c: decimal_value(f[2]) as u8,
        d: decimal_value(f[3]) as u8,
    }
}

/// What strict parsing makes of `s`.
pub open spec fn ipv4_of_text(s: Seq<u8>) -> Option<Ipv4Address> {
    if is_strict_ipv4(s) {
        Some(ipv4_value(s))
    } else {
        None
    }
}

/// Whether a text starts with another.
pub open spec fn is_prefix_of(p: Seq<u8>, t: Seq<u8>) -> bool {
    p.len() <= t.len() && t.take(p.len() as int) == p
}

/// A text has at least one field, and at most one more than it has bytes.
pub proof fn lemma_split_fields_nonempty(s: Seq<u8>, sep: u8)
    ensures
        split_fields(s, sep).len() >= 1,
        split_fields(s, sep).len() <= s.len() + 1,
    decreases s.len(),
{
    if s.len() > 0 {
        lemma_split_fields_nonempty(s.drop_last(), sep);
    }
}

/// Reading on from a prefix never changes a field that a separator has
/// closed, and only lengthens the field that is still open.
pub proof fn lemma_split_fields_extend(s: Seq<u8>, sep: u8, i: int, j: int)
    requires
        0 <= i <= j <= s.len(),
    ensures
        ({
            let p = split_fields(s.take(i), sep);
            let f = split_fields(s.take(j), sep);
            &&& 1 <= p.len() <= f.len()
            &&& forall|k: int| 0 <= k < p.len() - 1 ==> #[trigger] f[k] == p[k]
            &&& is_prefix_of(p.last(), f[p.len() - 1])
        }),
    decreases j - i,
{
    lemma_split_fields_nonempty(s.take(i), sep);
    if i == j {
        let p = split_fields(s.take(i), sep);
        assert(p.last().take(p.last().len() as int) == p.last());
    } else {
        lemma_split_fields_extend(s, sep, i, j - 1);
        let p = split_fields(s.take(i), sep);
        let g = split_fields(s.take(j - 1), sep);
        let f = split_fields(s.take(j), sep);
        assert(s.take(j).drop_last() == s.take(j - 1));
        let last = p.len() - 1;
        if s.take(j).last() == sep {
            assert(f == g.push(Seq::<u8>::empty()));
        } else {
            assert(f == g.update(g.len() - 1, g.last().push(s.take(j).last())));
            if g.len() - 1 == last {
                assert(f[last].take(p.last().len() as int) == g[last].take(p.last().len() as int));
            }
        }
    }
}

/// A run of digits denotes no less than any of its starts.
pub proof fn lemma_decimal_value_prefix(p: Seq<u8>, t: Seq<u8>)
    requires
        is_prefix_of(p, t),
    ensures
        decimal_value(p) <= decimal_value(t),
    decreases t.len(),
{
    if p.len() < t.len() {
        assert(t.drop_last().take(p.len() as int) == t.take(p.len() as int));
        lemma_decimal_value_prefix(p, t.drop_last());
    } else {
        assert(t.take(t.len() as int) == t);
    }
}

/// What `parse_ipv4_bytes` knows of the text read so far: the closed fields
/// are strict octets, and the open one may still become one.
pub open spec fn scan_state(
    read: Seq<u8>,
    index: int,
    digits: int,
    value: int,
    o0: u8,
    o1: u8,
    o2: u8,
) -> bool {
    let p = split_fields(read, DOT);
    let open = p.last();
    &&& p.len() == index + 1
    &&& 0 <= index <= 3
    &&& forall|k: int| 0 <= k < index ==> is_octet_text(#[trigger] p[k])
    &&& (index > 0 ==> o0 == decimal_value(p[0]))
    &&& (index > 1 ==> o1 == decimal_value(p[1]))
    &&& (index > 2 ==> o2 == decimal_value(p[2]))
    &&& open.len() == digits
    &&& 0 <= digits <= 3
    &&& forall|i: int| 0 <= i < open.len() ==> is_digit(#[trigger] open[i])
    &&& decimal_value(open) == value
    &&& 0 <= value <= 255
    &&& (digits >= 1 && open[0] == ZERO ==> digits == 1 && value == 0)
    &&& (digits >= 1 && open[0] != ZERO ==> value >= 1)
    &&& (digits >= 2 ==> value >= 10)
    &&& (digits >= 3 ==> value >= 100)
}

/// A text is not a strict dotted quad once a prefix of it has closed a field
/// that is no octet, has opened a fifth field, or holds an open field that
/// no continuation can turn into an octet.
pub proof fn lemma_prefix_rejects(s: Seq<u8>, i: int)
    requires
        0 <= i <= s.len(),
        ({
            let p = split_fields(s.take(i), DOT);
            ||| p.len() > 4
            ||| exists|k: int| 0 <= k < p.len() - 1 && !is_octet_text(#[trigger] p[k])
            ||| p.last().len() > 3
            ||| exists|x: int| 0 <= x < p.last().len() && !is_digit(#[trigger] p.last()[x])
            ||| (p.last().len() > 1 && p.last()[0] == ZERO)
            ||| decimal_value(p.last()) > 255
        }),
    ensures
        !is_strict_ipv4(s),
{
    let p = split_fields(s.take(i), DOT);
    let f = split_fields(s, DOT);
    lemma_split_fields_extend(s, DOT, i, s.len() as int);
    assert(s.take(s.len() as int) == s);
    let last = p.len() - 1;
    if p.len() > 4 {
    } else if exists|k: int| 0 <= k < p.len() - 1 && !is_octet_text(#[trigger] p[k]) {
        let k = choose|k: int| 0 <= k < p.len() - 1 && !is_octet_text(#[trigger] p[k]);
        assert(f[k] == p[k]);
    } else if f.len() == 4 {
        let t = f[last];
        assert(is_prefix_of(p.last(), t));
        if p.last().len() > 3 {
        } else if exists|x: int| 0 <= x < p.last().len() && !is_digit(#[trigger] p.last()[x]) {
            let x = choose|x: int| 0 <= x < p.last().len() && !is_digit(#[trigger] p.last()[x]);
            assert(t.take(p.last().len() as int)[x] == t[x]);
            assert(!is_digit(t[x]));
        } else if p.last().len() > 1 && p.last()[0] == ZERO {
            assert(t.take(p.last().len() as int)[0] == t[0]);
        } else {
            lemma_decimal_value_prefix(p.last(), t);
        }
        assert(!is_octet_text(t));
    }
}

/// A strict dotted quad is between 7 and 15 bytes long.
pub proof fn lemma_strict_ipv4_len(s: Seq<u8>)
    requires
        is_strict_ipv4(s),
    ensures
        7 <= s.len() <= 15,
{
    lemma_split_fields_total_len(s, DOT);
    let f = split_fields(s, DOT);
    assert(is_octet_text(f[0]) && is_octet_text(f[1]) && is_octet_text(f[2]) && is_octet_text(f[3]));
    reveal_with_fuel(fields_len, 5);
    assert(f.drop_last().drop_last().drop_last().drop_last().len() == 0);
}

/// The bytes that the fields of a text hold, all together.
pub open spec fn fields_len(f: Seq<Seq<u8>>) -> nat
    decreases f.len(),
{
    if f.len() == 0 {
        0
    } else {
        fields_len(f.drop_last()) + f.last().len()
    }
}

/// A text is as long as its fields and the separators between them.
pub proof fn lemma_split_fields_total_len(s: Seq<u8>, sep: u8)
    ensures
        s.len() == fields_len(split_fields(s, sep)) + split_fields(s, sep).len() - 1,
    decreases s.len(),
{
    let f = split_fields(s, sep);
    if s.len() == 0 {
        assert(f.drop_last().len() == 0);
        assert(fields_len(f) == 0) by {
            reveal_with_fuel(fields_len, 2);
        }
    } else {
        lemma_split_fields_total_len(s.drop_last(), sep);
        lemma_split_fields_nonempty(s.drop_last(), sep);
        let g = split_fields(s.drop_last(), sep);
        if s.last() == sep {
            assert(f.drop_last() == g);
        } else {
            assert(f.drop_last() == g.drop_last());
            assert(f.last().len() == g.last().len() + 1);
        }
    }
}

/// Parses a dotted quad strictly: exactly four decimal octets, each at most
/// 255 and none with a leading zero, and nothing else.
pub fn parse_ipv4_bytes(bytes: &[u8]) -> (r: Option<Ipv4Address>)
    ensures
        r == ipv4_of_text(bytes@),
{
    let n = bytes.len();
    if n < 7 || n > 15 {
        proof {
            if is_strict_ipv4(bytes@) {
                lemma_strict_ipv4_len(bytes@);
            }
        }
        return None;
    }
    let mut o0: u8 = 0;
    let mut o1: u8 = 0;
    let mut o2: u8 = 0;
    let mut index: usize = 0;
    let mut value: u16 = 0;
    let mut digits: usize = 0;
    let mut i: usize = 0;
    assert(bytes@.take(0) == Seq::<u8>::empty());
    while i < n
        invariant
            n == bytes@.len(),
            0 <= i <= n,
            scan_state(bytes@.take(i as int), index as int, digits as int, value as int, o0, o1, o2),
        decreases n - i,
    {
        let b = bytes[i];
        proof {
            assert(bytes@.take(i + 1).drop_last() == bytes@.take(i as int));
            assert(bytes@.take(i + 1).last() == b);
        }
        let ghost p = split_fields(bytes@.take(i as int), DOT);
        let ghost q = split_fields(bytes@.take(i + 1), DOT);
        if b == DOT {
            assert(q == p.push(Seq::<u8>::empty()));
            if digits == 0 || index == 3 {
                proof {
                    if digits == 0 {
                        assert(!is_octet_text(q[index as int]));
                    }
                    lemma_prefix_rejects(bytes@, i + 1);
                }
                return None;
            }
            if index == 0 {
                o0 = value as u8;
            } else if index == 1 {
                o1 = value as u8;
            } else {
                o2 = value as u8;
            }
            index += 1;
            value = 0;
            digits = 0;
            proof {
                assert(is_octet_text(p.last()));
                assert forall|k: int| 0 <= k < index implies is_octet_text(#[trigger] q[k]) by {
                    assert(q[k] == p[k]);
                }
            }
        } else if ZERO <= b && b <= NINE {
            assert(q == p.update(p.len() - 1, p.last().push(b)));
            assert(q.last() == p.last().push(b));
            assert(q.last().drop_last() == p.last());
            if digits > 0 && value == 0 {
                proof {
                    assert(q.last()[0] == p.last()[0]);
                    lemma_prefix_rejects(bytes@, i + 1);
                }
                return None;
            }
            value = value * 10 + (b - ZERO) as u16;
            if value > 255 {
                proof {
                    lemma_prefix_rejects(bytes@, i + 1);
                }
                return None;
            }
            digits += 1;
            proof {
                assert forall|k: int| 0 <= k < index implies is_octet_text(#[trigger] q[k]) by {
                    assert(q[k] == p[k]);
                }
                assert forall|x: int| 0 <= x < q.last().len() implies is_digit(
                    #[trigger] q.last()[x],
                ) by {
                    if x < p.last().len() {
                        assert(q.last()[x] == p.last()[x]);
                    }
                }
                if digits > 1 {
                    assert(q.last()[0] == p.last()[0]);
                }
            }
        } else {
            proof {
                assert(q == p.update(p.len() - 1, p.last().push(b)));
                assert(!is_digit(q.last()[p.last().len() as int]));
                lemma_prefix_rejects(bytes@, i + 1);
            }
            return None;
        }
        i += 1;
    }
    assert(bytes@.take(n as int) == bytes@);
    if index != 3 || digits == 0 {
        return None;
    }
    Some(Ipv4Address { a: o0, b: o1, c: o2, d: value as u8 })
}

/// Strict parse, then the category filters.
pub fn validate_ipv4(
    bytes: &[u8],
    include_private: bool,
    include_loopback: bool,
    include_broadcast: bool,
) -> (r: bool)
    ensures
        r == ipv4_accepted(bytes@, include_private, include_loopback, include_broadcast),
{
    let ip = match parse_ipv4_bytes(bytes) {
        Some(ip) => ip,
        None => {
            return false;
        },
    };
    if !include_private && ip.is_private() {
        return false;
    }
    if !include_loopback && ip.is_loopback() {
        return false;
    }
    if !include_broadcast && (ip.is_broadcast() || ip.is_link_local()) {
        return false;
    }
    true
}

} // verus!
