//! What holds of the matches of every buffer.
//!
//! Every match is a literal that the settings accept, it ends where the
//! literal stops, and the matches come in the order of the buffer. Two
//! matches share no byte, with one exception: an IPv6 literal of forty
//! bytes whose start was not found within the lookback can reach back
//! into an IPv4 literal before it.

use crate::extractor::{is_left_edge, literal_start, lookback_floor, nearest_left_edge, right_boundary_ok, spec_is_ip_char, AddressKind, ExtractorConfig, Match, LOOKBACK};
use crate::grammar::leftmost_match;
use crate::ipv4::{ipv4_accepted, ipv4_value, is_digit, is_octet_text, is_prefix_of, is_strict_ipv4, lemma_split_fields_extend, lemma_split_fields_nonempty, lemma_strict_ipv4_len, split_fields, DOT};
use crate::ipv6::{first_double_colon, first_double_colon_from, groups_of_list, ipv6_accepted, ipv6_of_text, is_group_text, is_hex_digit, lemma_ipv6_min_len, COLON};
use vstd::prelude::*;

verus! {

/// Whether the settings accept a text as a literal of the given kind: the
/// kind is looked for, the text is an address of that kind, and the
/// address is in no category that is kept out.
pub open spec fn config_accepts(config: ExtractorConfig, kind: AddressKind, text: Seq<u8>) -> bool {
    match kind {
        AddressKind::IPv4 => config.include_ipv4 && ipv4_accepted(
            text,
            config.include_private,
            config.include_loopback,
            config.include_broadcast,
        ),
        AddressKind::IPv6 => config.include_ipv6 && ipv6_accepted(
            text,
            config.include_private,
            config.include_loopback,
        ),
    }
}

/// What holds of a match in a buffer: it lies inside the buffer and holds
/// at least one byte, it starts where the lookback from its end finds its
/// start, it stops at its end, and the settings accept its text.
pub open spec fn is_valid_match(config: ExtractorConfig, h: Seq<u8>, m: Match) -> bool {
    &&& 0 <= m.start < m.end <= h.len()
    &&& m.start == literal_start(h, m.end as int)
    &&& right_boundary_ok(h, m.end as int, m.kind)
    &&& config_accepts(config, m.kind, h.subrange(m.start as int, m.end as int))
}

/// Where the second of two matches may reach back into the first: it is an
/// IPv6 literal of exactly the length of the lookback that does not start
/// at a left edge, and the first is an IPv4 literal.
pub open spec fn may_reach_back(h: Seq<u8>, first: Match, second: Match) -> bool {
    &&& first.kind == AddressKind::IPv4
    &&& second.kind == AddressKind::IPv6
    &&& second.end - second.start == LOOKBACK
    &&& !is_left_edge(h, second.start as int)
}

/// The start of a literal lies within the lookback from its end. It is a
/// left edge, or else the floor of the lookback, and no left edge lies
/// between it and the end.
pub proof fn lemma_literal_start(h: Seq<u8>, end: int)
    requires
        0 <= end,
    ensures
        lookback_floor(end) <= literal_start(h, end) <= end,
        end > 0 ==> literal_start(h, end) < end,
        is_left_edge(h, literal_start(h, end)) || (literal_start(h, end) == lookback_floor(end)
            && end - literal_start(h, end) == LOOKBACK),
        forall|j: int| literal_start(h, end) < j < end ==> !is_left_edge(h, j),
{
    lemma_nearest_left_edge(h, lookback_floor(end), end);
}

proof fn lemma_nearest_left_edge(h: Seq<u8>, floor: int, i: int)
    requires
        0 <= floor <= i,
    ensures
        floor <= nearest_left_edge(h, floor, i) <= i,
        i > floor ==> nearest_left_edge(h, floor, i) < i,
        is_left_edge(h, nearest_left_edge(h, floor, i)) || nearest_left_edge(h, floor, i)
            == floor,
        forall|j: int| nearest_left_edge(h, floor, i) < j < i ==> !is_left_edge(h, j),
    decreases i - floor,
{
    if i > floor && !is_left_edge(h, i - 1) {
        lemma_nearest_left_edge(h, floor, i - 1);
    }
}

/// Every byte of a text is a separator or stands in one of the fields of
/// the text.
pub proof fn lemma_split_fields_cover(s: Seq<u8>, sep: u8, k: int)
    requires
        0 <= k < s.len(),
    ensures
        s[k] == sep || exists|f: int, x: int|
            0 <= f < split_fields(s, sep).len() && 0 <= x < split_fields(s, sep)[f].len()
                && #[trigger] split_fields(s, sep)[f][x] == s[k],
    decreases s.len(),
{
    let fields = split_fields(s, sep);
    let before = split_fields(s.drop_last(), sep);
    lemma_split_fields_nonempty(s.drop_last(), sep);
    if k == s.len() - 1 {
        if s[k] != sep {
            let f = fields.len() - 1;
            let x = fields[f].len() - 1;
            assert(fields[f][x] == s[k]);
        }
    } else {
        lemma_split_fields_cover(s.drop_last(), sep, k);
        assert(s.drop_last()[k] == s[k]);
        if s[k] != sep {
            let (f, x) = choose|f: int, x: int|
                0 <= f < before.len() && 0 <= x < before[f].len() && #[trigger] before[f][x]
                    == s[k];
            assert(fields[f][x] == s[k]);
        }
    }
}

/// A text without separator is its own single field.
pub proof fn lemma_split_fields_whole(s: Seq<u8>, sep: u8)
    requires
        forall|k: int| 0 <= k < s.len() ==> s[k] != sep,
    ensures
        split_fields(s, sep) == seq![s],
    decreases s.len(),
{
    if s.len() == 0 {
        assert(s == Seq::<u8>::empty());
    } else {
        lemma_split_fields_whole(s.drop_last(), sep);
        assert(s.drop_last().push(s.last()) == s);
        assert(seq![s.drop_last()].update(0, s) == seq![s]);
    }
}

/// A strict dotted quad holds digits and dots, and nothing else.
pub proof fn lemma_ipv4_chars(s: Seq<u8>)
    requires
        is_strict_ipv4(s),
    ensures
        forall|k: int| 0 <= k < s.len() ==> is_digit(#[trigger] s[k]) || s[k] == DOT,
{
    assert forall|k: int| 0 <= k < s.len() implies is_digit(#[trigger] s[k]) || s[k] == DOT by {
        lemma_split_fields_cover(s, DOT, k);
        if s[k] != DOT {
            let fields = split_fields(s, DOT);
            let (f, x) = choose|f: int, x: int|
                0 <= f < fields.len() && 0 <= x < fields[f].len() && #[trigger] fields[f][x]
                    == s[k];
            assert(is_octet_text(fields[f]));
        }
    }
}

/// A strict dotted quad holds a dot.
pub proof fn lemma_ipv4_has_dot(s: Seq<u8>)
    requires
        is_strict_ipv4(s),
    ensures
        exists|d: int| 0 <= d < s.len() && s[d] == DOT,
{
    if forall|k: int| 0 <= k < s.len() ==> s[k] != DOT {
        lemma_split_fields_whole(s, DOT);
    }
}

/// In a strict dotted quad a digit follows every dot.
pub proof fn lemma_dot_then_digit(s: Seq<u8>, q: int)
    requires
        is_strict_ipv4(s),
        0 <= q < s.len(),
        s[q] == DOT,
    ensures
        q + 1 < s.len(),
        is_digit(s[q + 1]),
{
    let fields = split_fields(s, DOT);
    let before = split_fields(s.take(q), DOT);
    let closed = split_fields(s.take(q + 1), DOT);
    lemma_split_fields_nonempty(s.take(q), DOT);
    assert(s.take(q + 1).drop_last() == s.take(q));
    assert(closed == before.push(Seq::<u8>::empty()));
    let k = before.len() as int;
    lemma_split_fields_extend(s, DOT, q + 1, s.len() as int);
    assert(s.take(s.len() as int) == s);
    assert(is_octet_text(fields[k]));
    if q + 1 == s.len() {
        assert(s.take(q + 1) == s);
    } else {
        let next = split_fields(s.take(q + 2), DOT);
        assert(s.take(q + 2).drop_last() == s.take(q + 1));
        lemma_split_fields_extend(s, DOT, q + 2, s.len() as int);
        if s[q + 1] == DOT {
            assert(next == closed.push(Seq::<u8>::empty()));
            assert(fields[k] == next[k]);
        } else {
            assert(next == closed.update(k, closed[k].push(s[q + 1])));
            assert(is_prefix_of(next[k], fields[k]));
            assert(fields[k].take(1)[0] == fields[k][0]);
            assert(next[k][0] == s[q + 1]);
        }
    }
}

/// A list of groups holds address characters, and nothing else.
pub proof fn lemma_group_list_chars(s: Seq<u8>, allow_v4: bool)
    requires
        groups_of_list(s, allow_v4) is Some,
    ensures
        forall|k: int| 0 <= k < s.len() ==> spec_is_ip_char(#[trigger] s[k]),
{
    let fields = split_fields(s, COLON);
    assert forall|k: int| 0 <= k < s.len() implies spec_is_ip_char(#[trigger] s[k]) by {
        lemma_split_fields_cover(s, COLON, k);
        if s[k] != COLON {
            let (f, x) = choose|f: int, x: int|
                0 <= f < fields.len() && 0 <= x < fields[f].len() && #[trigger] fields[f][x]
                    == s[k];
            if f < fields.len() - 1 {
                assert(fields.drop_last()[f] == fields[f]);
                assert(is_group_text(fields[f]));
            } else {
                if !is_group_text(fields[f]) {
                    lemma_ipv4_chars(fields[f]);
                }
            }
        }
    }
}

/// Where a text has its first `::`, if it has one.
proof fn lemma_first_double_colon(s: Seq<u8>, i: int)
    requires
        0 <= i,
    ensures
        i <= first_double_colon_from(s, i) || first_double_colon_from(s, i) == s.len(),
        0 <= first_double_colon_from(s, i) <= s.len(),
        first_double_colon_from(s, i) < s.len() ==> first_double_colon_from(s, i) + 1 < s.len()
            && s[first_double_colon_from(s, i)] == COLON && s[first_double_colon_from(s, i) + 1]
            == COLON,
    decreases s.len() - i,
{
    if i + 1 < s.len() && !(s[i] == COLON && s[i + 1] == COLON) {
        lemma_first_double_colon(s, i + 1);
    }
}

/// An IPv6 literal holds address characters, and nothing else.
pub proof fn lemma_ipv6_chars(s: Seq<u8>)
    requires
        ipv6_of_text(s) is Some,
    ensures
        forall|k: int| 0 <= k < s.len() ==> spec_is_ip_char(#[trigger] s[k]),
{
    let at = first_double_colon(s);
    lemma_first_double_colon(s, 0);
    if at == s.len() {
        lemma_group_list_chars(s, true);
    } else {
        if at > 0 {
            lemma_group_list_chars(s.take(at), false);
        }
        if at + 2 < s.len() {
            lemma_group_list_chars(s.skip(at + 2), true);
        }
        assert forall|k: int| 0 <= k < s.len() implies spec_is_ip_char(#[trigger] s[k]) by {
            if k < at {
                assert(s.take(at)[k] == s[k]);
            } else if k >= at + 2 {
                assert(s.skip(at + 2)[k - at - 2] == s[k]);
            }
        }
    }
}

/// A text that the settings accept holds address characters, and nothing
/// else.
pub proof fn lemma_accepted_chars(config: ExtractorConfig, kind: AddressKind, text: Seq<u8>)
    requires
        config_accepts(config, kind, text),
    ensures
        forall|k: int| 0 <= k < text.len() ==> spec_is_ip_char(#[trigger] text[k]),
{
    match kind {
        AddressKind::IPv4 => {
            lemma_ipv4_chars(text);
        },
        AddressKind::IPv6 => {
            lemma_ipv6_chars(text);
        },
    }
}

/// A text that starts with a strict dotted quad and goes on is no IPv6
/// literal.
pub proof fn lemma_quad_then_more_is_no_ipv6(quad: Seq<u8>, text: Seq<u8>)
    requires
        is_strict_ipv4(quad),
        is_prefix_of(quad, text),
        quad.len() < text.len(),
    ensures
        ipv6_of_text(text) is None,
{
    lemma_ipv4_chars(quad);
    lemma_ipv4_has_dot(quad);
    lemma_strict_ipv4_len(quad);
    let d = choose|d: int| 0 <= d < quad.len() && quad[d] == DOT;
    let n = quad.len() as int;
    assert(text.take(n) == quad);
    assert forall|k: int| 0 <= k < n implies text[k] != COLON by {
        assert(text.take(n)[k] == text[k]);
        assert(is_digit(quad[k]) || quad[k] == DOT);
    }
    assert(text[d] == DOT) by {
        assert(text.take(n)[d] == text[d]);
    }
    let at = first_double_colon(text);
    lemma_first_double_colon(text, 0);
    if at == text.len() {
        lemma_first_field_has_prefix(quad, text);
        let fields = split_fields(text, COLON);
        assert(fields[0].take(n)[d] == fields[0][d]);
        assert(!is_hex_digit(fields[0][d]));
        if fields.len() >= 2 {
            assert(fields.drop_last()[0] == fields[0]);
        } else {
            assert(fields.last() == fields[0]);
            if groups_of_list(text, true) is Some {
                assert(fields.drop_last().len() == 0);
                assert(groups_of_list(text, true).unwrap().len() == 2);
            }
        }
    } else {
        assert(at >= n);
        let head = text.take(at);
        assert(head.take(n) =~= text.take(n));
        lemma_first_field_has_prefix(quad, head);
        let fields = split_fields(head, COLON);
        assert(fields[0].take(n)[d] == fields[0][d]);
        assert(!is_hex_digit(fields[0][d]));
        if fields.len() >= 2 {
            assert(fields.drop_last()[0] == fields[0]);
        } else {
            assert(fields.last() == fields[0]);
        }
    }
}

/// The first field of a text starts with every start of the text that
/// holds no colon.
proof fn lemma_first_field_has_prefix(start: Seq<u8>, text: Seq<u8>)
    requires
        is_prefix_of(start, text),
        forall|k: int| 0 <= k < start.len() ==> start[k] != COLON,
    ensures
        split_fields(text, COLON).len() >= 1,
        is_prefix_of(start, split_fields(text, COLON)[0]),
{
    lemma_split_fields_whole(start, COLON);
    lemma_split_fields_extend(text, COLON, start.len() as int, text.len() as int);
    assert(text.take(text.len() as int) == text);
}

/// A text that starts with a strict dotted quad and goes on with a byte
/// that is no digit, and no dot before a digit, is no strict dotted quad.
pub proof fn lemma_quad_then_more_is_no_quad(quad: Seq<u8>, text: Seq<u8>)
    requires
        is_strict_ipv4(quad),
        is_prefix_of(quad, text),
        quad.len() < text.len(),
        !is_digit(text[quad.len() as int]),
        !(text[quad.len() as int] == DOT && quad.len() + 1 < text.len() && is_digit(
            text[quad.len() as int + 1],
        )),
    ensures
        !is_strict_ipv4(text),
{
    let n = quad.len() as int;
    if is_strict_ipv4(text) {
        lemma_ipv4_chars(text);
        assert(text[n] == DOT);
        lemma_dot_then_digit(text, n);
    }
}

/// Two valid matches of which the first ends before the second ends
/// share no byte, unless the second may reach back into the first.
pub proof fn lemma_matches_apart(config: ExtractorConfig, h: Seq<u8>, first: Match, second: Match)
    requires
        is_valid_match(config, h, first),
        is_valid_match(config, h, second),
        first.end < second.end,
    ensures
        first.end <= second.start || may_reach_back(h, first, second),
{
    let s1 = first.start as int;
    let e1 = first.end as int;
    let s2 = second.start as int;
    let e2 = second.end as int;
    let t1 = h.subrange(s1, e1);
    let t2 = h.subrange(s2, e2);
    if s2 < e1 {
        lemma_accepted_chars(config, first.kind, t1);
        lemma_accepted_chars(config, second.kind, t2);
        assert(t2[e1 - s2] == h[e1]);
        assert(spec_is_ip_char(h[e1]));
        match first.kind {
            AddressKind::IPv6 => {
                assert(false);
            },
            AddressKind::IPv4 => {
                lemma_literal_start(h, e1);
                lemma_literal_start(h, e2);
                if is_left_edge(h, s2) || second.kind == AddressKind::IPv4 {
                    if s2 > s1 {
                        // The second literal starts inside the first.
                        assert(t1[s2 - 1 - s1] == h[s2 - 1]);
                        assert(!is_left_edge(h, s2));
                        if second.kind == AddressKind::IPv4 {
                            lemma_strict_ipv4_len(t2);
                            assert(false);
                        }
                    } else {
                        if !is_left_edge(h, s1) {
                            assert(s1 == lookback_floor(e1));
                            assert(s2 >= lookback_floor(e2));
                            if is_left_edge(h, s2) {
                                assert(s2 != s1);
                            } else {
                                lemma_strict_ipv4_len(t2);
                            }
                            assert(false);
                        }
                        assert(s2 == s1);
                        assert(t2.take(t1.len() as int) == t1);
                        assert(t2[t1.len() as int] == h[e1]);
                        if e1 + 1 < e2 {
                            assert(t2[t1.len() as int + 1] == h[e1 + 1]);
                        }
                        match second.kind {
                            AddressKind::IPv4 => {
                                lemma_quad_then_more_is_no_quad(t1, t2);
                            },
                            AddressKind::IPv6 => {
                                lemma_quad_then_more_is_no_ipv6(t1, t2);
                            },
                        }
                        assert(false);
                    }
                }
            },
        }
    }
}

/// Every match among those found from a position on is valid and ends
/// behind that position.
pub proof fn lemma_matches_from_valid(config: ExtractorConfig, h: Seq<u8>, pos: int, i: int)
    requires
        0 <= pos,
        0 <= i < config.matches_from(h, pos).len(),
    ensures
        is_valid_match(config, h, config.matches_from(h, pos)[i]),
        pos < config.matches_from(h, pos)[i].end,
    decreases h.len() - pos,
{
    match leftmost_match(config.patterns(), h, pos) {
        Some((end, pattern)) => {
            if pos < end <= h.len() && pattern < config.validators().len() {
                let validator = config.validators()[pattern as int];
                let rest = config.matches_from(h, end as int);
                match config.candidate(h, end as int, validator) {
                    Some(m) => {
                        if i == 0 {
                            lemma_literal_start(h, end as int);
                            let text = h.subrange(m.start as int, m.end as int);
                            assert(validator.accepts(text));
                            assert(config_accepts(config, m.kind, text));
                            match m.kind {
                                AddressKind::IPv4 => {
                                    lemma_strict_ipv4_len(text);
                                },
                                AddressKind::IPv6 => {
                                    if text.len() < 2 {
                                        lemma_ipv6_min_len(text);
                                    }
                                },
                            }
                        } else {
                            lemma_matches_from_valid(config, h, end as int, i - 1);
                            assert((seq![m] + rest)[i] == rest[i - 1]);
                        }
                    },
                    None => {
                        lemma_matches_from_valid(config, h, end as int, i);
                    },
                }
            }
        },
        None => {},
    }
}

/// Of two matches among those found from a position on, the earlier ends
/// before the later ends.
pub proof fn lemma_matches_from_ends(config: ExtractorConfig, h: Seq<u8>, pos: int, i: int, j: int)
    requires
        0 <= pos,
        0 <= i < j < config.matches_from(h, pos).len(),
    ensures
        config.matches_from(h, pos)[i].end < config.matches_from(h, pos)[j].end,
    decreases h.len() - pos,
{
    match leftmost_match(config.patterns(), h, pos) {
        Some((end, pattern)) => {
            if pos < end <= h.len() && pattern < config.validators().len() {
                let validator = config.validators()[pattern as int];
                let rest = config.matches_from(h, end as int);
                match config.candidate(h, end as int, validator) {
                    Some(m) => {
                        assert((seq![m] + rest)[j] == rest[j - 1]);
                        if i == 0 {
                            lemma_matches_from_valid(config, h, end as int, j - 1);
                        } else {
                            assert((seq![m] + rest)[i] == rest[i - 1]);
                            lemma_matches_from_ends(config, h, end as int, i - 1, j - 1);
                        }
                    },
                    None => {
                        lemma_matches_from_ends(config, h, end as int, i, j);
                    },
                }
            }
        },
        None => {},
    }
}

/// Every match of a buffer is a literal that the settings accept: it lies
/// inside the buffer, it stops at its end, and its text is an address of
/// its kind in no category that is kept out. An IPv4 match is a strict
/// dotted quad.
pub proof fn lemma_match_is_valid(config: ExtractorConfig, h: Seq<u8>, i: int)
    requires
        0 <= i < config.matches(h).len(),
    ensures
        is_valid_match(config, h, config.matches(h)[i]),
        config.matches(h)[i].kind == AddressKind::IPv4 ==> is_strict_ipv4(
            h.subrange(config.matches(h)[i].start as int, config.matches(h)[i].end as int),
        ),
{
    lemma_matches_from_valid(config, h, 0, i);
}

/// No match is an address of a category that the settings keep out, and
/// no match is of a family that the settings do not look for.
pub proof fn lemma_excluded_categories_absent(config: ExtractorConfig, h: Seq<u8>, i: int)
    requires
        0 <= i < config.matches(h).len(),
    ensures
        ({
            let m = config.matches(h)[i];
            let text = h.subrange(m.start as int, m.end as int);
            match m.kind {
                AddressKind::IPv4 => {
                    let ip = ipv4_value(text);
                    &&& config.include_ipv4
                    &&& ip.is_private() ==> config.include_private
                    &&& ip.is_loopback() ==> config.include_loopback
                    &&& ip.is_broadcast() || ip.is_link_local() ==> config.include_broadcast
                },
                AddressKind::IPv6 => {
                    &&& config.include_ipv6
                    &&& ipv6_of_text(text) matches Some(groups)
                    &&& crate::ipv6::groups_are_link_local(groups)
                        || crate::ipv6::groups_are_unique_local(groups)
                        ==> config.include_private
                    &&& crate::ipv6::groups_are_loopback(groups) ==> config.include_loopback
                },
            }
        }),
{
    lemma_matches_from_valid(config, h, 0, i);
}

/// The matches of a buffer come from left to right: of two matches the
/// earlier ends before the later ends, and it ends at or before the start
/// of the later, unless the later may reach back into it.
pub proof fn lemma_matches_in_order(config: ExtractorConfig, h: Seq<u8>, i: int, j: int)
    requires
        0 <= i < j < config.matches(h).len(),
    ensures
        config.matches(h)[i].end < config.matches(h)[j].end,
        config.matches(h)[i].end <= config.matches(h)[j].start || may_reach_back(
            h,
            config.matches(h)[i],
            config.matches(h)[j],
        ),
{
    lemma_matches_from_valid(config, h, 0, i);
    lemma_matches_from_valid(config, h, 0, j);
    lemma_matches_from_ends(config, h, 0, i, j);
    lemma_matches_apart(config, h, config.matches(h)[i], config.matches(h)[j]);
}

} // verus!
