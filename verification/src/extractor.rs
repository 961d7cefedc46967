//! Finds address literals in a byte buffer.
//!
//! The automaton of [`crate::grammar`] proposes the end of a candidate and
//! the grammar that it belongs to. The extractor finds where the candidate
//! starts, checks what follows it, and hands the text to the validator of
//! its kind.

use crate::address::{denotes, parse_address, IpAddress};
use crate::error::Error;
use crate::grammar::{
    build_error_text, compile_patterns, compiled_patterns, leftmost_match, pattern_texts,
    patterns_compile,
    search_forward, IPV4_PATTERN, IPV6_PATTERN,
};
use crate::ipv4::{ipv4_accepted, is_digit, validate_ipv4, DOT, NINE, ZERO};
use crate::ipv6::{ipv6_accepted, is_hex_digit, validate_ipv6, COLON};
use crate::text::{first_occurrences, lossy_string, string_views, utf8_lossy};
use core::ops::Range;
use regex_automata::dfa::dense::{BuildError, DFA};
use vstd::prelude::*;

verus! {

/// How far back from its end the start of a candidate is looked for.
pub const LOOKBACK: usize = 40;

/// Which of the two address families a literal belongs to.
#[derive(Clone, Copy, Debug, PartialEq, Eq, Structural)]
pub enum AddressKind {
    IPv4,
    IPv6,
}

/// An address literal in a buffer: the bytes from `start` up to `end`.
#[derive(Clone, Copy, Debug, PartialEq, Eq, Structural)]
pub struct Match {
    pub start: usize,
    pub end: usize,
    pub kind: AddressKind,
}

/// The settings of an extractor: the families to look for, the categories
/// to let through, and whether only routable addresses are wanted.
#[derive(Clone, Copy, Debug, PartialEq, Eq, Structural)]
pub struct ExtractorConfig {
    pub include_ipv4: bool,
    pub include_ipv6: bool,
    pub include_private: bool,
    pub include_loopback: bool,
    pub include_broadcast: bool,
    pub only_routable: bool,
}

/// The validator of one grammar, with the categories that it lets through.
#[derive(Clone, Copy, Debug, PartialEq, Eq, Structural)]
pub enum ValidatorType {
    IPv4 { include_private: bool, include_loopback: bool, include_broadcast: bool },
    IPv6 { include_private: bool, include_loopback: bool },
}

/// The bytes that an address literal can hold: hexadecimal digits, the dot
/// and the colon. The percent sign of a zone identifier is not among them.
pub open spec fn spec_is_ip_char(b: u8) -> bool {
    is_hex_digit(b) || b == DOT || b == COLON
}

/// Tells whether a byte can stand in an address literal.
#[verifier::when_used_as_spec(spec_is_ip_char)]
pub fn is_ip_char(b: u8) -> (r: bool)
    ensures
        r == spec_is_ip_char(b),
{
    (ZERO <= b && b <= NINE) || (0x61 <= b && b <= 0x66) || (0x41 <= b && b <= 0x46) || b == DOT
        || b == COLON
}

/// A position where a literal can start: the start of the buffer, or just
/// behind a byte that is no address character.
pub open spec fn is_left_edge(h: Seq<u8>, i: int) -> bool {
    i == 0 || !is_ip_char(h[i - 1])
}

/// The lowest position at which the start of a candidate that ends at
/// `end` is looked for.
pub open spec fn lookback_floor(end: int) -> int {
    if end >= LOOKBACK {
        end - LOOKBACK
    } else {
        0
    }
}

/// The last left edge among the positions from `floor` up to `i`, or
/// `floor` where there is none.
pub open spec fn nearest_left_edge(h: Seq<u8>, floor: int, i: int) -> int
    decreases i - floor,
{
    if i <= floor {
        floor
    } else if is_left_edge(h, i - 1) {
        i - 1
    } else {
        nearest_left_edge(h, floor, i - 1)
    }
}

/// Where the candidate that ends at `end` starts.
pub open spec fn literal_start(h: Seq<u8>, end: int) -> int {
    nearest_left_edge(h, lookback_floor(end), end)
}

/// Whether the candidate that ends at `end` stops there. The end of the
/// buffer always is a boundary. An IPv4 literal does not stop before a
/// digit, nor before a dot that a digit follows: `1.2.3.4.5` holds no
/// literal, while `1.2.3.4.` and `1.2.3.4.abc` hold `1.2.3.4`. An IPv6
/// literal does not stop before any address character.
pub open spec fn right_boundary_ok(h: Seq<u8>, end: int, kind: AddressKind) -> bool {
    end >= h.len() || match kind {
        AddressKind::IPv4 => !(is_digit(h[end]) || (h[end] == DOT && end + 1 < h.len() && is_digit(
            h[end + 1],
        ))),
        AddressKind::IPv6 => !is_ip_char(h[end]),
    }
}

impl ValidatorType {
    /// The family of the addresses that the validator accepts.
    pub open spec fn kind(&self) -> AddressKind {
        match self {
            ValidatorType::IPv4 { .. } => AddressKind::IPv4,
            ValidatorType::IPv6 { .. } => AddressKind::IPv6,
        }
    }

    /// Whether the validator accepts a text: the text parses strictly as an
    /// address of its kind, and the address is in no excluded category.
    pub open spec fn accepts(&self, text: Seq<u8>) -> bool {
        match self {
            ValidatorType::IPv4 { include_private, include_loopback, include_broadcast } => {
                ipv4_accepted(text, *include_private, *include_loopback, *include_broadcast)
            },
            ValidatorType::IPv6 { include_private, include_loopback } => ipv6_accepted(
                text,
                *include_private,
                *include_loopback,
            ),
        }
    }

    /// Tells whether the validator accepts a text.
    pub fn validate(&self, bytes: &[u8]) -> (r: bool)
        ensures
            r == self.accepts(bytes@),
    {
        match *self {
            ValidatorType::IPv4 {
                include_private,
                include_loopback,
                include_broadcast,
            } => validate_ipv4(bytes, include_private, include_loopback, include_broadcast),
            ValidatorType::IPv6 { include_private, include_loopback } => validate_ipv6(
                bytes,
                include_private,
                include_loopback,
            ),
        }
    }

    /// The family of the addresses that the validator accepts.
    pub fn address_kind(&self) -> (r: AddressKind)
        ensures
            r == self.kind(),
    {
        match self {
            ValidatorType::IPv4 { .. } => AddressKind::IPv4,
            ValidatorType::IPv6 { .. } => AddressKind::IPv6,
        }
    }
}

impl ExtractorConfig {
    /// The validator of IPv4 literals under these settings.
    pub open spec fn ipv4_validator(self) -> ValidatorType {
        ValidatorType::IPv4 {
            include_private: self.include_private,
            include_loopback: self.include_loopback,
            include_broadcast: self.include_broadcast,
        }
    }

    /// The validator of IPv6 literals under these settings.
    pub open spec fn ipv6_validator(self) -> ValidatorType {
        ValidatorType::IPv6 {
            include_private: self.include_private,
            include_loopback: self.include_loopback,
        }
    }

    /// The validators of the selected grammars, IPv4 first.
    pub open spec fn validators(self) -> Seq<ValidatorType> {
        (if self.include_ipv4 {
            seq![self.ipv4_validator()]
        } else {
            Seq::<ValidatorType>::empty()
        }) + (if self.include_ipv6 {
            seq![self.ipv6_validator()]
        } else {
            Seq::<ValidatorType>::empty()
        })
    }

    /// The patterns of the selected grammars, IPv4 first.
    pub open spec fn patterns(self) -> Seq<Seq<char>> {
        (if self.include_ipv4 {
            seq![IPV4_PATTERN@]
        } else {
            Seq::<Seq<char>>::empty()
        }) + (if self.include_ipv6 {
            seq![IPV6_PATTERN@]
        } else {
            Seq::<Seq<char>>::empty()
        })
    }

    /// What becomes of a candidate of the given grammar that ends at `end`:
    /// a match from its start to `end`, where it stops at `end` and its text
    /// is accepted, and nothing otherwise.
    pub open spec fn candidate(self, h: Seq<u8>, end: int, validator: ValidatorType) -> Option<
        Match,
    > {
        let start = literal_start(h, end);
        if right_boundary_ok(h, end, validator.kind()) && validator.accepts(h.subrange(start, end)) {
            Some(Match { start: start as usize, end: end as usize, kind: validator.kind() })
        } else {
            None
        }
    }

    /// The matches among the candidates that the automaton reports from
    /// `pos` on. After each candidate the scan goes on from its end, whether
    /// it became a match or not. A report that does not move the scan
    /// forward ends it.
    pub open spec fn matches_from(self, h: Seq<u8>, pos: int) -> Seq<Match>
        decreases h.len() - pos,
    {
        match leftmost_match(self.patterns(), h, pos) {
            Some((end, pattern)) => {
                if pos < end <= h.len() && pattern < self.validators().len() {
                    let rest = self.matches_from(h, end as int);
                    match self.candidate(h, end as int, self.validators()[pattern as int]) {
                        Some(m) => seq![m] + rest,
                        None => rest,
                    }
                } else {
                    Seq::<Match>::empty()
                }
            },
            None => Seq::<Match>::empty(),
        }
    }

    /// The matches in a buffer, from left to right.
    pub open spec fn matches(self, h: Seq<u8>) -> Seq<Match> {
        self.matches_from(h, 0)
    }
}

impl Match {
    /// The byte range of the match.
    pub fn range(&self) -> (r: Range<usize>)
        ensures
            r.start == self.start,
            r.end == self.end,
    {
        self.start..self.end
    }
}

/// Finds where the candidate that ends at `end` starts: at the nearest
/// left edge within the lookback, or at its floor.
pub fn find_start(haystack: &[u8], end: usize) -> (r: usize)
    requires
        end <= haystack@.len(),
    ensures
        r == literal_start(haystack@, end as int),
        lookback_floor(end as int) <= r <= end,
{
    let floor = if end >= LOOKBACK {
        end - LOOKBACK
    } else {
        0
    };
    let mut i = end;
    while i > floor
        invariant
            floor == lookback_floor(end as int),
            floor <= i <= end <= haystack@.len(),
            literal_start(haystack@, end as int) == nearest_left_edge(
                haystack@,
                floor as int,
                i as int,
            ),
        decreases i - floor,
    {
        if i - 1 == 0 || !is_ip_char(haystack[i - 2]) {
            return i - 1;
        }
        i -= 1;
    }
    floor
}

/// Checks that the candidate that ends at `end` stops there.
pub fn check_right_boundary(haystack: &[u8], end: usize, kind: AddressKind) -> (r: bool)
    requires
        end <= haystack@.len(),
    ensures
        r == right_boundary_ok(haystack@, end as int, kind),
{
    if end >= haystack.len() {
        return true;
    }
    let next = haystack[end];
    match kind {
        AddressKind::IPv4 => {
            let digit = ZERO <= next && next <= NINE;
            let dot_digit = next == DOT && end + 1 < haystack.len() && ZERO <= haystack[end + 1]
                && haystack[end + 1] <= NINE;
            !(digit || dot_digit)
        },
        AddressKind::IPv6 => !is_ip_char(next),
    }
}

/// Scans byte buffers for address literals.
#[derive(Debug)]
pub struct Extractor {
    dfa: DFA<Vec<u32>>,
    validators: Vec<ValidatorType>,
    config: ExtractorConfig,
}

impl View for Extractor {
    type V = ExtractorConfig;

    closed spec fn view(&self) -> ExtractorConfig {
        self.config
    }
}

impl Extractor {
    #[verifier::type_invariant]
    spec fn well_formed(&self) -> bool {
        &&& compiled_patterns(self.dfa) == self.config.patterns()
        &&& self.validators@ == self.config.validators()
    }

    /// Makes an extractor of the outcome of compiling the patterns of
    /// `config`.
    pub(crate) fn from_compiled(
        config: ExtractorConfig,
        compiled: Result<DFA<Vec<u32>>, BuildError>,
    ) -> (r: Result<Extractor, Error>)
        requires
            compiled matches Ok(dfa) ==> compiled_patterns(dfa) == config.patterns(),
        ensures
            compiled is Ok ==> (r matches Ok(e) && e@ == config),
            compiled is Err ==> (r matches Err(e) && e is Grammar),
    {
        match compiled {
            Ok(dfa) => {
                let mut validators: Vec<ValidatorType> = Vec::new();
                if config.include_ipv4 {
                    validators.push(
                        ValidatorType::IPv4 {
                            include_private: config.include_private,
                            include_loopback: config.include_loopback,
                            include_broadcast: config.include_broadcast,
                        },
                    );
                }
                if config.include_ipv6 {
                    validators.push(
                        ValidatorType::IPv6 {
                            include_private: config.include_private,
                            include_loopback: config.include_loopback,
                        },
                    );
                }
                assert(validators@ =~= config.validators());
                Ok(Extractor { dfa, validators, config })
            },
            Err(error) => Err(Error::Grammar { message: build_error_text(&error) }),
        }
    }

    /// The settings that the extractor was built with.
    pub fn config(&self) -> (r: ExtractorConfig)
        ensures
            r == self@,
    {
        self.config
    }

    /// Decides on one candidate: the literal that ends at `end` and was
    /// recognised by the grammar with index `pattern`.
    pub fn check_candidate(&self, haystack: &[u8], end: usize, pattern: usize) -> (r: Option<
        Match,
    >)
        ensures
            r == (if end <= haystack@.len() && pattern < self@.validators().len() {
                self@.candidate(haystack@, end as int, self@.validators()[pattern as int])
            } else {
                None
            }),
            r matches Some(m) ==> m.start <= m.end && m.end == end && end <= haystack@.len(),
    {
        proof {
            use_type_invariant(self);
        }
        if end > haystack.len() || pattern >= self.validators.len() {
            return None;
        }
        let validator = self.validators[pattern];
        let start = find_start(haystack, end);
        if !check_right_boundary(haystack, end, validator.address_kind()) {
            return None;
        }
        if validator.validate(&haystack[start..end]) {
            Some(Match { start, end, kind: validator.address_kind() })
        } else {
            None
        }
    }

    /// Finds the address literals of a buffer, from left to right.
    pub fn find_iter(&self, haystack: &[u8]) -> (r: Vec<Match>)
        ensures
            r@ == self@.matches(haystack@),
            forall|i: int| 0 <= i < r@.len() ==> (#[trigger] r@[i]).start <= r@[i].end <= haystack@.len(),
    {
        proof {
            use_type_invariant(self);
        }
        let mut out: Vec<Match> = Vec::new();
        let mut pos: usize = 0;
        loop
            invariant
                pos <= haystack@.len(),
                compiled_patterns(self.dfa) == self@.patterns(),
                self@.matches(haystack@) == out@ + self@.matches_from(haystack@, pos as int),
                forall|i: int|
                    0 <= i < out@.len() ==> (#[trigger] out@[i]).start <= out@[i].end
                        <= haystack@.len(),
            ensures
                self@.matches(haystack@) == out@,
                forall|i: int|
                    0 <= i < out@.len() ==> (#[trigger] out@[i]).start <= out@[i].end
                        <= haystack@.len(),
            decreases haystack@.len() - pos,
        {
            let found = search_forward(&self.dfa, haystack, pos);
            let (end, pattern) = match found {
                Some(c) => c,
                None => {
                    assert(out@ + Seq::<Match>::empty() == out@);
                    break;
                },
            };
            if end <= pos {
                assert(out@ + Seq::<Match>::empty() == out@);
                break;
            }
            let ghost before = out@;
            let ghost rest = self@.matches_from(haystack@, end as int);
            match self.check_candidate(haystack, end, pattern) {
                Some(m) => {
                    out.push(m);
                    assert(before + (seq![m] + rest) == out@ + rest);
                },
                None => {},
            }
            pos = end;
        }
        out
    }
}

/// Picks the grammars and validators of an extractor.
#[derive(Clone, Copy, Debug)]
pub struct ExtractorBuilder {
    config: ExtractorConfig,
}

impl View for ExtractorBuilder {
    type V = ExtractorConfig;

    closed spec fn view(&self) -> ExtractorConfig {
        self.config
    }
}

/// The settings of a new builder: both families, every category, and no
/// restriction to routable addresses.
pub open spec fn default_config() -> ExtractorConfig {
    ExtractorConfig {
        include_ipv4: true,
        include_ipv6: true,
        include_private: true,
        include_loopback: true,
        include_broadcast: true,
        only_routable: false,
    }
}

impl Default for ExtractorBuilder {
    fn default() -> (r: Self)
        ensures
            r@ == default_config(),
    {
        ExtractorBuilder::new()
    }
}

impl ExtractorBuilder {
    /// A builder that finds every address: both families, and private,
    /// loopback and broadcast addresses too.
    pub fn new() -> (r: Self)
        ensures
            r@ == default_config(),
    {
        ExtractorBuilder {
            config: ExtractorConfig {
                include_ipv4: true,
                include_ipv6: true,
                include_private: true,
                include_loopback: true,
                include_broadcast: true,
                only_routable: false,
            },
        }
    }

    /// Looks for IPv4 literals or not.
    pub fn ipv4(&mut self, enabled: bool) -> (r: &mut Self)
        ensures
            r@ == (ExtractorConfig { include_ipv4: enabled, ..old(self)@ }),
            *final(self) == *final(r),
    {
        self.config.include_ipv4 = enabled;
        self
    }

    /// Looks for IPv6 literals or not.
    pub fn ipv6(&mut self, enabled: bool) -> (r: &mut Self)
        ensures
            r@ == (ExtractorConfig { include_ipv6: enabled, ..old(self)@ }),
            *final(self) == *final(r),
    {
        self.config.include_ipv6 = enabled;
        self
    }

    /// Lets private addresses through or not: the private IPv4 ranges, and
    /// the link-local and unique local IPv6 ranges.
    pub fn private_ips(&mut self, enabled: bool) -> (r: &mut Self)
        ensures
            r@ == (ExtractorConfig { include_private: enabled, ..old(self)@ }),
            *final(self) == *final(r),
    {
        self.config.include_private = enabled;
        self
    }

    /// Lets loopback addresses through or not.
    pub fn loopback_ips(&mut self, enabled: bool) -> (r: &mut Self)
        ensures
            r@ == (ExtractorConfig { include_loopback: enabled, ..old(self)@ }),
            *final(self) == *final(r),
    {
        self.config.include_loopback = enabled;
        self
    }

    /// Lets the IPv4 broadcast address and the IPv4 link-local range
    /// through or not.
    pub fn broadcast_ips(&mut self, enabled: bool) -> (r: &mut Self)
        ensures
            r@ == (ExtractorConfig { include_broadcast: enabled, ..old(self)@ }),
            *final(self) == *final(r),
    {
        self.config.include_broadcast = enabled;
        self
    }

    /// Asks that only addresses with an autonomous system be decorated. The
    /// extractor carries the setting; the stream transformer acts on it.
    pub fn only_routable(&mut self, only: bool) -> (r: &mut Self)
        ensures
            r@ == (ExtractorConfig { only_routable: only, ..old(self)@ }),
            *final(self) == *final(r),
    {
        self.config.only_routable = only;
        self
    }

    /// Keeps private addresses out.
    pub fn ignore_private(&mut self) -> (r: &mut Self)
        ensures
            r@ == (ExtractorConfig { include_private: false, ..old(self)@ }),
            *final(self) == *final(r),
    {
        self.config.include_private = false;
        self
    }

    /// Keeps loopback addresses out.
    pub fn ignore_loopback(&mut self) -> (r: &mut Self)
        ensures
            r@ == (ExtractorConfig { include_loopback: false, ..old(self)@ }),
            *final(self) == *final(r),
    {
        self.config.include_loopback = false;
        self
    }

    /// Keeps the broadcast address and the link-local range out.
    pub fn ignore_broadcast(&mut self) -> (r: &mut Self)
        ensures
            r@ == (ExtractorConfig { include_broadcast: false, ..old(self)@ }),
            *final(self) == *final(r),
    {
        self.config.include_broadcast = false;
        self
    }

    /// Keeps every special category out.
    pub fn only_public(&mut self) -> (r: &mut Self)
        ensures
            r@ == (ExtractorConfig {
                include_private: false,
                include_loopback: false,
                include_broadcast: false,
                ..old(self)@
            }),
            *final(self) == *final(r),
    {
        self.config.include_private = false;
        self.config.include_loopback = false;
        self.config.include_broadcast = false;
        self
    }

    /// Compiles the selected grammars into an extractor. With no family
    /// selected there is nothing to compile, and the build fails. Otherwise
    /// the build succeeds exactly where the compilation of the selected
    /// grammars does, and the extractor has the settings of the builder.
    pub fn build(&self) -> (r: Result<Extractor, Error>)
        ensures
            (r is Ok) == ((self@.include_ipv4 || self@.include_ipv6) && patterns_compile(
                self@.patterns(),
            )),
            match r {
                Ok(e) => e@ == self@,
                Err(e) => if !self@.include_ipv4 && !self@.include_ipv6 {
                    e is NoPatterns
                } else {
                    e is Grammar
                },
            },
    {
        let mut patterns: Vec<&'static str> = Vec::new();
        if self.config.include_ipv4 {
            patterns.push(IPV4_PATTERN);
        }
        if self.config.include_ipv6 {
            patterns.push(IPV6_PATTERN);
        }
        if patterns.len() == 0 {
            return Err(Error::NoPatterns);
        }
        assert(pattern_texts(patterns@) =~= self.config.patterns());
        Extractor::from_compiled(self.config, compile_patterns(&patterns))
    }
}

/// The texts of the matches of a buffer, each decoded leniently.
pub open spec fn match_texts(h: Seq<u8>, ms: Seq<Match>) -> Seq<Seq<char>> {
    Seq::new(ms.len(), |i: int| utf8_lossy(h.subrange(ms[i].start as int, ms[i].end as int)))
}

/// Finds every address literal of a buffer, with the settings of a new
/// builder, and returns their texts in the order of the buffer.
pub fn extract(haystack: &[u8]) -> (r: Result<Vec<String>, Error>)
    ensures
        (r is Ok) == patterns_compile(default_config().patterns()),
        match r {
            Ok(v) => string_views(v@) == match_texts(
                haystack@,
                default_config().matches(haystack@),
            ),
            Err(e) => e is Grammar,
        },
{
    let extractor = match ExtractorBuilder::new().build() {
        Ok(e) => e,
        Err(e) => {
            return Err(e);
        },
    };
    let found = extractor.find_iter(haystack);
    let mut texts: Vec<String> = Vec::new();
    let mut i: usize = 0;
    while i < found.len()
        invariant
            0 <= i <= found@.len(),
            forall|k: int|
                0 <= k < found@.len() ==> (#[trigger] found@[k]).start <= found@[k].end
                    <= haystack@.len(),
            string_views(texts@) == match_texts(haystack@, found@.take(i as int)),
        decreases found@.len() - i,
    {
        let m = found[i];
        let text = lossy_string(&haystack[m.start..m.end]);
        let ghost seen = string_views(texts@);
        proof {
            assert(found@.take(i + 1) == found@.take(i as int).push(m));
            assert(match_texts(haystack@, found@.take(i + 1)) =~= match_texts(
                haystack@,
                found@.take(i as int),
            ).push(text@));
        }
        texts.push(text);
        assert(string_views(texts@) =~= seen.push(text@));
        i += 1;
    }
    assert(found@.take(found@.len() as int) == found@);
    Ok(texts)
}

/// Like [`extract`], but each text is returned once, where it first
/// occurs.
pub fn extract_unique(haystack: &[u8]) -> (r: Result<Vec<String>, Error>)
    ensures
        (r is Ok) == patterns_compile(default_config().patterns()),
        match r {
            Ok(v) => string_views(v@) == first_occurrences(
                match_texts(haystack@, default_config().matches(haystack@)),
            ),
            Err(e) => e is Grammar,
        },
{
    let extractor = match ExtractorBuilder::new().build() {
        Ok(e) => e,
        Err(e) => {
            return Err(e);
        },
    };
    let found = extractor.find_iter(haystack);
    let mut texts: Vec<String> = Vec::new();
    let mut i: usize = 0;
    while i < found.len()
        invariant
            0 <= i <= found@.len(),
            forall|k: int|
                0 <= k < found@.len() ==> (#[trigger] found@[k]).start <= found@[k].end
                    <= haystack@.len(),
            string_views(texts@) == first_occurrences(
                match_texts(haystack@, found@.take(i as int)),
            ),
        decreases found@.len() - i,
    {
        let m = found[i];
        let text = lossy_string(&haystack[m.start..m.end]);
        let ghost seen = string_views(texts@);
        proof {
            assert(found@.take(i + 1) == found@.take(i as int).push(m));
            assert(match_texts(haystack@, found@.take(i + 1)) =~= match_texts(
                haystack@,
                found@.take(i as int),
            ).push(text@));
            assert(match_texts(haystack@, found@.take(i + 1)).drop_last() =~= match_texts(
                haystack@,
                found@.take(i as int),
            ));
        }
        let mut known = false;
        let mut k: usize = 0;
        while k < texts.len()
            invariant
                0 <= k <= texts@.len(),
                seen == string_views(texts@),
                known <==> exists|j: int| 0 <= j < k && seen[j] == text@,
            decreases texts@.len() - k,
        {
            if texts[k] == text {
                known = true;
                assert(seen[k as int] == text@);
            }
            k += 1;
        }
        assert(known <==> seen.contains(text@));
        if !known {
            texts.push(text);
            assert(string_views(texts@) =~= seen.push(text@));
        }
        i += 1;
    }
    assert(found@.take(found@.len() as int) == found@);
    Ok(texts)
}

/// Whether addresses are those of the matches of a buffer, one for each
/// match in order.
pub open spec fn match_addresses(h: Seq<u8>, ms: Seq<Match>, addresses: Seq<IpAddress>) -> bool {
    &&& addresses.len() == ms.len()
    &&& forall|i: int|
        0 <= i < ms.len() ==> denotes(
            h.subrange(ms[i].start as int, ms[i].end as int),
            ms[i].kind,
            #[trigger] addresses[i],
        )
}

/// Finds every address literal of a buffer, with the settings of a new
/// builder, and returns the addresses in the order of the buffer.
pub fn extract_parsed(haystack: &[u8]) -> (r: Result<Vec<IpAddress>, Error>)
    ensures
        (r is Ok) == patterns_compile(default_config().patterns()),
        match r {
            Ok(v) => match_addresses(haystack@, default_config().matches(haystack@), v@),
            Err(e) => e is Grammar,
        },
{
    let extractor = match ExtractorBuilder::new().build() {
        Ok(e) => e,
        Err(e) => {
            return Err(e);
        },
    };
    let found = extractor.find_iter(haystack);
    let mut addresses: Vec<IpAddress> = Vec::new();
    let mut i: usize = 0;
    while i < found.len()
        invariant
            0 <= i <= found@.len(),
            found@ == default_config().matches(haystack@),
            forall|k: int|
                0 <= k < found@.len() ==> (#[trigger] found@[k]).start <= found@[k].end
                    <= haystack@.len(),
            match_addresses(haystack@, found@.take(i as int), addresses@),
        decreases found@.len() - i,
    {
        let m = found[i];
        let ghost before = addresses@;
        match parse_address(&haystack[m.start..m.end], m.kind) {
            Some(address) => {
                addresses.push(address);
                proof {
                    assert forall|k: int| 0 <= k < found@.take(i + 1).len() implies denotes(
                        haystack@.subrange(
                            found@.take(i + 1)[k].start as int,
                            found@.take(i + 1)[k].end as int,
                        ),
                        found@.take(i + 1)[k].kind,
                        #[trigger] addresses@[k],
                    ) by {
                        if k < i {
                            assert(found@.take(i as int)[k] == found@.take(i + 1)[k]);
                            assert(addresses@[k] == before[k]);
                        }
                    }
                }
            },
            None => {
                proof {
                    // A match is an address of its kind.
                    crate::matches::lemma_match_is_valid(default_config(), haystack@, i as int);
                    assert(false);
                }
                return Err(Error::NoPatterns);
            },
        }
        i += 1;
    }
    assert(found@.take(found@.len() as int) == found@);
    Ok(addresses)
}

/// Like [`extract_parsed`], but each address is returned once, where it
/// first occurs.
pub fn extract_unique_parsed(haystack: &[u8]) -> (r: Result<Vec<IpAddress>, Error>)
    ensures
        (r is Ok) == patterns_compile(default_config().patterns()),
        match r {
            Ok(v) => exists|all: Seq<IpAddress>| #[trigger]
                match_addresses(haystack@, default_config().matches(haystack@), all) && v@
                    == first_occurrences(all),
            Err(e) => e is Grammar,
        },
{
    let all = match extract_parsed(haystack) {
        Ok(v) => v,
        Err(e) => {
            return Err(e);
        },
    };
    let mut unique: Vec<IpAddress> = Vec::new();
    let mut i: usize = 0;
    assert(all@.take(0) == Seq::<IpAddress>::empty());
    while i < all.len()
        invariant
            0 <= i <= all@.len(),
            unique@ == first_occurrences(all@.take(i as int)),
        decreases all@.len() - i,
    {
        let address = all[i];
        proof {
            assert(all@.take(i + 1).drop_last() == all@.take(i as int));
            assert(all@.take(i + 1).last() == address);
        }
        let mut known = false;
        let mut k: usize = 0;
        while k < unique.len()
            invariant
                0 <= k <= unique@.len(),
                known <==> exists|j: int| 0 <= j < k && unique@[j] == address,
            decreases unique@.len() - k,
        {
            if unique[k].same(&address) {
                known = true;
            }
            k += 1;
        }
        assert(known <==> unique@.contains(address));
        if !known {
            unique.push(address);
        }
        i += 1;
    }
    assert(all@.take(all@.len() as int) == all@);
    assert(match_addresses(haystack@, default_config().matches(haystack@), all@));
    Ok(unique)
}

} // verus!
