//! The two address grammars and the automaton that scans for them.
//!
//! The grammars recognise the shape of a literal only. They accept more than
//! the addresses: octets above 255 are excluded, but leading zeros, a
//! literal that runs on to the right, and a start inside a longer run of
//! address characters are all left to the extractor and the validators.

use regex_automata::dfa::dense::{BuildError, DFA};
use regex_automata::dfa::Automaton;
use regex_automata::nfa::thompson;
use regex_automata::{Input, MatchKind};
use vstd::prelude::*;

verus! {

/// Four dot-separated groups, each `25[0-5]`, `2[0-4][0-9]` or
/// `[01]?[0-9][0-9]?`, after the start of the text or a byte that is no
/// address character.
pub const IPV4_PATTERN: &'static str =
    r"(?:^|[^0-9A-Fa-f:.])(?:(?:25[0-5]|2[0-4][0-9]|[01]?[0-9][0-9]?)\.(?:25[0-5]|2[0-4][0-9]|[01]?[0-9][0-9]?)\.(?:25[0-5]|2[0-4][0-9]|[01]?[0-9][0-9]?)\.(?:25[0-5]|2[0-4][0-9]|[01]?[0-9][0-9]?))";

/// The full form of eight groups, the compressed forms, and the forms that
/// embed a dotted quad. A zone identifier is no part of it.
pub const IPV6_PATTERN: &'static str =
    r"(?:(?:(?:[0-9a-fA-F]){1,4}:){1,4}:[^\s:](?:(?:(?:25[0-5]|(?:2[0-4]|1{0,1}[0-9]){0,1}[0-9])\.){3,3}(?:25[0-5]|(?:2[0-4]|1{0,1}[0-9]){0,1}[0-9]))|::(?:ffff(?::0{1,4}){0,1}:){0,1}[^\s:](?:(?:(?:25[0-5]|(?:2[0-4]|1{0,1}[0-9]){0,1}[0-9])\.){3,3}(?:25[0-5]|(?:2[0-4]|1{0,1}[0-9]){0,1}[0-9]))|:(?:(?::(?:(?:[0-9a-fA-F]){1,4})){1,7}|:)|(?:(?:[0-9a-fA-F]){1,4}):(?:(?::(?:(?:[0-9a-fA-F]){1,4})){1,6})|(?:(?:(?:[0-9a-fA-F]){1,4}):){1,2}(?::(?:(?:[0-9a-fA-F]){1,4})){1,5}|(?:(?:(?:[0-9a-fA-F]){1,4}):){1,3}(?::(?:(?:[0-9a-fA-F]){1,4})){1,4}|(?:(?:(?:[0-9a-fA-F]){1,4}):){1,4}(?::(?:(?:[0-9a-fA-F]){1,4})){1,3}|(?:(?:(?:[0-9a-fA-F]){1,4}):){1,5}(?::(?:(?:[0-9a-fA-F]){1,4})){1,2}|(?:(?:(?:[0-9a-fA-F]){1,4}):){1,6}:(?:(?:[0-9a-fA-F]){1,4})|(?:(?:(?:[0-9a-fA-F]){1,4}):){1,7}:|(?:(?:(?:[0-9a-fA-F]){1,4}):){7,7}(?:(?:[0-9a-fA-F]){1,4}))";

/// `regex_automata::dfa::dense::DFA`, a compiled automaton.
#[verifier::external_type_specification]
#[verifier::external_body]
#[verifier::reject_recursive_types(T)]
pub struct ExDenseDfa<T>(DFA<T>);

/// `regex_automata::dfa::dense::BuildError`, the reason why a compilation
/// failed.
#[verifier::external_type_specification]
#[verifier::external_body]
pub struct ExDenseBuildError(BuildError);

/// The patterns that an automaton was compiled from, in the order in which
/// they were given.
pub uninterp spec fn compiled_patterns(dfa: DFA<Vec<u32>>) -> Seq<Seq<char>>;

/// Whether the compilation of `patterns` into one automaton succeeds.
pub uninterp spec fn patterns_compile(patterns: Seq<Seq<char>>) -> bool;

/// What a leftmost-first forward search for `patterns` reports on the part
/// of `haystack` from `start` on, with the bytes before `start` in view: the
/// end of the match and the index of the pattern that matched.
pub uninterp spec fn leftmost_match(patterns: Seq<Seq<char>>, haystack: Seq<u8>, start: int) -> Option<
    (usize, usize),
>;

/// The texts of a list of patterns.
pub open spec fn pattern_texts(patterns: Seq<&'static str>) -> Seq<Seq<char>> {
    Seq::new(patterns.len(), |i: int| patterns[i]@)
}

/// Calls `regex_automata::dfa::dense::Builder::build_many` with
/// leftmost-first match semantics. The contract claims that the automaton
/// that comes back was compiled from the patterns given, and names the
/// outcome: whether the call succeeds depends on the patterns alone. It
/// does not say which patterns compile.
#[verifier::external_body]
pub(crate) fn compile_patterns(patterns: &Vec<&'static str>) -> (r: Result<DFA<Vec<u32>>, BuildError>)
    ensures
        (r is Ok) == patterns_compile(pattern_texts(patterns@)),
        r matches Ok(dfa) ==> compiled_patterns(dfa) == pattern_texts(patterns@),
{
    DFA::builder()
        .configure(DFA::config().match_kind(MatchKind::LeftmostFirst))
        .thompson(thompson::Config::new().shrink(true))
        .build_many(patterns)
}

/// Calls `regex_automata::dfa::Automaton::try_search_fwd` on the span of
/// `haystack` from `start` to its end. The contract names the result, and
/// claims that a reported end lies in the span searched and that a reported
/// pattern index is that of one of the compiled patterns. A search that
/// fails counts as one that finds nothing.
#[verifier::external_body]
pub(crate) fn search_forward(dfa: &DFA<Vec<u32>>, haystack: &[u8], start: usize) -> (r: Option<
    (usize, usize),
>)
    requires
        start <= haystack@.len(),
    ensures
        r == leftmost_match(compiled_patterns(*dfa), haystack@, start as int),
        r matches Some((end, pattern)) ==> start <= end <= haystack@.len() && pattern
            < compiled_patterns(*dfa).len(),
{
    let input = Input::new(haystack).span(start..haystack.len());
    match dfa.try_search_fwd(&input) {
        Ok(Some(half)) => Some((half.offset(), half.pattern().as_usize())),
        _ => None,
    }
}

/// Calls `ToString::to_string` on the error of a failed compilation.
#[verifier::external_body]
pub(crate) fn build_error_text(error: &BuildError) -> (r: String) {
    error.to_string()
}

} // verus!
