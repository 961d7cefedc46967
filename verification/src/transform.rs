//! The stream transformer: it rewrites a text so that every address
//! literal gives way to its decoration, and leaves every other byte as it
//! is.
//!
//! A transformer holds the extractor, the template and the cache of
//! decorations. The provider is handed to each call. What the cache holds
//! was rendered by that provider, so that a transformer is used with one
//! provider throughout.

use crate::address::{literal_address, parse_literal};
use crate::cache::{cache_get, cache_insert, cache_len, cache_new, cached};
use crate::extractor::{Extractor, ExtractorConfig, Match};
use crate::mmdb::MmdbProvider;
use crate::splice::{spliced, spliced_prefix, splices_end, splices_ordered, Splice};
use crate::error::Error;
use crate::tag::{document_json, tag_splices, Tag, TagView, Tagged};
use crate::template::{PartView, Template};
use crate::text::{lossy_string, utf8_lossy};
use rustc_hash::FxBuildHasher;
use std::collections::HashMap;
use vstd::prelude::*;
use vstd::slice::slice_to_vec;
use vstd::utf8::encode_utf8;

verus! {

/// The number of decorations that a cache keeps by default.
pub const CACHE_LIMIT: usize = 100_000;

/// The byte that ends a line of output.
pub const NEWLINE: u8 = 0x0a;

/// The decoration of a literal, or nothing where the literal is written as
/// it is: where it denotes no address, and where only routable addresses
/// are decorated and the provider knows no autonomous system of it.
pub open spec fn decoration_for<P: MmdbProvider>(
    provider: P,
    template: Seq<PartView>,
    only_routable: bool,
    literal: Seq<u8>,
) -> Option<Seq<char>> {
    match literal_address(literal) {
        Some(address) => if only_routable && !provider.routable(address) {
            None
        } else {
            Some(provider.decoration(address, utf8_lossy(literal), template))
        },
        None => None,
    }
}

/// Whether the given bytes are the decoration of a literal.
pub open spec fn renders_to<P: MmdbProvider>(
    provider: P,
    template: Seq<PartView>,
    only_routable: bool,
    literal: Seq<u8>,
    bytes: Seq<u8>,
) -> bool {
    match decoration_for(provider, template, only_routable, literal) {
        Some(d) => encode_utf8(d) == bytes,
        None => false,
    }
}

/// The bytes that are written in the place of a literal.
pub open spec fn replacement_for<P: MmdbProvider>(
    provider: P,
    template: Seq<PartView>,
    only_routable: bool,
    literal: Seq<u8>,
) -> Seq<u8> {
    match decoration_for(provider, template, only_routable, literal) {
        Some(d) => encode_utf8(d),
        None => literal,
    }
}

/// What a cache holds once a literal has been decorated. A literal that
/// has a decoration and was not in the cache is taken with its decoration
/// where the cache holds fewer literals than its limit. In every other
/// case the cache stays as it was.
pub open spec fn cache_after(
    cache: Map<Seq<u8>, Seq<u8>>,
    limit: usize,
    literal: Seq<u8>,
    decoration: Option<Seq<char>>,
) -> Map<Seq<u8>, Seq<u8>> {
    match decoration {
        Some(d) => if !cache.contains_key(literal) && cache.dom().len() < limit {
            cache.insert(literal, encode_utf8(d))
        } else {
            cache
        },
        None => cache,
    }
}

/// What a cache holds once the literals of matches have been decorated,
/// one after the other.
pub open spec fn cache_through<P: MmdbProvider>(
    provider: P,
    template: Seq<PartView>,
    only_routable: bool,
    limit: usize,
    text: Seq<u8>,
    ms: Seq<Match>,
    cache: Map<Seq<u8>, Seq<u8>>,
) -> Map<Seq<u8>, Seq<u8>>
    decreases ms.len(),
{
    if ms.len() == 0 {
        cache
    } else {
        let literal = literal_of(text, ms.last());
        cache_after(
            cache_through(provider, template, only_routable, limit, text, ms.drop_last(), cache),
            limit,
            literal,
            decoration_for(provider, template, only_routable, literal),
        )
    }
}

/// The text of a match.
pub open spec fn literal_of(text: Seq<u8>, m: Match) -> Seq<u8> {
    text.subrange(m.start as int, m.end as int)
}

/// Where the last of some matches ends, or the start of the text where
/// there is none.
pub open spec fn matches_end(ms: Seq<Match>) -> int {
    if ms.len() == 0 {
        0
    } else {
        ms.last().end as int
    }
}

/// The matches that are rewritten: each match that starts at or after the
/// end of the one rewritten before it.
pub open spec fn kept(ms: Seq<Match>) -> Seq<Match>
    decreases ms.len(),
{
    if ms.len() == 0 {
        Seq::<Match>::empty()
    } else {
        let before = kept(ms.drop_last());
        if matches_end(before) <= ms.last().start {
            before.push(ms.last())
        } else {
            before
        }
    }
}

/// The replacements of matches.
pub open spec fn match_splices<P: MmdbProvider>(
    provider: P,
    template: Seq<PartView>,
    only_routable: bool,
    text: Seq<u8>,
    ms: Seq<Match>,
) -> Seq<Splice> {
    Seq::new(
        ms.len(),
        |i: int|
            Splice {
                start: ms[i].start as int,
                end: ms[i].end as int,
                with: replacement_for(provider, template, only_routable, literal_of(text, ms[i])),
            },
    )
}

/// The replacements of matches, one on each line.
pub open spec fn replacement_lines<P: MmdbProvider>(
    provider: P,
    template: Seq<PartView>,
    only_routable: bool,
    text: Seq<u8>,
    ms: Seq<Match>,
) -> Seq<u8>
    decreases ms.len(),
{
    if ms.len() == 0 {
        Seq::<u8>::empty()
    } else {
        replacement_lines(provider, template, only_routable, text, ms.drop_last())
            + replacement_for(provider, template, only_routable, literal_of(text, ms.last()))
            + seq![NEWLINE]
    }
}

/// The texts of matches, one on each line.
pub open spec fn literal_lines(text: Seq<u8>, ms: Seq<Match>) -> Seq<u8>
    decreases ms.len(),
{
    if ms.len() == 0 {
        Seq::<u8>::empty()
    } else {
        literal_lines(text, ms.drop_last()) + literal_of(text, ms.last()) + seq![NEWLINE]
    }
}

/// The tag of a match: its text, its range, and its decoration where it
/// has one.
pub open spec fn match_tag<P: MmdbProvider>(
    provider: P,
    template: Seq<PartView>,
    only_routable: bool,
    text: Seq<u8>,
    m: Match,
) -> TagView {
    TagView {
        ip: utf8_lossy(literal_of(text, m)),
        range: Some(m.start..m.end),
        decorated: decoration_for(provider, template, only_routable, literal_of(text, m)),
    }
}

/// The tags of matches.
pub open spec fn match_tags<P: MmdbProvider>(
    provider: P,
    template: Seq<PartView>,
    only_routable: bool,
    text: Seq<u8>,
    ms: Seq<Match>,
) -> Seq<TagView> {
    Seq::new(ms.len(), |i: int| match_tag(provider, template, only_routable, text, ms[i]))
}

/// Whether every match lies inside a text of the given length.
pub open spec fn in_bounds(len: int, ms: Seq<Match>) -> bool {
    forall|i: int| 0 <= i < ms.len() ==> (#[trigger] ms[i]).start <= ms[i].end <= len
}

/// The matches that are rewritten lie inside the text, one after the
/// other.
pub proof fn lemma_kept_ordered<P: MmdbProvider>(
    provider: P,
    template: Seq<PartView>,
    only_routable: bool,
    text: Seq<u8>,
    ms: Seq<Match>,
)
    requires
        in_bounds(text.len() as int, ms),
    ensures
        in_bounds(text.len() as int, kept(ms)),
        splices_ordered(
            text.len() as int,
            match_splices(provider, template, only_routable, text, kept(ms)),
        ),
        splices_end(match_splices(provider, template, only_routable, text, kept(ms)))
            == matches_end(kept(ms)),
    decreases ms.len(),
{
    if ms.len() == 0 {
    } else {
        let before = kept(ms.drop_last());
        assert(in_bounds(text.len() as int, ms.drop_last())) by {
            assert forall|i: int| 0 <= i < ms.drop_last().len() implies (
            #[trigger] ms.drop_last()[i]).start <= ms.drop_last()[i].end <= text.len() by {
                assert(ms.drop_last()[i] == ms[i]);
            }
        }
        lemma_kept_ordered(provider, template, only_routable, text, ms.drop_last());
        if matches_end(before) <= ms.last().start {
            let all = before.push(ms.last());
            assert(match_splices(provider, template, only_routable, text, all).drop_last()
                =~= match_splices(provider, template, only_routable, text, before));
            assert(ms.last() == ms[ms.len() - 1]);
        }
    }
}

/// Matches of which none reaches into a later one are all rewritten.
pub proof fn lemma_kept_all(ms: Seq<Match>)
    requires
        forall|i: int, j: int|
            0 <= i < j < ms.len() ==> (#[trigger] ms[i]).end <= (#[trigger] ms[j]).start,
    ensures
        kept(ms) == ms,
    decreases ms.len(),
{
    if ms.len() > 0 {
        let before = ms.drop_last();
        assert forall|i: int, j: int| 0 <= i < j < before.len() implies (#[trigger] before[i]).end
            <= (#[trigger] before[j]).start by {
            assert(before[i] == ms[i]);
            assert(before[j] == ms[j]);
        }
        lemma_kept_all(before);
        if before.len() > 0 {
            assert(before.last() == ms[ms.len() - 2]);
            assert(ms.last() == ms[ms.len() - 1]);
        }
        assert(before.push(ms.last()) == ms);
    }
}

/// Writing out the tags of matches replaces what rewriting the matches
/// replaces.
pub proof fn lemma_tags_replace_alike<P: MmdbProvider>(
    provider: P,
    template: Seq<PartView>,
    only_routable: bool,
    text: Seq<u8>,
    ms: Seq<Match>,
)
    ensures
        tag_splices(text, match_tags(provider, template, only_routable, text, ms))
            == match_splices(provider, template, only_routable, text, ms),
    decreases ms.len(),
{
    let tags = match_tags(provider, template, only_routable, text, ms);
    if ms.len() == 0 {
        assert(match_splices(provider, template, only_routable, text, ms) =~= Seq::<
            Splice,
        >::empty());
    } else {
        lemma_tags_replace_alike(provider, template, only_routable, text, ms.drop_last());
        assert(tags.drop_last() =~= match_tags(
            provider,
            template,
            only_routable,
            text,
            ms.drop_last(),
        ));
        assert(tag_splices(text, tags) =~= match_splices(
            provider,
            template,
            only_routable,
            text,
            ms,
        ));
    }
}

/// Every valid literal denotes an address, so that it is written as it is
/// only where routable addresses alone are decorated and it is not one.
pub proof fn lemma_match_has_address(config: ExtractorConfig, text: Seq<u8>, i: int)
    requires
        0 <= i < config.matches(text).len(),
    ensures
        literal_address(literal_of(text, config.matches(text)[i])) is Some,
{
    crate::matches::lemma_match_is_valid(config, text, i);
}

/// A text without matches is written as it is.
pub proof fn lemma_unchanged_without_matches<P: MmdbProvider>(
    provider: P,
    template: Seq<PartView>,
    only_routable: bool,
    text: Seq<u8>,
)
    ensures
        spliced(
            text,
            match_splices(provider, template, only_routable, text, kept(Seq::<Match>::empty())),
        ) == text,
{
    assert(match_splices(provider, template, only_routable, text, kept(Seq::<Match>::empty()))
        =~= Seq::<Splice>::empty());
    crate::splice::lemma_spliced_nothing(text);
}

/// What is written in the place of a literal depends on the text of the
/// literal alone: two matches with one text are replaced by the same
/// bytes, whether the decoration comes from the cache or from the
/// provider.
pub proof fn lemma_same_literal_same_replacement<P: MmdbProvider>(
    provider: P,
    template: Seq<PartView>,
    only_routable: bool,
    text: Seq<u8>,
    ms: Seq<Match>,
    i: int,
    j: int,
)
    requires
        0 <= i < ms.len(),
        0 <= j < ms.len(),
        literal_of(text, ms[i]) == literal_of(text, ms[j]),
    ensures
        match_splices(provider, template, only_routable, text, ms)[i].with == match_splices(
            provider,
            template,
            only_routable,
            text,
            ms,
        )[j].with,
{
}

/// Where only routable addresses are decorated, a literal of whose
/// address the provider knows no autonomous system is written as it is,
/// and the template is not rendered for it. Every other literal that
/// denotes an address is replaced by what the provider renders for it,
/// whatever stands beside it in the text.
pub proof fn lemma_only_routable_decorated<P: MmdbProvider>(
    provider: P,
    template: Seq<PartView>,
    text: Seq<u8>,
    ms: Seq<Match>,
    i: int,
)
    requires
        0 <= i < ms.len(),
        literal_address(literal_of(text, ms[i])) is Some,
    ensures
        ({
            let literal = literal_of(text, ms[i]);
            let address = literal_address(literal)->0;
            let written = match_splices(provider, template, true, text, ms)[i].with;
            &&& !provider.routable(address) ==> written == literal && decoration_for(
                provider,
                template,
                true,
                literal,
            ) is None
            &&& provider.routable(address) ==> written == encode_utf8(
                provider.decoration(address, utf8_lossy(literal), template),
            )
        }),
{
}

/// Every match of a text is rewritten, unless one of them may reach back
/// into an earlier one.
pub proof fn lemma_all_matches_rewritten(config: ExtractorConfig, text: Seq<u8>)
    requires
        forall|i: int, j: int|
            0 <= i < j < config.matches(text).len() ==> !crate::matches::may_reach_back(
                text,
                #[trigger] config.matches(text)[i],
                #[trigger] config.matches(text)[j],
            ),
    ensures
        kept(config.matches(text)) == config.matches(text),
{
    let ms = config.matches(text);
    assert forall|i: int, j: int| 0 <= i < j < ms.len() implies (#[trigger] ms[i]).end <= (
    #[trigger] ms[j]).start by {
        crate::matches::lemma_matches_in_order(config, text, i, j);
    }
    lemma_kept_all(ms);
}

/// Rewrites texts with the decorations of one provider.
#[derive(Debug)]
pub struct Transformer {
    extractor: Extractor,
    template: Template,
    only_routable: bool,
    cache: HashMap<Vec<u8>, Vec<u8>, FxBuildHasher>,
    cache_limit: usize,
}

impl Transformer {
    /// The settings of the extractor.
    pub closed spec fn config(&self) -> ExtractorConfig {
        self.extractor@
    }

    /// The parts of the template.
    pub closed spec fn template(&self) -> Seq<PartView> {
        self.template@
    }

    /// The decorations that the cache holds.
    pub closed spec fn cache(&self) -> Map<Seq<u8>, Seq<u8>> {
        cached(self.cache)
    }

    /// The number of decorations that the cache keeps.
    pub closed spec fn cache_limit(&self) -> usize {
        self.cache_limit
    }

    /// Whether only routable addresses are decorated.
    pub open spec fn only_routable(&self) -> bool {
        self.config().only_routable
    }

    /// Whether every decoration in the cache is what the provider renders
    /// for its literal.
    pub open spec fn coherent<P: MmdbProvider>(&self, provider: P) -> bool {
        &&& self.consistent()
        &&& self.cache().dom().finite()
        &&& self.cache().dom().len() <= self.cache_limit()
        &&& forall|l: Seq<u8>| #[trigger]
            self.cache().contains_key(l) ==> renders_to(
                provider,
                self.template(),
                self.only_routable(),
                l,
                self.cache()[l],
            )
    }

    /// A transformer with an empty cache is coherent with every provider.
    pub proof fn lemma_empty_cache_is_coherent<P: MmdbProvider>(&self, provider: P)
        requires
            self.consistent(),
            self.cache() == Map::<Seq<u8>, Seq<u8>>::empty(),
        ensures
            self.coherent(provider),
    {
        assert(self.cache().dom() =~= Set::<Seq<u8>>::empty());
    }

    /// What holds of every transformer.
    pub closed spec fn consistent(&self) -> bool {
        self.only_routable == self.extractor@.only_routable
    }

    /// The matches of a text.
    pub open spec fn matches(&self, text: Seq<u8>) -> Seq<Match> {
        self.config().matches(text)
    }

    /// A transformer with an empty cache that keeps up to `cache_limit`
    /// decorations.
    pub fn new(extractor: Extractor, template: Template, cache_limit: usize) -> (r: Transformer)
        ensures
            r.config() == extractor@,
            r.template() == template@,
            r.cache() == Map::<Seq<u8>, Seq<u8>>::empty(),
            r.cache_limit() == cache_limit,
            r.consistent(),
    {
        let only_routable = extractor.config().only_routable;
        Transformer { extractor, template, only_routable, cache: cache_new(), cache_limit }
    }

    /// The number of literals whose decoration the cache holds.
    pub fn cached_literals(&self) -> (r: usize)
        ensures
            r == self.cache().dom().len(),
    {
        cache_len(&self.cache)
    }

    /// The decoration of a literal, from the cache or from the provider.
    /// What the provider renders is put into the cache where the cache has
    /// room. The cache changes in no other way.
    pub fn decoration_of<P: MmdbProvider>(&mut self, provider: &P, literal: &[u8]) -> (r: Option<
        Vec<u8>,
    >)
        requires
            old(self).coherent(*provider),
        ensures
            final(self).coherent(*provider),
            final(self).config() == old(self).config(),
            final(self).template() == old(self).template(),
            final(self).cache_limit() == old(self).cache_limit(),
            old(self).cache().submap_of(final(self).cache()),
            final(self).cache() == cache_after(
                old(self).cache(),
                old(self).cache_limit(),
                literal@,
                decoration_for(
                    *provider,
                    old(self).template(),
                    old(self).only_routable(),
                    literal@,
                ),
            ),
            match r {
                Some(d) => renders_to(
                    *provider,
                    old(self).template(),
                    old(self).only_routable(),
                    literal@,
                    d@,
                ),
                None => decoration_for(*provider, old(self).template(), old(self).only_routable(), literal@)
                    is None,
            },
    {
        match cache_get(&self.cache, literal) {
            Some(d) => {
                assert(self.cache().contains_key(literal@));
                return Some(d);
            },
            None => {},
        }
        let address = match parse_literal(literal) {
            Some(a) => a,
            None => {
                return None;
            },
        };
        if self.only_routable && !provider.has_asn(&address) {
            return None;
        }
        let text = lossy_string(literal);
        let decoration = provider.lookup(&address, text.as_str(), &self.template);
        let bytes = decoration.as_str().as_bytes_vec();
        let ghost before = self.cache();
        if cache_len(&self.cache) < self.cache_limit {
            let copy = slice_to_vec(bytes.as_slice());
            cache_insert(&mut self.cache, slice_to_vec(literal), copy);
        }
        proof {
            assert forall|l: Seq<u8>| #[trigger] self.cache().contains_key(l) implies renders_to(
                *provider,
                self.template(),
                self.only_routable(),
                l,
                self.cache()[l],
            ) by {
                if l != literal@ {
                    assert(before.contains_key(l));
                }
            }
        }
        Some(bytes)
    }

    /// Writes a text onto the end of `out` with every literal replaced by
    /// its decoration. Every byte outside the rewritten literals is written
    /// as it is. A literal that starts before the end of the one rewritten
    /// before it is left to be part of what follows.
    pub fn decorate<P: MmdbProvider>(&mut self, provider: &P, text: &[u8], out: &mut Vec<u8>)
        requires
            old(self).coherent(*provider),
        ensures
            final(self).coherent(*provider),
            final(self).config() == old(self).config(),
            final(self).template() == old(self).template(),
            final(self).cache_limit() == old(self).cache_limit(),
            final(self).cache() == cache_through(
                *provider,
                old(self).template(),
                old(self).only_routable(),
                old(self).cache_limit(),
                text@,
                kept(old(self).matches(text@)),
                old(self).cache(),
            ),
            final(out)@ == old(out)@ + spliced(
                text@,
                match_splices(
                    *provider,
                    old(self).template(),
                    old(self).only_routable(),
                    text@,
                    kept(old(self).matches(text@)),
                ),
            ),
    {
        let found = self.extractor.find_iter(text);
        let ghost ms = found@;
        let ghost template = self.template@;
        let ghost routable = self.only_routable;
        let ghost limit = self.cache_limit;
        let ghost start = self.cache();
        let mut last_end: usize = 0;
        let mut i: usize = 0;
        proof {
            assert(ms.take(0) == Seq::<Match>::empty());
            assert(out@ == old(out)@ + Seq::<u8>::empty());
        }
        while i < found.len()
            invariant
                0 <= i <= found@.len(),
                ms == found@,
                in_bounds(text@.len() as int, ms),
                self.coherent(*provider),
                self.config() == old(self).config(),
                self.template() == template,
                self.only_routable() == routable,
                self.cache_limit() == old(self).cache_limit(),
                self.cache_limit() == limit,
                self.cache() == cache_through(
                    *provider,
                    template,
                    routable,
                    limit,
                    text@,
                    kept(ms.take(i as int)),
                    start,
                ),
                last_end == matches_end(kept(ms.take(i as int))),
                last_end <= text@.len(),
                out@ == old(out)@ + spliced_prefix(
                    text@,
                    match_splices(*provider, template, routable, text@, kept(ms.take(i as int))),
                ),
            decreases found@.len() - i,
        {
            let m = found[i];
            let ghost before = kept(ms.take(i as int));
            let ghost done = spliced_prefix(
                text@,
                match_splices(*provider, template, routable, text@, before),
            );
            proof {
                assert(ms.take(i + 1).drop_last() == ms.take(i as int));
                assert(ms.take(i + 1).last() == m);
                assert(ms[i as int] == m);
            }
            if last_end <= m.start {
                let literal = &text[m.start..m.end];
                let decoration = self.decoration_of(provider, literal);
                out.extend_from_slice(&text[last_end..m.start]);
                match decoration {
                    Some(d) => {
                        out.extend_from_slice(d.as_slice());
                    },
                    None => {
                        out.extend_from_slice(literal);
                    },
                }
                proof {
                    let all = before.push(m);
                    assert(all.drop_last() =~= before);
                    assert(kept(ms.take(i + 1)) == all);
                    assert(literal@ == literal_of(text@, m));
                    let splices = match_splices(*provider, template, routable, text@, all);
                    assert(splices.drop_last() =~= match_splices(
                        *provider,
                        template,
                        routable,
                        text@,
                        before,
                    ));
                    lemma_kept_ordered(*provider, template, routable, text@, ms.take(i as int));
                    assert(out@ == old(out)@ + (done + text@.subrange(
                        last_end as int,
                        m.start as int,
                    ) + splices.last().with));
                }
                last_end = m.end;
            }
            i += 1;
        }
        proof {
            assert(ms.take(found@.len() as int) == ms);
            lemma_kept_ordered(*provider, template, routable, text@, ms);
        }
        let ghost done = spliced_prefix(
            text@,
            match_splices(*provider, template, routable, text@, kept(ms)),
        );
        out.extend_from_slice(&text[last_end..text.len()]);
        assert(out@ == old(out)@ + (done + text@.subrange(last_end as int, text@.len() as int)));
    }

    /// Writes the decoration of every literal of a text onto the end of
    /// `out`, each on a line of its own, and nothing else of the text. A
    /// literal without decoration is written as it is.
    pub fn only_matching<P: MmdbProvider>(&mut self, provider: &P, text: &[u8], out: &mut Vec<u8>)
        requires
            old(self).coherent(*provider),
        ensures
            final(self).coherent(*provider),
            final(self).config() == old(self).config(),
            final(self).template() == old(self).template(),
            final(self).cache_limit() == old(self).cache_limit(),
            final(self).cache() == cache_through(
                *provider,
                old(self).template(),
                old(self).only_routable(),
                old(self).cache_limit(),
                text@,
                old(self).matches(text@),
                old(self).cache(),
            ),
            final(out)@ == old(out)@ + replacement_lines(
                *provider,
                old(self).template(),
                old(self).only_routable(),
                text@,
                old(self).matches(text@),
            ),
    {
        let found = self.extractor.find_iter(text);
        let ghost ms = found@;
        let ghost template = self.template@;
        let ghost routable = self.only_routable;
        let ghost limit = self.cache_limit;
        let ghost start = self.cache();
        let mut i: usize = 0;
        proof {
            assert(ms.take(0) == Seq::<Match>::empty());
            assert(out@ == old(out)@ + Seq::<u8>::empty());
        }
        while i < found.len()
            invariant
                0 <= i <= found@.len(),
                ms == found@,
                in_bounds(text@.len() as int, ms),
                self.coherent(*provider),
                self.config() == old(self).config(),
                self.template() == template,
                self.only_routable() == routable,
                self.cache_limit() == old(self).cache_limit(),
                self.cache_limit() == limit,
                self.cache() == cache_through(
                    *provider,
                    template,
                    routable,
                    limit,
                    text@,
                    ms.take(i as int),
                    start,
                ),
                out@ == old(out)@ + replacement_lines(
                    *provider,
                    template,
                    routable,
                    text@,
                    ms.take(i as int),
                ),
            decreases found@.len() - i,
        {
            let m = found[i];
            let ghost done = replacement_lines(*provider, template, routable, text@, ms.take(i as int));
            proof {
                assert(ms.take(i + 1).drop_last() == ms.take(i as int));
                assert(ms.take(i + 1).last() == m);
                assert(ms[i as int] == m);
            }
            let literal = &text[m.start..m.end];
            let ghost piece = replacement_for(*provider, template, routable, literal@);
            match self.decoration_of(provider, literal) {
                Some(d) => {
                    out.extend_from_slice(d.as_slice());
                },
                None => {
                    out.extend_from_slice(literal);
                },
            }
            out.push(NEWLINE);
            assert(out@ == old(out)@ + (done + piece + seq![NEWLINE]));
            i += 1;
        }
        assert(ms.take(found@.len() as int) == ms);
    }

    /// Writes the text of every literal onto the end of `out`, each on a
    /// line of its own. Nothing is looked up.
    pub fn extract_only(&self, text: &[u8], out: &mut Vec<u8>)
        ensures
            final(out)@ == old(out)@ + literal_lines(text@, self.matches(text@)),
    {
        let found = self.extractor.find_iter(text);
        let ghost ms = found@;
        let mut i: usize = 0;
        proof {
            assert(ms.take(0) == Seq::<Match>::empty());
            assert(out@ == old(out)@ + Seq::<u8>::empty());
        }
        while i < found.len()
            invariant
                0 <= i <= found@.len(),
                ms == found@,
                in_bounds(text@.len() as int, ms),
                out@ == old(out)@ + literal_lines(text@, ms.take(i as int)),
            decreases found@.len() - i,
        {
            let m = found[i];
            let ghost done = literal_lines(text@, ms.take(i as int));
            proof {
                assert(ms.take(i + 1).drop_last() == ms.take(i as int));
                assert(ms.take(i + 1).last() == m);
                assert(ms[i as int] == m);
            }
            let literal = &text[m.start..m.end];
            out.extend_from_slice(literal);
            out.push(NEWLINE);
            assert(out@ == old(out)@ + (done + literal@ + seq![NEWLINE]));
            i += 1;
        }
        assert(ms.take(found@.len() as int) == ms);
    }

    /// Tags every literal of a text that `decorate` would rewrite: with its
    /// text, its range, and its decoration where it has one.
    pub fn tag<P: MmdbProvider>(&mut self, provider: &P, text: &[u8]) -> (r: Tagged)
        requires
            old(self).coherent(*provider),
        ensures
            final(self).coherent(*provider),
            final(self).config() == old(self).config(),
            final(self).template() == old(self).template(),
            final(self).cache_limit() == old(self).cache_limit(),
            final(self).cache() == cache_through(
                *provider,
                old(self).template(),
                old(self).only_routable(),
                old(self).cache_limit(),
                text@,
                kept(old(self).matches(text@)),
                old(self).cache(),
            ),
            r.spec_text() == text@,
            r.spec_text_data() is None,
            r.well_formed(),
            r.spec_tags() == match_tags(
                *provider,
                old(self).template(),
                old(self).only_routable(),
                text@,
                kept(old(self).matches(text@)),
            ),
    {
        let found = self.extractor.find_iter(text);
        let ghost ms = found@;
        let ghost template = self.template@;
        let ghost routable = self.only_routable;
        let ghost limit = self.cache_limit;
        let ghost start = self.cache();
        let mut tagged = Tagged::new(text);
        let mut last_end: usize = 0;
        let mut i: usize = 0;
        proof {
            assert(ms.take(0) == Seq::<Match>::empty());
            assert(match_tags(*provider, template, routable, text@, kept(ms.take(0)))
                =~= Seq::<TagView>::empty());
        }
        while i < found.len()
            invariant
                0 <= i <= found@.len(),
                ms == found@,
                in_bounds(text@.len() as int, ms),
                self.coherent(*provider),
                self.config() == old(self).config(),
                self.template() == template,
                self.only_routable() == routable,
                self.cache_limit() == old(self).cache_limit(),
                self.cache_limit() == limit,
                self.cache() == cache_through(
                    *provider,
                    template,
                    routable,
                    limit,
                    text@,
                    kept(ms.take(i as int)),
                    start,
                ),
                last_end == matches_end(kept(ms.take(i as int))),
                last_end <= text@.len(),
                tagged.spec_text() == text@,
                tagged.spec_text_data() is None,
                tagged.well_formed(),
                splices_end(tag_splices(text@, tagged.spec_tags())) == last_end,
                tagged.spec_tags() == match_tags(
                    *provider,
                    template,
                    routable,
                    text@,
                    kept(ms.take(i as int)),
                ),
            decreases found@.len() - i,
        {
            let m = found[i];
            let ghost before = kept(ms.take(i as int));
            let ghost tags = tagged.spec_tags();
            proof {
                assert(ms.take(i + 1).drop_last() == ms.take(i as int));
                assert(ms.take(i + 1).last() == m);
                assert(ms[i as int] == m);
            }
            if last_end <= m.start {
                let literal = &text[m.start..m.end];
                let ip = lossy_string(literal);
                let mut tag = Tag::new(ip.as_str()).with_range(m.range());
                match self.decoration_of(provider, literal) {
                    Some(d) => {
                        let decorated = lossy_string(d.as_slice());
                        proof {
                            let t = decoration_for(*provider, template, routable, literal@)->0;
                            vstd::utf8::encode_utf8_valid_utf8(t);
                            vstd::utf8::encode_utf8_decode_utf8(t);
                        }
                        tag = tag.with_decoration(decorated.as_str());
                    },
                    None => {},
                }
                proof {
                    assert(before.push(m).drop_last() =~= before);
                    assert(kept(ms.take(i + 1)) == before.push(m));
                    assert(literal@ == literal_of(text@, m));
                    assert(tag@.range == Some(m.start..m.end));
                    assert(tag@ == match_tag(*provider, template, routable, text@, m));
                    assert(tags.push(tag@).drop_last() == tags);
                    assert(match_tags(*provider, template, routable, text@, before.push(m))
                        =~= tags.push(tag@));
                    let grown = tags.push(tag@);
                    assert(grown.last() == tag@);
                    let splices = tag_splices(text@, grown);
                    assert(splices.drop_last() == tag_splices(text@, tags));
                    assert(splices.last().start == m.start && splices.last().end == m.end);
                }
                tagged = tagged.tag(tag);
                last_end = m.end;
            }
            i += 1;
        }
        assert(ms.take(found@.len() as int) == ms);
        tagged
    }

    /// Writes a text with its tags onto the end of `out` as a JSON
    /// document on a line of its own. Every text can be quoted, so that it
    /// succeeds.
    pub fn tag_json<P: MmdbProvider>(&mut self, provider: &P, text: &[u8], out: &mut Vec<u8>) -> (r:
        Result<(), Error>)
        requires
            old(self).coherent(*provider),
        ensures
            final(self).coherent(*provider),
            final(self).config() == old(self).config(),
            final(self).template() == old(self).template(),
            final(self).cache_limit() == old(self).cache_limit(),
            final(self).cache() == cache_through(
                *provider,
                old(self).template(),
                old(self).only_routable(),
                old(self).cache_limit(),
                text@,
                kept(old(self).matches(text@)),
                old(self).cache(),
            ),
            r is Ok,
            final(out)@ == old(out)@ + encode_utf8(
                document_json(
                    match_tags(
                        *provider,
                        old(self).template(),
                        old(self).only_routable(),
                        text@,
                        kept(old(self).matches(text@)),
                    ),
                    utf8_lossy(text@),
                ),
            ) + seq![NEWLINE],
    {
        let mut tagged = self.tag(provider, text);
        match tagged.write_json(out) {
            Ok(_) => {
                out.push(NEWLINE);
                Ok(())
            },
            Err(e) => Err(e),
        }
    }

    /// Like [`Transformer::tag_json`], but for a text without literals
    /// nothing is written. It tells whether a document was written.
    pub fn tag_json_if_any<P: MmdbProvider>(
        &mut self,
        provider: &P,
        text: &[u8],
        out: &mut Vec<u8>,
    ) -> (r: Result<bool, Error>)
        requires
            old(self).coherent(*provider),
        ensures
            final(self).coherent(*provider),
            final(self).config() == old(self).config(),
            final(self).template() == old(self).template(),
            final(self).cache_limit() == old(self).cache_limit(),
            final(self).cache() == cache_through(
                *provider,
                old(self).template(),
                old(self).only_routable(),
                old(self).cache_limit(),
                text@,
                kept(old(self).matches(text@)),
                old(self).cache(),
            ),
            r == Ok::<bool, Error>(kept(old(self).matches(text@)).len() > 0),
            final(out)@ == (if kept(old(self).matches(text@)).len() > 0 {
                old(out)@ + encode_utf8(
                    document_json(
                        match_tags(
                            *provider,
                            old(self).template(),
                            old(self).only_routable(),
                            text@,
                            kept(old(self).matches(text@)),
                        ),
                        utf8_lossy(text@),
                    ),
                ) + seq![NEWLINE]
            } else {
                old(out)@
            }),
    {
        let mut tagged = self.tag(provider, text);
        if tagged.tags().len() == 0 {
            return Ok(false);
        }
        match tagged.write_json(out) {
            Ok(_) => {
                out.push(NEWLINE);
                Ok(true)
            },
            Err(e) => Err(e),
        }
    }
}

} // verus!
