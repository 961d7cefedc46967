//! The cache of decorations: what was rendered for a literal is kept, so
//! that the literal is looked up once.

use rustc_hash::{FxBuildHasher, FxHashMap};
use std::collections::HashMap;
use vstd::prelude::*;

verus! {

/// `rustc_hash::FxBuildHasher`, the maker of the hashers of the cache.
#[verifier::external_type_specification]
#[verifier::external_body]
pub struct ExFxBuildHasher(FxBuildHasher);

/// The map that a cache is made of.
pub type DecorationMap = HashMap<Vec<u8>, Vec<u8>, FxBuildHasher>;

/// What a cache holds: the decoration of each literal in it.
pub uninterp spec fn cached(map: DecorationMap) -> Map<
    Seq<u8>,
    Seq<u8>,
>;

/// What a cache holds that holds nothing.
pub open spec fn nothing_cached() -> Map<Seq<u8>, Seq<u8>> {
    Map::empty()
}

/// Calls `HashMap::default`: a map that holds nothing.
#[verifier::external_body]
pub(crate) fn cache_new() -> (r: DecorationMap)
    ensures
        cached(r) == nothing_cached(),
{
    FxHashMap::default()
}

/// Calls `HashMap::len`: the number of literals in the map.
#[verifier::external_body]
pub(crate) fn cache_len(map: &DecorationMap) -> (r: usize)
    ensures
        r == cached(*map).dom().len(),
{
    map.len()
}

/// Calls `HashMap::get`, and copies what it finds.
#[verifier::external_body]
pub(crate) fn cache_get(map: &DecorationMap, key: &[u8]) -> (r: Option<
    Vec<u8>,
>)
    ensures
        match r {
            Some(v) => cached(*map).contains_key(key@) && v@ == cached(*map)[key@],
            None => !cached(*map).contains_key(key@),
        },
{
    map.get(key).cloned()
}

/// Calls `HashMap::insert`: the key holds the value from now on.
#[verifier::external_body]
pub(crate) fn cache_insert(
    map: &mut DecorationMap,
    key: Vec<u8>,
    value: Vec<u8>,
)
    ensures
        cached(*final(map)) == cached(*old(map)).insert(key@, value@),
{
    map.insert(key, value);
}

} // verus!
