//! Insertion-ordered maps from text to positions.

use indexmap::IndexMap;
use std::hash::RandomState;
use vstd::prelude::*;

verus! {

/// A map that remembers the order in which its keys were inserted.
#[verifier::external_type_specification]
#[verifier::external_body]
#[verifier::reject_recursive_types(K)]
#[verifier::reject_recursive_types(V)]
#[verifier::reject_recursive_types(S)]
pub struct ExIndexMap<K, V, S>(IndexMap<K, V, S>);

/// The keys of a map with their values, in the order of insertion.
pub uninterp spec fn map_entries(map: IndexMap<String, usize, RandomState>) -> Seq<
    (Seq<char>, usize),
>;

/// Whether `key` is among the keys.
pub open spec fn has_key(entries: Seq<(Seq<char>, usize)>, key: Seq<char>) -> bool {
    exists|i: int| 0 <= i < entries.len() && (#[trigger] entries[i]).0 == key
}

/// Whether `after` is `before` with the value of `key` set: in its place where the key was there
/// before, and otherwise last.
pub open spec fn is_set(
    before: Seq<(Seq<char>, usize)>,
    after: Seq<(Seq<char>, usize)>,
    key: Seq<char>,
    value: usize,
) -> bool {
    &&& !has_key(before, key) ==> after == before.push((key, value))
    &&& has_key(before, key) ==> {
        &&& after.len() == before.len()
        &&& forall|i: int|
            0 <= i < before.len() ==> (#[trigger] after[i]) == (if before[i].0 == key {
                (key, value)
            } else {
                before[i]
            })
    }
}

/// `indexmap::IndexMap::new`: a map without keys.
#[verifier::external_body]
pub(crate) fn new_map() -> (result: IndexMap<String, usize, RandomState>)
    ensures
        map_entries(result) == Seq::<(Seq<char>, usize)>::empty(),
{
    IndexMap::new()
}

/// `indexmap::IndexMap::entry` followed by `or_insert`: a key that is not there is added last with
/// the given value, one that is there keeps its value. Returns the key's value.
#[verifier::external_body]
pub(crate) fn entry_or_insert(
    map: &mut IndexMap<String, usize, RandomState>,
    key: String,
    value: usize,
) -> (result: usize)
    ensures
        !has_key(map_entries(*old(map)), key@) ==> {
            &&& map_entries(*final(map)) == map_entries(*old(map)).push((key@, value))
            &&& result == value
        },
        has_key(map_entries(*old(map)), key@) ==> {
            &&& map_entries(*final(map)) == map_entries(*old(map))
            &&& map_entries(*old(map)).contains((key@, result))
        },
{
    *map.entry(key).or_insert(value)
}

/// `indexmap::IndexMap::insert`: sets the value of a key. A key that was there keeps its place,
/// one that was not is added last.
#[verifier::external_body]
pub(crate) fn insert_value(
    map: &mut IndexMap<String, usize, RandomState>,
    key: String,
    value: usize,
) -> (result: Option<usize>)
    ensures
        is_set(map_entries(*old(map)), map_entries(*final(map)), key@, value),
        match result {
            Some(previous) => map_entries(*old(map)).contains((key@, previous)),
            None => !has_key(map_entries(*old(map)), key@),
        },
{
    map.insert(key, value)
}

/// `indexmap::IndexMap::get`: the value of a key, if it is there.
#[verifier::external_body]
pub(crate) fn get_value(map: &IndexMap<String, usize, RandomState>, key: &str) -> (result: Option<
    usize,
>)
    ensures
        match result {
            Some(value) => map_entries(*map).contains((key@, value)),
            None => !has_key(map_entries(*map), key@),
        },
{
    map.get(key).copied()
}

/// `indexmap::IndexMap::len`: the number of keys.
#[verifier::external_body]
pub(crate) fn count_keys(map: &IndexMap<String, usize, RandomState>) -> (result: usize)
    ensures
        result == map_entries(*map).len(),
{
    map.len()
}

/// `indexmap::IndexMap::get_index`: the key at a place in the order of insertion, with its value.
#[verifier::external_body]
pub(crate) fn entry_at(map: &IndexMap<String, usize, RandomState>, index: usize) -> (result: Option<
    (String, usize),
>)
    ensures
        match result {
            Some((key, value)) => index < map_entries(*map).len() && map_entries(*map)[index as int]
                == (key@, value),
            None => index >= map_entries(*map).len(),
        },
{
    map.get_index(index).map(|(key, value)| (key.clone(), *value))
}

} // verus!
