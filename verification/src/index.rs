//! An index from a string key to a slot of an arena, kept in a `DashMap`.
//!
//! The relay keeps its rooms and its users in arenas and finds them here by
//! name or id. Each function below is one call into `dashmap` on a map that
//! the caller holds exclusively.

use dashmap::DashMap;
use vstd::prelude::*;

verus! {

/// The slot that an index holds for each key.
pub uninterp spec fn index_entries(index: DashMap<String, usize>) -> Map<Seq<char>, usize>;

/// `DashMap::new`: a map without entries.
#[verifier::external_body]
pub(crate) fn index_new() -> (created: DashMap<String, usize>)
    ensures
        forall|key: Seq<char>| !index_entries(created).contains_key(key),
{
    DashMap::new()
}

/// `DashMap::get`, the value copied out of the guard: the value that the map
/// holds for the key, if it holds one.
#[verifier::external_body]
pub(crate) fn index_get(index: &DashMap<String, usize>, key: &str) -> (found: Option<usize>)
    ensures
        match found {
            Some(slot) => index_entries(*index).contains_key(key@) && index_entries(*index)[key@] == slot,
            None => !index_entries(*index).contains_key(key@),
        },
{
    match index.get(key) {
        Some(entry) => Some(*entry.value()),
        None => None,
    }
}

/// `DashMap::entry` followed by `Entry::or_insert`: where the map holds the
/// key, its value is returned and the map stays as it is; where it does not,
/// the key is entered with the value given, which is returned.
#[verifier::external_body]
pub(crate) fn index_or_insert(index: &mut DashMap<String, usize>, key: String, slot: usize) -> (found: usize)
    ensures
        index_entries(*old(index)).contains_key(key@) ==> found == index_entries(*old(index))[key@]
            && index_entries(*final(index)) == index_entries(*old(index)),
        !index_entries(*old(index)).contains_key(key@) ==> found == slot && index_entries(*final(index))
            == index_entries(*old(index)).insert(key@, slot),
{
    *index.entry(key).or_insert(slot).value()
}

/// `DashMap::insert`: afterwards the map holds the value given for the key,
/// whatever it held for it before, and is unchanged at every other key.
#[verifier::external_body]
pub(crate) fn index_insert(index: &mut DashMap<String, usize>, key: String, slot: usize)
    ensures
        index_entries(*final(index)) == index_entries(*old(index)).insert(key@, slot),
{
    index.insert(key, slot);
}

} // verus!
