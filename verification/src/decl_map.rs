//! Declarations by their number, in the order in which they were added.
//!
//! Declarations need a stable iteration order, as a translation walks over
//! them to export all the types that are defined. `indexmap::IndexMap` gives
//! that order; this module says what the library relies on of it.

use crate::decls::CDecl;
use crate::ids::CDeclId;
use indexmap::IndexMap;
use std::collections::HashSet;
use vstd::prelude::*;

verus! {

/// `indexmap::IndexMap`, which Verus sees as opaque.
#[verifier::external_type_specification]
#[verifier::external_body]
#[verifier::reject_recursive_types(K)]
#[verifier::reject_recursive_types(V)]
#[verifier::reject_recursive_types(S)]
pub struct ExIndexMap<K, V, S>(IndexMap<K, V, S>);

/// `IndexMap::clone`. Nothing is claimed of the copy: `K::clone` and
/// `V::clone` make its entries, and generic types promise nothing of that.
pub assume_specification<K, V, S>[ <IndexMap<K, V, S> as Clone>::clone ](
    map: &IndexMap<K, V, S>,
) -> IndexMap<K, V, S> where K: Clone, V: Clone, S: Clone
;

/// The declarations that the map holds, by their number.
pub uninterp spec fn decl_entries(map: IndexMap<u64, CDecl>) -> Map<u64, CDecl>;

/// The numbers that the map holds, in the order of insertion.
pub uninterp spec fn decl_keys(map: IndexMap<u64, CDecl>) -> Seq<u64>;

/// The pairs that a map from numbers to declarations holds.
pub uninterp spec fn prenamed_entries(map: IndexMap<u64, CDeclId>) -> Seq<(u64, CDeclId)>;

/// `IndexMap::new`: the map is empty.
#[verifier::external_body]
pub(crate) fn decl_map_new() -> (r: IndexMap<u64, CDecl>)
    ensures
        decl_entries(r) == (Map::<u64, CDecl>::empty()),
        decl_keys(r) == Seq::<u64>::empty(),
{
    IndexMap::new()
}

/// `IndexMap::new`, for the pairs of a typedef and what it names: the map is
/// empty.
#[verifier::external_body]
pub(crate) fn prenamed_map_new() -> (r: IndexMap<u64, CDeclId>)
    ensures
        prenamed_entries(r) == (Seq::<(u64, CDeclId)>::empty()),
{
    IndexMap::new()
}

/// `IndexMap::insert`: the value of a key that is there is replaced in its
/// place; a new key goes to the end. The earlier value comes back, if any.
#[verifier::external_body]
pub(crate) fn decl_map_insert(map: &mut IndexMap<u64, CDecl>, key: u64, decl: CDecl) -> (r: Option<
    CDecl,
>)
    ensures
        r == (if decl_entries(*old(map)).contains_key(key) {
            Some(decl_entries(*old(map))[key])
        } else {
            None
        }),
        decl_entries(*final(map)) == decl_entries(*old(map)).insert(key, decl),
        decl_keys(*final(map)) == if decl_entries(*old(map)).contains_key(key) {
            decl_keys(*old(map))
        } else {
            decl_keys(*old(map)).push(key)
        },
{
    map.insert(key, decl)
}

/// `IndexMap::get`: the value stored for the key, if it is present.
#[verifier::external_body]
pub(crate) fn decl_map_get(map: &IndexMap<u64, CDecl>, key: u64) -> (r: Option<&CDecl>)
    ensures
        r == (if decl_entries(*map).contains_key(key) {
            Some(&decl_entries(*map)[key])
        } else {
            None
        }),
{
    map.get(&key)
}

/// `IndexMap::get_index`: the entry at a place in the order, if there are
/// that many.
#[verifier::external_body]
pub(crate) fn decl_map_get_index(map: &IndexMap<u64, CDecl>, index: usize) -> (r: Option<
    (u64, &CDecl),
>)
    ensures
        match r {
            Some((key, decl)) => {
                &&& index < decl_keys(*map).len()
                &&& key == decl_keys(*map)[index as int]
                &&& *decl == decl_entries(*map)[key]
            },
            None => index >= decl_keys(*map).len(),
        },
{
    map.get_index(index).map(|entry| (*entry.0, entry.1))
}

/// `IndexMap::get_index_mut`: the entry at a place in the order, with its
/// value open to change; every other entry, and the order, stay.
#[verifier::external_body]
pub(crate) fn decl_map_get_index_mut(map: &mut IndexMap<u64, CDecl>, index: usize) -> (r: Option<
    (u64, &mut CDecl),
>)
    ensures
        match r {
            Some((key, decl)) => {
                &&& index < decl_keys(*old(map)).len()
                &&& key == decl_keys(*old(map))[index as int]
                &&& *decl == decl_entries(*old(map))[key]
                &&& decl_keys(*final(map)) == decl_keys(*old(map))
                &&& decl_entries(*final(map)) == decl_entries(*old(map)).insert(key, *final(decl))
            },
            None => index >= decl_keys(*old(map)).len() && *final(map) == *old(map),
        },
{
    map.get_index_mut(index).map(|entry| (*entry.0, entry.1))
}

/// Whether `wanted` has the number.
pub(crate) fn has_number(wanted: &HashSet<u64>, key: u64) -> (r: bool)
    ensures
        r == wanted@.contains(key),
{
    wanted.contains(&key)
}

/// `IndexMap::retain`, keeping the keys that `wanted` has: the other entries
/// go, and those that stay keep their order.
#[verifier::external_body]
pub(crate) fn decl_map_retain(map: &mut IndexMap<u64, CDecl>, wanted: &HashSet<u64>)
    ensures
        decl_entries(*final(map)) == decl_entries(*old(map)).restrict(wanted@),
        decl_keys(*final(map)) == decl_keys(*old(map)).filter(|key: u64| wanted@.contains(key)),
{
    map.retain(|key, _decl| has_number(wanted, *key));
}

} // verus!
