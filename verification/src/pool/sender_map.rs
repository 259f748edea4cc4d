//! Maps keyed by sender id, backed by `fnv`'s hash map.
//!
//! `fnv::FnvHashMap` is std's `HashMap` with `fnv`'s deterministic hasher.
//! vstd specifies `HashMap` only for hashers it knows, so the operations the
//! pool uses are given contracts here.
use std::collections::HashMap;
use std::hash::BuildHasherDefault;
use fnv::{FnvHashMap, FnvHasher};
use vstd::prelude::*;

verus! {

/// `fnv::FnvHasher`, carried opaquely.
#[verifier::external_type_specification]
#[verifier::external_body]
pub struct ExFnvHasher(FnvHasher);

/// std's `BuildHasherDefault`, carried opaquely.
#[verifier::external_type_specification]
#[verifier::external_body]
#[verifier::reject_recursive_types(H)]
pub struct ExBuildHasherDefault<H>(BuildHasherDefault<H>);

/// Looks a key up with `HashMap::get` on an `FnvHashMap`.
///
/// Claims that the result is the value the map holds for `k`, if any: FNV
/// hashing is deterministic, so the map behaves as a finite map.
#[verifier::external_body]
pub fn sender_map_get<V: Copy>(m: &FnvHashMap<u64, V>, k: u64) -> (r: Option<V>)
    ensures
        r == (if m@.contains_key(k) { Some(m@[k]) } else { None::<V> }),
{
    m.get(&k).copied()
}

/// Stores a value with `HashMap::insert` on an `FnvHashMap`.
///
/// Claims that afterwards the map equals the old one with `k` mapped to `v`.
#[verifier::external_body]
pub fn sender_map_insert<V>(m: &mut FnvHashMap<u64, V>, k: u64, v: V)
    ensures
        final(m)@ == old(m)@.insert(k, v),
{
    m.insert(k, v);
}

/// Drops a key with `HashMap::remove` on an `FnvHashMap`.
///
/// Claims that afterwards the map equals the old one without `k`.
#[verifier::external_body]
pub fn sender_map_remove<V>(m: &mut FnvHashMap<u64, V>, k: u64)
    ensures
        final(m)@ == old(m)@.remove(k),
{
    m.remove(&k);
}

/// Copies every entry of a std `HashMap` into an `FnvHashMap` with
/// `Extend::extend`.
///
/// Claims that afterwards the map is the old one overridden by `other`.
#[verifier::external_body]
pub fn sender_map_extend<V: Copy>(m: &mut FnvHashMap<u64, V>, other: &HashMap<u64, V>)
    ensures
        final(m)@ == old(m)@.union_prefer_right(other@),
{
    m.extend(other);
}

/// An empty map, made with `Default::default`.
pub fn sender_map_new<V>() -> (m: FnvHashMap<u64, V>)
    ensures
        m@ == Map::<u64, V>::empty(),
{
    FnvHashMap::default()
}

} // verus!
