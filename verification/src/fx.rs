//! The hash collections of `fxhash` that the input state is kept in, and
//! the calls into them. Each function here is trusted: its body makes one
//! call into the collection, and its contract restates what `std`'s
//! `HashMap` / `HashSet` documents for that call (the hasher only decides
//! where an entry is stored, not what the collection holds).
use crate::input::GamepadInputInfo;
use fxhash::{FxHashMap, FxHashSet};
use std::hash::Hash;
use vstd::std_specs::hash::obeys_key_model;
use vstd::prelude::*;

verus! {

/// `fxhash::FxHasher`, the hasher of `FxHashMap` and `FxHashSet`.
#[verifier::external_type_specification]
#[verifier::external_body]
pub struct ExFxHasher(fxhash::FxHasher);

/// `std::hash::BuildHasherDefault`, which builds the `FxHasher`s.
#[verifier::external_type_specification]
#[verifier::external_body]
#[verifier::reject_recursive_types(H)]
pub struct ExBuildHasherDefault<H>(std::hash::BuildHasherDefault<H>);

/// `FxHashMap::default()`: an empty map.
#[verifier::external_body]
pub(crate) fn fx_map_new<K, V>() -> (m: FxHashMap<K, V>)
    ensures
        m@.dom() == Set::<K>::empty(),
{
    FxHashMap::default()
}

/// `HashMap::insert`: afterwards `k` maps to `v`, every other key as before.
/// Said of keys whose `==` and `Hash` agree, as they do for integers.
#[verifier::external_body]
pub(crate) fn fx_map_insert<K: Eq + Hash, V>(m: &mut FxHashMap<K, V>, k: K, v: V)
    requires
        obeys_key_model::<K>(),
    ensures
        final(m)@ == old(m)@.insert(k, v),
{
    m.insert(k, v);
}

/// `HashMap::get`: the value stored under `k`, if there is one.
/// Said of keys whose `==` and `Hash` agree, as they do for integers.
#[verifier::external_body]
pub(crate) fn fx_map_get<'a, K: Eq + Hash, V>(m: &'a FxHashMap<K, V>, k: &K) -> (r: Option<&'a V>)
    requires
        obeys_key_model::<K>(),
    ensures
        r == (if m@.contains_key(*k) { Some(&m@[*k]) } else { None }),
{
    m.get(k)
}

/// `HashMap::remove`: takes the value stored under `k`, if any, out of the map.
/// Said of keys whose `==` and `Hash` agree, as they do for integers.
#[verifier::external_body]
pub(crate) fn fx_map_remove<K: Eq + Hash, V>(m: &mut FxHashMap<K, V>, k: &K) -> (r: Option<V>)
    requires
        obeys_key_model::<K>(),
    ensures
        r == (if old(m)@.contains_key(*k) { Some(old(m)@[*k]) } else { None }),
        final(m)@ == old(m)@.remove(*k),
{
    m.remove(k)
}

/// `HashMap::clone`, on a map of flags: a map with the same entries.
#[verifier::external_body]
pub(crate) fn fx_map_clone(m: &FxHashMap<u64, bool>) -> (r: FxHashMap<u64, bool>)
    ensures
        r@ == m@,
{
    m.clone()
}

/// `HashMap::clear`: afterwards the map is empty.
#[verifier::external_body]
pub(crate) fn fx_map_clear<K, V>(m: &mut FxHashMap<K, V>)
    ensures
        final(m)@.dom() == Set::<K>::empty(),
{
    m.clear();
}

/// `FxHashSet::default()`: an empty set.
#[verifier::external_body]
pub(crate) fn fx_set_new() -> (s: FxHashSet<u64>)
    ensures
        s@ == Set::<u64>::empty(),
{
    FxHashSet::default()
}

/// `HashSet::insert`: afterwards the set holds `k` besides what it held.
#[verifier::external_body]
pub(crate) fn fx_set_insert(s: &mut FxHashSet<u64>, k: u64)
    ensures
        final(s)@ == old(s)@.insert(k),
{
    s.insert(k);
}

/// `HashSet::remove`: afterwards the set holds what it held but `k`.
#[verifier::external_body]
pub(crate) fn fx_set_remove(s: &mut FxHashSet<u64>, k: u64)
    ensures
        final(s)@ == old(s)@.remove(k),
{
    s.remove(&k);
}

/// `HashSet::iter`, copied and collected: every element once, in the
/// order in which the set is walked (which is not stated).
#[verifier::external_body]
pub(crate) fn fx_set_elements(s: &FxHashSet<u64>) -> (v: Vec<u64>)
    ensures
        v@.to_set() == s@,
        v@.no_duplicates(),
{
    s.iter().copied().collect()
}

/// `HashMap::keys`, copied and collected: every key once, in the order in
/// which the map is walked (which is not stated).
#[verifier::external_body]
pub(crate) fn fx_map_keys(m: &FxHashMap<u32, GamepadInputInfo>) -> (v: Vec<u32>)
    ensures
        v@.to_set() == m@.dom(),
        v@.no_duplicates(),
{
    m.keys().copied().collect()
}

} // verus!
