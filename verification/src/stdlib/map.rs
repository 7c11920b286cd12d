//! Map helpers over `std::collections::HashMap`.
//!
//! What a hash map does depends on its keys hashing and comparing by their
//! values; the contracts hold for key types of which that is known.
use std::collections::hash_map::RandomState;
use std::collections::HashMap;
use std::hash::Hash;
use vstd::prelude::*;
use vstd::std_specs::iter::IteratorSpec;
use vstd::std_specs::hash::{
    builds_valid_hashers, obeys_key_model, spec_keys_iter, spec_values_iter,
};

verus! {

/// Whether maps keyed by `K` behave as mathematical maps.
pub open spec fn keys_behave<K>() -> bool {
    obeys_key_model::<K>() && builds_valid_hashers::<RandomState>()
}

/// The empty map.
pub fn new<K, V>() -> (r: HashMap<K, V>) where K: Hash + Eq, V: Clone
    ensures
        r@ == Map::<K, V>::empty(),
{
    HashMap::new()
}

/// Maps `key` to `value`, replacing what the key was mapped to.
pub fn insert<K, V>(map: &mut HashMap<K, V>, key: K, value: V) where K: Hash + Eq, V: Clone
    ensures
        keys_behave::<K>() ==> final(map)@ == old(map)@.insert(key, value),
{
    map.insert(key, value);
}

/// The value that `key` is mapped to, if any.
pub fn get<'a, K, V>(map: &'a HashMap<K, V>, key: &'a K) -> (r: Option<&'a V>) where
    K: Hash + Eq,
    V: Clone,

    ensures
        keys_behave::<K>() ==> (r is Some <==> map@.contains_key(*key)),
        keys_behave::<K>() && r is Some ==> *r->0 == map@[*key],
{
    broadcast use vstd::std_specs::hash::group_hash_axioms;

    map.get(key)
}

/// Removes `key` and returns what it was mapped to, if anything.
pub fn remove<K, V>(map: &mut HashMap<K, V>, key: &K) -> (r: Option<V>) where K: Hash + Eq, V: Clone
    ensures
        keys_behave::<K>() ==> final(map)@ == old(map)@.remove(*key),
        keys_behave::<K>() ==> (r is Some <==> old(map)@.contains_key(*key)),
        keys_behave::<K>() && r is Some ==> r->0 == old(map)@[*key],
{
    broadcast use vstd::std_specs::hash::group_hash_axioms;

    map.remove(key)
}

/// Whether `key` is mapped to anything.
pub fn contains_key<K, V>(map: &HashMap<K, V>, key: &K) -> (r: bool) where K: Hash + Eq, V: Clone
    ensures
        keys_behave::<K>() ==> r == map@.contains_key(*key),
{
    broadcast use vstd::std_specs::hash::group_hash_axioms;

    map.contains_key(key)
}

/// The number of keys of a map.
pub fn len<K, V>(map: &HashMap<K, V>) -> (r: usize) where K: Hash + Eq, V: Clone
    ensures
        keys_behave::<K>() ==> r == map@.dom().len(),
{
    broadcast use vstd::std_specs::hash::group_hash_axioms;

    map.len()
}


/// The keys of a map, in the order in which the map is walked.
pub fn keys<K, V>(map: &HashMap<K, V>) -> (r: Vec<&K>) where K: Hash + Eq, V: Clone
    requires
        keys_behave::<K>(),
    ensures
        r@.len() == map@.dom().len(),
        r@.unref().to_set() == map@.dom(),
        r@.unref().no_duplicates(),
{
    broadcast use vstd::std_specs::hash::group_hash_axioms;

    let mut out: Vec<&K> = Vec::new();
    for key in it: map.keys()
        invariant
            out@ == it.seq().take(it.index@),
    {
        out.push(key);
    }
    assert(out@ =~= spec_keys_iter(map).remaining());
    out
}

/// The values of a map, in the order in which the map is walked.
pub fn values<K, V>(map: &HashMap<K, V>) -> (r: Vec<&V>) where K: Hash + Eq, V: Clone
    requires
        keys_behave::<K>(),
    ensures
        r@.len() == map@.dom().len(),
        r@.unref().to_set() == map@.values(),
{
    broadcast use vstd::std_specs::hash::group_hash_axioms;

    let mut out: Vec<&V> = Vec::new();
    for value in it: map.values()
        invariant
            out@ == it.seq().take(it.index@),
    {
        out.push(value);
    }
    assert(out@ =~= spec_values_iter(map).remaining());
    out
}

} // verus!
