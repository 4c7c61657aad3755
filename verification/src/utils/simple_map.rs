//! Hash maps whose keys are small `Copy` values.
use std::collections::HashMap;
use std::hash::Hash;

use vstd::prelude::*;

verus! {

pub type SimpleMap<K, V> = HashMap<K, V>;

/// The keys of the map, each once, in an unspecified order.
pub fn key_list<K: Copy + Hash + Eq, V>(m: &SimpleMap<K, V>) -> (keys: Vec<K>)
    requires
        vstd::std_specs::hash::obeys_key_model::<K>(),
    ensures
        keys@.no_duplicates(),
        keys@.to_set() == m@.dom(),
{
    broadcast use vstd::std_specs::hash::group_hash_axioms;
    let mut keys: Vec<K> = Vec::new();
    for k in it: m.keys()
        invariant
            keys@ == it.seq().unref().take(it.index() as int),
    {
        keys.push(*k);
    }
    assert(keys@ == vstd::std_specs::iter::IteratorSpec::remaining(
        &vstd::std_specs::hash::spec_keys_iter(m),
    ).unref());
    keys
}

} // verus!
