//! Hash maps keyed by an object's number.

use std::collections::hash_map::Entry;
use std::collections::HashMap;
use vstd::prelude::*;

verus! {

/// Every key of a map, each once, in no particular order.
pub fn keys<V>(map: &HashMap<u32, V>) -> (keys: Vec<u32>)
    ensures
        keys@.no_duplicates(),
        keys@.to_set() == map@.dom(),
{
    let ghost listed = vstd::std_specs::iter::IteratorSpec::remaining(
        &vstd::std_specs::hash::spec_keys_iter(map),
    );
    let mut keys: Vec<u32> = Vec::new();
    for key in walk: map.keys()
        invariant
            walk.seq() == listed,
            keys@.len() == walk.index(),
            forall|k: int| 0 <= k < walk.index() ==> #[trigger] keys@[k] == *listed[k],
    {
        keys.push(*key);
    }
    assert(keys@ =~= listed.unref());
    keys
}

/// The value under a key, to change in place.
pub fn value_mut<V>(map: &mut HashMap<u32, V>, key: u32) -> (value: Option<&mut V>)
    ensures
        match value {
            Some(value) => {
                &&& old(map)@.dom().contains(key)
                &&& *value == old(map)@[key]
                &&& final(map)@ == old(map)@.insert(key, *final(value))
            },
            None => !old(map)@.dom().contains(key) && final(map)@ == old(map)@,
        },
{
    match map.entry(key) {
        Entry::Occupied(entry) => Some(entry.into_mut()),
        Entry::Vacant(_) => None,
    }
}

} // verus!
