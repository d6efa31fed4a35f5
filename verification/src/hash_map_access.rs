//! Mutable access to a value of a `std::collections::HashMap`.
use vstd::prelude::*;

use std::collections::HashMap;
use std::hash::Hash;
use vstd::std_specs::hash::obeys_key_model;

verus! {

/// `HashMap::get_mut`: a mutable reference to the value of `key`, if the map
/// holds one; what is written through it becomes the value of `key`, and
/// nothing else of the map changes.
#[verifier::external_body]
pub(crate) fn hash_map_get_mut<'a, K: Eq + Hash, V>(map: &'a mut HashMap<K, V>, key: &K) -> (r:
    Option<&'a mut V>)
    ensures
        obeys_key_model::<K>() ==> {
            &&& old(map)@.contains_key(*key) ==> {
                &&& r is Some
                &&& *r.unwrap() == old(map)@[*key]
                &&& final(map)@ == old(map)@.insert(*key, *final(r.unwrap()))
            }
            &&& !old(map)@.contains_key(*key) ==> r is None && final(map)@ == old(map)@
        },
{
    map.get_mut(key)
}

} // verus!
