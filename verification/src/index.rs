//! Contracts for the constructors of `std::collections::HashMap` that take a
//! hash builder. They are believed, not proved.

use std::collections::HashMap;
use vstd::prelude::*;

verus! {

/// `HashMap::with_hasher` returns a map that holds no entry, whatever hash
/// builder it is given.
pub assume_specification<K, V, S>[ HashMap::<K, V, S>::with_hasher ](hash_builder: S) -> (index: HashMap<K, V, S>)
    ensures
        index@ == (Map::<K, V>::empty()),
;

/// `HashMap::with_capacity_and_hasher` returns a map that holds no entry,
/// whatever capacity and hash builder it is given: the capacity only sizes
/// the allocation.
pub assume_specification<K, V, S>[ HashMap::<K, V, S>::with_capacity_and_hasher ](capacity: usize, hasher: S) -> (index: HashMap<K, V, S>)
    ensures
        index@ == (Map::<K, V>::empty()),
;

} // verus!
