//! The container and its operations.

use crate::laws::lemma_first_match_is_unique;
use crate::model::{
    entry_at, first_match, first_value, has_key, is_first_match, last_entry, only_value_changed,
    with_value_at, without_last,
};
use std::collections::hash_map::Entry;
use std::collections::hash_map::RandomState;
use std::collections::HashMap;
use std::hash::Hash;
use vstd::prelude::*;
use vstd::std_specs::cmp::PartialEqSpec;

verus! {

broadcast use vstd::std_specs::hash::group_hash_axioms;

/// A map from keys to values that remembers the order of insertion.
///
/// The keys stand in `key_vec` in insertion order; `hashmap` maps each slot
/// number below `key_vec.len()` to the value of that slot, and nothing else.
#[verifier::reject_recursive_types(H)]
pub struct StableHashMap<K, V, H = RandomState> where K: Clone + Eq + PartialEq + Hash, V: Clone {
    hashmap: HashMap<usize, V, H>,
    key_vec: Vec<K>,
}

impl<K, V, H> View for StableHashMap<K, V, H> where K: Clone + Eq + PartialEq + Hash, V: Clone {
    type V = Seq<(K, V)>;

    /// The entries in insertion order.
    closed spec fn view(&self) -> Seq<(K, V)> {
        Seq::new(self.key_vec@.len(), |i: int| (self.key_vec@[i], self.hashmap@[i as usize]))
    }
}

impl<K, V, H> StableHashMap<K, V, H> where K: Clone + Eq + PartialEq + Hash, V: Clone {
    /// The key sequence and the slot index describe the same entries: the
    /// index holds exactly the slot numbers below the number of keys.
    pub closed spec fn wf(&self) -> bool {
        forall|i: usize| self.hashmap@.contains_key(i) <==> i < self.key_vec@.len()
    }

    /// An empty container whose index hashes with `hash_builder`.
    #[must_use]
    pub fn with_hasher(hash_builder: H) -> (map: Self)
        ensures
            map.wf(),
            map@ == Seq::<(K, V)>::empty(),
    {
        let map = Self { hashmap: HashMap::with_hasher(hash_builder), key_vec: Vec::new() };
        assert(map@ =~= Seq::<(K, V)>::empty());
        map
    }

    /// An empty container whose index hashes with `hash_builder` and has
    /// room for `capacity` entries before it allocates again.
    #[must_use]
    pub fn with_capacity_and_hasher(capacity: usize, hash_builder: H) -> (map: Self)
        ensures
            map.wf(),
            map@ == Seq::<(K, V)>::empty(),
    {
        let map = Self {
            hashmap: HashMap::with_capacity_and_hasher(capacity, hash_builder),
            key_vec: Vec::new(),
        };
        assert(map@ =~= Seq::<(K, V)>::empty());
        map
    }
}

impl<K, V> StableHashMap<K, V, RandomState> where K: Clone + Eq + PartialEq + Hash, V: Clone {
    /// An empty container.
    #[must_use]
    pub fn new() -> (map: Self)
        ensures
            map.wf(),
            map@ == Seq::<(K, V)>::empty(),
    {
        let map = Self { hashmap: HashMap::new(), key_vec: Vec::new() };
        assert(map@ =~= Seq::<(K, V)>::empty());
        map
    }

    /// An empty container with room for `size` entries before it allocates
    /// again. The size is a hint: it changes nothing that can be observed.
    #[must_use]
    pub fn with_capacity(size: usize) -> (map: Self)
        ensures
            map.wf(),
            map@ == Seq::<(K, V)>::empty(),
    {
        let map = Self { hashmap: HashMap::with_capacity(size), key_vec: Vec::with_capacity(size) };
        assert(map@ =~= Seq::<(K, V)>::empty());
        map
    }

    /// Appends an entry at the end of the order. A key that is already
    /// present gets a second slot of its own.
    pub fn push(&mut self, key: K, value: V)
        requires
            old(self).wf(),
        ensures
            final(self).wf(),
            final(self)@ == old(self)@.push((key, value)),
    {
        self.hashmap.insert(self.key_vec.len(), value);
        self.key_vec.push(key);
        assert(self@ =~= old(self)@.push((key, value)));
    }

    /// Removes the last entry and returns it; `None` on an empty container,
    /// which is left as it is.
    pub fn pop(&mut self) -> (entry: Option<(K, V)>)
        requires
            old(self).wf(),
        ensures
            final(self).wf(),
            entry == last_entry(old(self)@),
            final(self)@ == without_last(old(self)@),
    {
        match self.key_vec.pop() {
            Some(key) => {
                let slot: usize = self.key_vec.len();
                match self.hashmap.remove(&slot) {
                    Some(value) => {
                        assert(self@ =~= old(self)@.drop_last());
                        Some((key, value))
                    },
                    // Never taken: the index holds every slot below the number of keys.
                    None => None,
                }
            },
            None => {
                assert(self@ =~= old(self)@);
                None
            },
        }
    }

    /// The entry at `idx` in insertion order; `None` from the length on.
    #[must_use]
    pub fn get(&self, idx: usize) -> (entry: Option<(&K, &V)>)
        requires
            self.wf(),
        ensures
            match entry {
                Some((key, value)) => entry_at(self@, idx as int) == Some((*key, *value)),
                None => entry_at(self@, idx as int).is_none(),
            },
    {
        if idx < self.key_vec.len() {
            match self.hashmap.get(&idx) {
                Some(value) => Some((&self.key_vec[idx], value)),
                // Never taken: the index holds every slot below the number of keys.
                None => None,
            }
        } else {
            None
        }
    }

    /// The entry at `idx`, open to change in place; `None` from the length
    /// on. Whatever is written through the two references is the entry at
    /// `idx` afterwards, and no other entry changes.
    #[must_use]
    pub fn get_mut(&mut self, idx: usize) -> (entry: Option<(&mut K, &mut V)>)
        requires
            old(self).wf(),
        ensures
            final(self).wf(),
            match entry {
                Some((key, value)) => {
                    &&& entry_at(old(self)@, idx as int) == Some((*key, *value))
                    &&& final(self)@ == old(self)@.update(idx as int, (*final(key), *final(value)))
                },
                None => entry_at(old(self)@, idx as int).is_none() && final(self)@ == old(self)@,
            },
    {
        if idx < self.key_vec.len() {
            let key = &mut self.key_vec[idx];
            match self.hashmap.entry(idx) {
                Entry::Occupied(occupied) => {
                    let value = occupied.into_mut();
                    Some((key, value))
                },
                // Never taken: the index holds every slot below the number of keys.
                Entry::Vacant(_) => None,
            }
        } else {
            None
        }
    }

    /// The first slot whose key equals `key`.
    fn first_slot(&self, key: &K) -> (found: Option<usize>)
        ensures
            match found {
                Some(slot) => slot < self@.len(),
                None => true,
            },
            K::obeys_eq_spec() ==> match found {
                Some(slot) => is_first_match(self@, *key, slot as int),
                None => !has_key(self@, *key),
            },
    {
        let mut slot: usize = 0;
        while slot < self.key_vec.len()
            invariant
                slot <= self.key_vec@.len(),
                self@.len() == self.key_vec@.len(),
                K::obeys_eq_spec() ==> forall|j: int|
                    0 <= j < slot ==> !(#[trigger] self@[j]).0.eq_spec(key),
            decreases self.key_vec@.len() - slot,
        {
            if self.key_vec[slot] == *key {
                return Some(slot);
            }
            slot += 1;
        }
        None
    }

    /// The value of the first entry in insertion order whose key equals
    /// `key`; `None` where no key does. Equality is that of `K`'s `==`; of
    /// a key type whose `==` has no specification, the contract says only
    /// that the value found stands in some slot.
    #[must_use]
    pub fn get_by_key(&self, key: &K) -> (value: Option<&V>)
        requires
            self.wf(),
        ensures
            K::obeys_eq_spec() ==> match value {
                Some(v) => first_value(self@, *key) == Some(*v),
                None => first_value(self@, *key).is_none(),
            },
            match value {
                Some(v) => exists|slot: int| 0 <= slot < self@.len() && (#[trigger] self@[slot]).1 == *v,
                None => true,
            },
    {
        match self.first_slot(key) {
            Some(slot) => {
                let found = self.hashmap.get(&slot);
                proof {
                    assert(found == Some(&self@[slot as int].1));
                    if K::obeys_eq_spec() {
                        lemma_first_match_is_unique(self@, *key, slot as int);
                    }
                }
                found
            },
            None => None,
        }
    }

    /// The value of the first entry in insertion order whose key equals
    /// `key`, open to change in place; `None` where no key does. What is
    /// written through the reference is that entry's value afterwards; its
    /// key and all other entries stay.
    #[must_use]
    pub fn get_mut_by_key(&mut self, key: &K) -> (value: Option<&mut V>)
        requires
            old(self).wf(),
        ensures
            final(self).wf(),
            K::obeys_eq_spec() ==> match value {
                Some(v) => {
                    &&& first_match(old(self)@, *key).is_some()
                    &&& first_value(old(self)@, *key) == Some(*v)
                    &&& final(self)@ == with_value_at(
                        old(self)@,
                        first_match(old(self)@, *key).unwrap(),
                        *final(v),
                    )
                },
                None => first_match(old(self)@, *key).is_none(),
            },
            match value {
                Some(v) => only_value_changed(old(self)@, final(self)@, *v, *final(v)),
                None => final(self)@ == old(self)@,
            },
    {
        match self.first_slot(key) {
            Some(slot) => {
                proof {
                    assert(self.key_vec.len() == self@.len());
                    if K::obeys_eq_spec() {
                        lemma_first_match_is_unique(self@, *key, slot as int);
                    }
                }
                match self.hashmap.entry(slot) {
                    Entry::Occupied(occupied) => Some(occupied.into_mut()),
                    // Never taken: the index holds every slot below the number of keys.
                    Entry::Vacant(_) => None,
                }
            },
            None => None,
        }
    }
}

impl<K, V> Default for StableHashMap<K, V> where K: Clone + Eq + PartialEq + Hash, V: Clone {
    /// The empty container.
    fn default() -> (map: Self)
        ensures
            map.wf(),
            map@ == Seq::<(K, V)>::empty(),
    {
        Self::new()
    }
}

} // verus!
