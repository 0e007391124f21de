//! Consuming iteration in insertion order.

use crate::model::{first_entry, without_first};
use crate::stable_map::StableHashMap;
use std::collections::hash_map::RandomState;
use std::hash::Hash;
use vstd::prelude::*;

verus! {

/// What is left of a container that is being consumed front to back.
///
/// The entries still to come are held in reverse, so that each step moves
/// the next entry out with a removal at the tail.
pub struct StableHashMapIntoIterator<K, V> where K: Clone + Eq + PartialEq + Hash, V: Clone {
    stable_map: StableHashMap<K, V>,
}

impl<K, V> View for StableHashMapIntoIterator<K, V> where K: Clone + Eq + PartialEq + Hash, V: Clone {
    type V = Seq<(K, V)>;

    /// The entries still to come, the next one first.
    closed spec fn view(&self) -> Seq<(K, V)> {
        Seq::new(
            self.stable_map@.len(),
            |i: int| self.stable_map@[self.stable_map@.len() - 1 - i],
        )
    }
}

impl<K, V> StableHashMapIntoIterator<K, V> where K: Clone + Eq + PartialEq + Hash, V: Clone {
    /// The container held inside is well formed.
    pub closed spec fn wf(&self) -> bool {
        self.stable_map.wf()
    }

    /// Moves the next entry out; `None` once all entries have been handed
    /// out, and on every call after that.
    pub fn next(&mut self) -> (item: Option<(K, V)>)
        requires
            old(self).wf(),
        ensures
            final(self).wf(),
            item == first_entry(old(self)@),
            final(self)@ == without_first(old(self)@),
    {
        let item = self.stable_map.pop();
        assert(self@ =~= without_first(old(self)@));
        item
    }
}

impl<K, V> StableHashMap<K, V, RandomState> where K: Clone + Eq + PartialEq + Hash, V: Clone {
    /// Consumes the container; the iterator hands out its entries in
    /// insertion order, each one once.
    pub fn into_iter(self) -> (iter: StableHashMapIntoIterator<K, V>)
        requires
            self.wf(),
        ensures
            iter.wf(),
            iter@ == self@,
    {
        let ghost all = self@;
        let mut source = self;
        let mut reversed: StableHashMap<K, V> = StableHashMap::new();
        loop
            invariant
                source.wf(),
                reversed.wf(),
                source@.len() + reversed@.len() == all.len(),
                forall|i: int| 0 <= i < source@.len() ==> source@[i] == all[i],
                forall|i: int|
                    0 <= i < reversed@.len() ==> reversed@[i] == all[all.len() - 1 - i],
            ensures
                source@.len() == 0,
            decreases source@.len(),
        {
            match source.pop() {
                Some((key, value)) => {
                    reversed.push(key, value);
                },
                None => {
                    break;
                },
            }
        }
        let iter = StableHashMapIntoIterator { stable_map: reversed };
        assert(iter@ =~= all);
        iter
    }
}

} // verus!
