//! Building a container from an ordered collection of pairs.

use crate::laws::lemma_pushed_all_appends;
use crate::model::{cloned_entries, pushed_all};
use crate::stable_map::StableHashMap;
use std::hash::Hash;
use vstd::prelude::*;
use vstd::std_specs::convert::FromSpecImpl;

verus! {

impl<K, V> From<Vec<(K, V)>> for StableHashMap<K, V> where
    K: Clone + Eq + PartialEq + Hash,
    V: Clone,
{
    /// The pairs become the entries, in their order. A key that occurs
    /// twice gets two slots.
    fn from(tuples: Vec<(K, V)>) -> (map: Self)
        ensures
            map.wf(),
            map@ == tuples@,
            map@ == pushed_all(Seq::empty(), tuples@),
    {
        let ghost all = tuples@;
        let mut map: StableHashMap<K, V> = StableHashMap::with_capacity(tuples.len());
        for pair in it: tuples
            invariant
                map.wf(),
                it.seq() == all,
                map@ == all.take(it.index()),
        {
            let (key, value) = pair;
            map.push(key, value);
            assert(map@ =~= all.take(it.index() + 1));
        }
        proof {
            assert(map@ =~= all);
            lemma_pushed_all_appends(Seq::empty(), all);
            assert(Seq::<(K, V)>::empty() + all =~= all);
        }
        map
    }
}

impl<K, V> FromSpecImpl<Vec<(K, V)>> for StableHashMap<K, V> where
    K: Clone + Eq + PartialEq + Hash,
    V: Clone,
{
    /// The container holds a hash builder that is seeded anew, so it is no
    /// function of the pairs: `from` is specified by its own `ensures`.
    open spec fn obeys_from_spec() -> bool {
        false
    }

    open spec fn from_spec(tuples: Vec<(K, V)>) -> Self {
        arbitrary()
    }
}

impl<K, V> From<&[(K, V)]> for StableHashMap<K, V> where
    K: Clone + Eq + PartialEq + Hash,
    V: Clone,
{
    /// A clone of each pair becomes an entry, in the pairs' order. A key
    /// that occurs twice gets two slots.
    fn from(tuples: &[(K, V)]) -> (map: Self)
        ensures
            map.wf(),
            cloned_entries(tuples@, map@),
    {
        let mut map: StableHashMap<K, V> = StableHashMap::with_capacity(tuples.len());
        let mut i: usize = 0;
        while i < tuples.len()
            invariant
                map.wf(),
                i <= tuples@.len(),
                cloned_entries(tuples@.take(i as int), map@),
            decreases tuples@.len() - i,
        {
            let key = tuples[i].0.clone();
            let value = tuples[i].1.clone();
            map.push(key, value);
            i += 1;
        }
        assert(tuples@.take(i as int) =~= tuples@);
        map
    }
}

impl<K, V> FromSpecImpl<&[(K, V)]> for StableHashMap<K, V> where
    K: Clone + Eq + PartialEq + Hash,
    V: Clone,
{
    /// The container holds a hash builder that is seeded anew, and the
    /// clones are what `K` and `V` make of them: `from` is specified by its
    /// own `ensures`.
    open spec fn obeys_from_spec() -> bool {
        false
    }

    open spec fn from_spec(tuples: &[(K, V)]) -> Self {
        arbitrary()
    }
}

} // verus!
