//! The mathematical model of the container: a sequence of `(key, value)`
//! entries in insertion order, and the functions on it that the contracts of
//! the executable operations are stated with.

use vstd::prelude::*;
use vstd::std_specs::cmp::PartialEqSpec;

verus! {

/// The entry at position `slot`, if the sequence is that long.
pub open spec fn entry_at<K, V>(entries: Seq<(K, V)>, slot: int) -> Option<(K, V)> {
    if 0 <= slot < entries.len() {
        Some(entries[slot])
    } else {
        None
    }
}

/// The entry that a removal at the tail hands out.
pub open spec fn last_entry<K, V>(entries: Seq<(K, V)>) -> Option<(K, V)> {
    if entries.len() > 0 {
        Some(entries.last())
    } else {
        None
    }
}

/// What is left after a removal at the tail.
pub open spec fn without_last<K, V>(entries: Seq<(K, V)>) -> Seq<(K, V)> {
    if entries.len() > 0 {
        entries.drop_last()
    } else {
        entries
    }
}

/// The entry that consuming iteration hands out next.
pub open spec fn first_entry<K, V>(entries: Seq<(K, V)>) -> Option<(K, V)> {
    if entries.len() > 0 {
        Some(entries.first())
    } else {
        None
    }
}

/// What is left to iterate after one step.
pub open spec fn without_first<K, V>(entries: Seq<(K, V)>) -> Seq<(K, V)> {
    if entries.len() > 0 {
        entries.drop_first()
    } else {
        entries
    }
}

/// `slot` holds `key`, and no earlier slot does.
pub open spec fn is_first_match<K: PartialEq, V>(entries: Seq<(K, V)>, key: K, slot: int) -> bool {
    &&& 0 <= slot < entries.len()
    &&& entries[slot].0.eq_spec(&key)
    &&& forall|j: int| 0 <= j < slot ==> !(#[trigger] entries[j]).0.eq_spec(&key)
}

/// Some slot holds `key`.
pub open spec fn has_key<K: PartialEq, V>(entries: Seq<(K, V)>, key: K) -> bool {
    exists|j: int| 0 <= j < entries.len() && (#[trigger] entries[j]).0.eq_spec(&key)
}

/// The first slot that holds `key`, in insertion order.
pub open spec fn first_match<K: PartialEq, V>(entries: Seq<(K, V)>, key: K) -> Option<int> {
    if has_key(entries, key) {
        Some(choose|slot: int| is_first_match(entries, key, slot))
    } else {
        None
    }
}

/// The value that a lookup by `key` finds: that of the first slot that holds
/// `key`.
pub open spec fn first_value<K: PartialEq, V>(entries: Seq<(K, V)>, key: K) -> Option<V> {
    match first_match(entries, key) {
        Some(slot) => Some(entries[slot].1),
        None => None,
    }
}

/// The entries with the value at `slot` replaced and its key kept.
pub open spec fn with_value_at<K, V>(entries: Seq<(K, V)>, slot: int, value: V) -> Seq<(K, V)> {
    entries.update(slot, (entries[slot].0, value))
}

/// `after` has the keys of `before` in the same slots, and the same values
/// but for slots that held `from` and now hold `to`.
pub open spec fn only_value_changed<K, V>(
    before: Seq<(K, V)>,
    after: Seq<(K, V)>,
    from: V,
    to: V,
) -> bool {
    &&& after.len() == before.len()
    &&& forall|j: int|
        0 <= j < before.len() ==> {
            &&& (#[trigger] after[j]).0 == before[j].0
            &&& after[j].1 == before[j].1 || (before[j].1 == from && after[j].1 == to)
        }
}

/// The entries after the pairs have been pushed one at a time, in order.
pub open spec fn pushed_all<K, V>(entries: Seq<(K, V)>, pairs: Seq<(K, V)>) -> Seq<(K, V)>
    decreases pairs.len(),
{
    if pairs.len() == 0 {
        entries
    } else {
        pushed_all(entries, pairs.drop_last()).push(pairs.last())
    }
}

/// What the call of `next` number `n` (from 0) hands out, on an iterator
/// that has `entries` still to come.
pub open spec fn nth_item<K, V>(entries: Seq<(K, V)>, n: nat) -> Option<(K, V)>
    decreases n,
{
    if n == 0 {
        first_entry(entries)
    } else {
        nth_item(without_first(entries), (n - 1) as nat)
    }
}

/// `copies` has a clone of each key and of each value of `pairs`, slot by
/// slot.
pub open spec fn cloned_entries<K: Clone, V: Clone>(
    pairs: Seq<(K, V)>,
    copies: Seq<(K, V)>,
) -> bool {
    &&& copies.len() == pairs.len()
    &&& forall|i: int|
        0 <= i < pairs.len() ==> {
            &&& cloned(pairs[i].0, (#[trigger] copies[i]).0)
            &&& cloned(pairs[i].1, copies[i].1)
        }
}

} // verus!
