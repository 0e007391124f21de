//! Laws that relate the operations to each other, proved over the model
//! that their contracts are stated with.

use crate::model::{
    entry_at, first_entry, first_match, first_value, has_key, is_first_match, last_entry, nth_item,
    pushed_all, with_value_at, without_first, without_last,
};
use vstd::prelude::*;
use vstd::std_specs::cmp::PartialEqSpec;

verus! {

/// Pushing pairs one at a time appends them, in their order, to what was
/// there.
pub proof fn lemma_pushed_all_appends<K, V>(entries: Seq<(K, V)>, pairs: Seq<(K, V)>)
    ensures
        pushed_all(entries, pairs) == entries + pairs,
    decreases pairs.len(),
{
    if pairs.len() == 0 {
        assert(entries + pairs =~= entries);
    } else {
        lemma_pushed_all_appends(entries, pairs.drop_last());
        assert((entries + pairs.drop_last()).push(pairs.last()) =~= entries + pairs);
    }
}

/// Consuming iteration hands out the entries by slot: the call of `next`
/// number `n` gives the entry at slot `n`, and nothing from the length on.
pub proof fn lemma_iteration_follows_slots<K, V>(entries: Seq<(K, V)>, n: nat)
    ensures
        nth_item(entries, n) == entry_at(entries, n as int),
    decreases n,
{
    if n > 0 {
        let rest = without_first(entries);
        lemma_iteration_follows_slots(rest, (n - 1) as nat);
        if entries.len() > 0 && n < entries.len() {
            assert(rest[n - 1] == entries[n as int]);
        }
    }
}

/// After the pairs have been pushed onto an empty container, consuming
/// iteration hands them out in the order of the pushes, each one once, and
/// then ends.
pub proof fn lemma_iteration_yields_pushes_in_order<K, V>(pairs: Seq<(K, V)>, n: nat)
    ensures
        nth_item(pushed_all(Seq::empty(), pairs), n) == entry_at(pairs, n as int),
{
    lemma_pushed_all_appends(Seq::empty(), pairs);
    assert(Seq::<(K, V)>::empty() + pairs =~= pairs);
    lemma_iteration_follows_slots(pairs, n);
}

/// A removal at the tail right after a push hands back the pushed entry and
/// leaves the entries as they were before the push.
pub proof fn lemma_pop_undoes_push<K, V>(entries: Seq<(K, V)>, key: K, value: V)
    ensures
        last_entry(entries.push((key, value))) == Some((key, value)),
        without_last(entries.push((key, value))) == entries,
{
    assert(entries.push((key, value)).drop_last() =~= entries);
}

/// The entries that consuming iteration reaches are those that slot access
/// reaches: both find an entry at each number below the length and none
/// from the length on, so the two counts agree.
pub proof fn lemma_iteration_and_slots_count_alike<K, V>(entries: Seq<(K, V)>, n: nat)
    ensures
        nth_item(entries, n).is_some() <==> n < entries.len(),
        entry_at(entries, n as int).is_some() <==> n < entries.len(),
{
    lemma_iteration_follows_slots(entries, n);
}

/// After the pairs have been pushed onto an empty container, slot `slot`
/// holds pair number `slot` for every slot below their count, and slot
/// access finds nothing from their count on.
pub proof fn lemma_slots_hold_pushes<K, V>(pairs: Seq<(K, V)>, slot: int)
    ensures
        0 <= slot < pairs.len() ==> entry_at(pushed_all(Seq::empty(), pairs), slot) == Some(
            pairs[slot],
        ),
        slot >= pairs.len() ==> entry_at(pushed_all(Seq::empty(), pairs), slot).is_none(),
{
    lemma_pushed_all_appends(Seq::empty(), pairs);
    assert(Seq::<(K, V)>::empty() + pairs =~= pairs);
}

/// On the empty container a removal at the tail, slot access and lookup by
/// key all find nothing.
pub proof fn lemma_empty_holds_nothing<K: PartialEq, V>(slot: int, key: K)
    ensures
        last_entry(Seq::<(K, V)>::empty()).is_none(),
        first_entry(Seq::<(K, V)>::empty()).is_none(),
        entry_at(Seq::<(K, V)>::empty(), slot).is_none(),
        !has_key(Seq::<(K, V)>::empty(), key),
        first_value(Seq::<(K, V)>::empty(), key).is_none(),
{
}

/// Building from a sequence of pairs gives the entries that pushing the
/// same pairs one at a time, in the same order, onto an empty container
/// gives: the pairs themselves.
pub proof fn lemma_bulk_equals_pushes<K, V>(pairs: Seq<(K, V)>)
    ensures
        pushed_all(Seq::empty(), pairs) == pairs,
{
    lemma_pushed_all_appends(Seq::empty(), pairs);
    assert(Seq::<(K, V)>::empty() + pairs =~= pairs);
}

/// What is written to slot `slot` in place is what slot access finds there
/// afterwards, and every other slot holds what it held. The same holds
/// where only the value is written and the key is kept.
pub proof fn lemma_write_is_visible<K, V>(
    entries: Seq<(K, V)>,
    slot: int,
    written: (K, V),
    other: int,
)
    requires
        0 <= slot < entries.len(),
    ensures
        entries.update(slot, written).len() == entries.len(),
        entry_at(entries.update(slot, written), slot) == Some(written),
        other != slot ==> entry_at(entries.update(slot, written), other) == entry_at(
            entries,
            other,
        ),
        entry_at(with_value_at(entries, slot, written.1), slot) == Some(
            (entries[slot].0, written.1),
        ),
        other != slot ==> entry_at(with_value_at(entries, slot, written.1), other) == entry_at(
            entries,
            other,
        ),
{
}

/// A key has at most one first slot, and `first_match` names it.
pub proof fn lemma_first_match_is_unique<K: PartialEq, V>(entries: Seq<(K, V)>, key: K, slot: int)
    requires
        is_first_match(entries, key, slot),
    ensures
        has_key(entries, key),
        first_match(entries, key) == Some(slot),
        first_value(entries, key) == Some(entries[slot].1),
{
    assert(entries[slot].0.eq_spec(&key));
    let chosen = choose|other: int| is_first_match(entries, key, other);
    assert(is_first_match(entries, key, chosen));
    if chosen < slot {
        assert(!entries[chosen].0.eq_spec(&key));
    }
    if slot < chosen {
        assert(!entries[slot].0.eq_spec(&key));
    }
}

/// A key that some slot at or below `bound` holds has a first slot.
proof fn lemma_match_has_first<K: PartialEq, V>(entries: Seq<(K, V)>, key: K, bound: int)
    requires
        0 <= bound < entries.len(),
        entries[bound].0.eq_spec(&key),
    ensures
        exists|slot: int| is_first_match(entries, key, slot),
    decreases bound,
{
    if exists|j: int| 0 <= j < bound && (#[trigger] entries[j]).0.eq_spec(&key) {
        let j = choose|j: int| 0 <= j < bound && (#[trigger] entries[j]).0.eq_spec(&key);
        lemma_match_has_first(entries, key, j);
    } else {
        assert(is_first_match(entries, key, bound));
    }
}

/// A key that some slot holds is found, at a slot that holds it and that no
/// slot holding it precedes, and with that slot's value; a key that no slot
/// holds is not found.
pub proof fn lemma_lookup_finds_first<K: PartialEq, V>(entries: Seq<(K, V)>, key: K)
    ensures
        match first_match(entries, key) {
            Some(slot) => is_first_match(entries, key, slot) && first_value(entries, key) == Some(
                entries[slot].1,
            ),
            None => !has_key(entries, key) && first_value(entries, key).is_none(),
        },
{
    if has_key(entries, key) {
        let j = choose|j: int| 0 <= j < entries.len() && (#[trigger] entries[j]).0.eq_spec(&key);
        lemma_match_has_first(entries, key, j);
    }
}

} // verus!
