use stable_hash_map::{StableHashMap, StableHashMapIntoIterator};
use std::collections::hash_map::RandomState;

fn drain(map: StableHashMap<&'static str, i32>) -> Vec<(&'static str, i32)> {
    let mut iter: StableHashMapIntoIterator<&'static str, i32> = map.into_iter();
    let mut out = Vec::new();
    while let Some(pair) = iter.next() {
        out.push(pair);
    }
    out
}

fn count_by_slot(map: &StableHashMap<&'static str, i32>) -> usize {
    let mut n = 0;
    while map.get(n).is_some() {
        n += 1;
    }
    n
}

#[test]
fn iteration_follows_push_order() {
    let mut map = StableHashMap::new();
    map.push("delta", 4);
    map.push("alpha", 1);
    map.push("charlie", 3);
    map.push("bravo", 2);
    assert_eq!(
        drain(map),
        vec![("delta", 4), ("alpha", 1), ("charlie", 3), ("bravo", 2)]
    );
}

#[test]
fn iteration_ends_and_stays_ended() {
    let mut map = StableHashMap::new();
    map.push("k", 1);
    let mut iter = map.into_iter();
    assert_eq!(iter.next(), Some(("k", 1)));
    assert_eq!(iter.next(), None);
    assert_eq!(iter.next(), None);
}

#[test]
fn iteration_moves_values_out() {
    let mut map: StableHashMap<String, Vec<u8>> = StableHashMap::new();
    map.push(String::from("first"), vec![1, 2, 3]);
    map.push(String::from("second"), vec![]);
    let mut iter = map.into_iter();
    assert_eq!(iter.next(), Some((String::from("first"), vec![1, 2, 3])));
    assert_eq!(iter.next(), Some((String::from("second"), vec![])));
    assert_eq!(iter.next(), None);
}

#[test]
fn pop_undoes_push() {
    let mut map = StableHashMap::new();
    map.push("a", 1);
    map.push("b", 2);
    map.push("c", 3);
    assert_eq!(map.pop(), Some(("c", 3)));
    assert_eq!(count_by_slot(&map), 2);
    assert_eq!(map.get(0), Some((&"a", &1)));
    assert_eq!(map.get(1), Some((&"b", &2)));
    assert_eq!(map.get(2), None);
    assert_eq!(drain(map), vec![("a", 1), ("b", 2)]);
}

#[test]
fn pop_returns_entries_last_first() {
    let mut map = StableHashMap::new();
    map.push(10u64, 'x');
    map.push(20u64, 'y');
    assert_eq!(map.pop(), Some((20, 'y')));
    assert_eq!(map.pop(), Some((10, 'x')));
    assert_eq!(map.pop(), None);
    assert_eq!(map.pop(), None);
    map.push(30u64, 'z');
    assert_eq!(map.get(0), Some((&30, &'z')));
    assert_eq!(map.get(1), None);
}

#[test]
fn iteration_and_slot_access_count_alike() {
    let mut map = StableHashMap::new();
    assert_eq!(count_by_slot(&map), 0);
    map.push("a", 1);
    map.push("b", 2);
    map.push("a", 3);
    map.pop();
    map.push("c", 4);
    assert_eq!(count_by_slot(&map), 3);
    assert_eq!(drain(map).len(), 3);
}

#[test]
fn slots_are_addressed_in_order() {
    let mut map = StableHashMap::new();
    for i in 0..50usize {
        map.push(i * 2, i * i);
    }
    for i in 0..50usize {
        assert_eq!(map.get(i), Some((&(i * 2), &(i * i))));
    }
    assert_eq!(map.get(50), None);
    assert_eq!(map.get(51), None);
    assert_eq!(map.get(usize::MAX), None);
}

#[test]
fn duplicate_key_gets_a_slot_of_its_own() {
    let mut map = StableHashMap::new();
    map.push("a", 1);
    map.push("a", 2);
    assert_eq!(map.get_by_key(&"a"), Some(&1));
    assert_eq!(map.get(0), Some((&"a", &1)));
    assert_eq!(map.get(1), Some((&"a", &2)));
    assert_eq!(drain(map), vec![("a", 1), ("a", 2)]);
}

#[test]
fn lookup_by_key_finds_first_match() {
    let mut map = StableHashMap::new();
    map.push("x", 1);
    map.push("y", 2);
    map.push("x", 3);
    map.push("z", 4);
    assert_eq!(map.get_by_key(&"y"), Some(&2));
    assert_eq!(map.get_by_key(&"x"), Some(&1));
    assert_eq!(map.get_by_key(&"z"), Some(&4));
    assert_eq!(map.get_by_key(&"w"), None);
}

#[test]
fn empty_container_signals_absence() {
    let mut map: StableHashMap<&'static str, i32> = StableHashMap::new();
    assert_eq!(map.pop(), None);
    assert_eq!(map.get(0), None);
    assert_eq!(map.get_by_key(&"anything"), None);
    assert!(map.get_mut(0).is_none());
    assert!(map.get_mut_by_key(&"anything").is_none());
    assert_eq!(drain(map), vec![]);
}

#[test]
fn bulk_from_vec_equals_pushes() {
    let pairs = vec![("b", 2), ("a", 1), ("b", 3), ("c", 0)];
    let bulk: StableHashMap<&'static str, i32> = StableHashMap::from(pairs.clone());
    let mut pushed = StableHashMap::new();
    for (k, v) in pairs.iter() {
        pushed.push(*k, *v);
    }
    for slot in 0..5 {
        assert_eq!(bulk.get(slot), pushed.get(slot));
    }
    assert_eq!(bulk.get(2), Some((&"b", &3)));
    assert_eq!(bulk.get_by_key(&"b"), Some(&2));
    assert_eq!(drain(bulk), pairs);
    assert_eq!(drain(pushed), pairs);
}

#[test]
fn bulk_from_slice_equals_pushes() {
    let pairs = [(String::from("one"), 1u8), (String::from("two"), 2u8), (String::from("one"), 3u8)];
    let bulk: StableHashMap<String, u8> = StableHashMap::from(&pairs[..]);
    let mut pushed = StableHashMap::new();
    for (k, v) in pairs.iter() {
        pushed.push(k.clone(), *v);
    }
    for slot in 0..4 {
        assert_eq!(bulk.get(slot), pushed.get(slot));
    }
    assert_eq!(bulk.get(0), Some((&String::from("one"), &1)));
    assert_eq!(bulk.get(2), Some((&String::from("one"), &3)));
    assert_eq!(bulk.get(3), None);
    assert_eq!(pairs[1], (String::from("two"), 2));
}

#[test]
fn bulk_from_nothing_is_empty() {
    let from_vec: StableHashMap<u8, u8> = StableHashMap::from(Vec::new());
    assert_eq!(from_vec.get(0), None);
    let none: [(u8, u8); 0] = [];
    let mut from_slice: StableHashMap<u8, u8> = StableHashMap::from(&none[..]);
    assert_eq!(from_slice.pop(), None);
}

#[test]
fn write_through_get_mut_is_visible() {
    let mut map = StableHashMap::new();
    map.push("a", 1);
    map.push("b", 2);
    map.push("c", 3);
    {
        let (_, value) = map.get_mut(1).unwrap();
        *value = 20;
    }
    assert_eq!(map.get(1), Some((&"b", &20)));
    assert_eq!(map.get(0), Some((&"a", &1)));
    assert_eq!(map.get(2), Some((&"c", &3)));
    assert!(map.get_mut(3).is_none());
    assert_eq!(map.pop(), Some(("c", 3)));
    assert_eq!(map.pop(), Some(("b", 20)));
}

#[test]
fn key_written_through_get_mut_is_found_by_lookup() {
    let mut map = StableHashMap::new();
    map.push("a", 1);
    map.push("b", 2);
    {
        let (key, value) = map.get_mut(0).unwrap();
        *key = "renamed";
        *value += 10;
    }
    assert_eq!(map.get(0), Some((&"renamed", &11)));
    assert_eq!(map.get_by_key(&"renamed"), Some(&11));
    assert_eq!(map.get_by_key(&"a"), None);
    assert_eq!(map.get_by_key(&"b"), Some(&2));
}

#[test]
fn write_through_get_mut_by_key_changes_first_match_only() {
    let mut map = StableHashMap::new();
    map.push("k", 1);
    map.push("other", 5);
    map.push("k", 2);
    *map.get_mut_by_key(&"k").unwrap() = 100;
    assert_eq!(map.get(0), Some((&"k", &100)));
    assert_eq!(map.get(1), Some((&"other", &5)));
    assert_eq!(map.get(2), Some((&"k", &2)));
    assert_eq!(map.get_by_key(&"k"), Some(&100));
    assert!(map.get_mut_by_key(&"missing").is_none());
    assert_eq!(drain(map), vec![("k", 100), ("other", 5), ("k", 2)]);
}

#[test]
fn capacity_hint_changes_nothing() {
    let mut hinted = StableHashMap::with_capacity(64);
    let mut plain = StableHashMap::new();
    assert_eq!(hinted.get(0), None);
    for i in 0..100u32 {
        hinted.push(i, i + 1);
        plain.push(i, i + 1);
    }
    for slot in 0..101usize {
        assert_eq!(hinted.get(slot), plain.get(slot));
    }
    let mut zero: StableHashMap<u32, u32> = StableHashMap::with_capacity(0);
    zero.push(7, 8);
    assert_eq!(zero.pop(), Some((7, 8)));
}

#[test]
fn containers_made_with_a_hasher_start_empty() {
    let mut first: StableHashMap<&'static str, i32> = StableHashMap::with_hasher(RandomState::new());
    assert_eq!(first.get(0), None);
    assert_eq!(first.pop(), None);
    first.push("a", 1);
    first.push("b", 2);
    assert_eq!(first.get(1), Some((&"b", &2)));
    let mut second: StableHashMap<&'static str, i32> =
        StableHashMap::with_capacity_and_hasher(16, RandomState::new());
    assert_eq!(second.get(0), None);
    assert_eq!(second.pop(), None);
    second.push("c", 3);
    assert_eq!(second.get_by_key(&"c"), Some(&3));
    assert_eq!(second.get(1), None);
}

#[test]
fn default_is_empty() {
    let mut map: StableHashMap<u8, u8> = StableHashMap::default();
    assert_eq!(map.get(0), None);
    assert_eq!(map.pop(), None);
    map.push(1, 2);
    assert_eq!(map.get(0), Some((&1, &2)));
}
