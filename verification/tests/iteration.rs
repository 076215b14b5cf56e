use bidir_map::{bidir_map, BidirMap};

#[test]
fn iter_yields_the_pairs_in_storage_order() {
    let mut map = BidirMap::new();
    map.insert(1, "a");
    map.insert(2, "b");
    map.insert(3, "c");
    let first = map.iter().next().unwrap();
    assert_eq!(first, (&1, &"a"));
    let mut it = map.iter();
    assert_eq!(it.next(), Some((&1, &"a")));
    assert_eq!(it.next(), Some((&2, &"b")));
    assert_eq!(it.next(), Some((&3, &"c")));
    assert_eq!(it.next(), None);
    assert_eq!(it.next(), None);
    // a new iterator starts over
    assert_eq!(map.iter().count(), 3);
    assert_eq!(map.iter().next(), Some((&1, &"a")));
}

#[test]
fn iter_over_an_empty_map_yields_nothing() {
    let mut map: BidirMap<u8, u8> = BidirMap::new();
    assert_eq!(map.iter().next(), None);
    assert_eq!(map.first_col().next(), None);
    assert_eq!(map.second_col().next(), None);
    assert!(map.iter_mut().next().is_none());
    assert_eq!(map.into_iter().next(), None);
}

#[test]
fn iter_mut_lets_both_members_change() {
    let mut map = BidirMap::new();
    map.insert("a", 1);
    map.insert("b", 2);
    map.insert("c", 3);
    // add 10 to the second member unless the first is "a"
    for kv in map.iter_mut() {
        if *kv.0 != "a" {
            *kv.1 += 10;
        }
    }
    assert_eq!(map, bidir_map(vec![("a", 1), ("b", 12), ("c", 13)]));
    let mut it = map.iter_mut();
    let (first, second) = it.next().unwrap();
    *first = "z";
    *second = 26;
    let (first, _) = it.next().unwrap();
    *first = "y";
    assert!(it.next().is_some());
    assert!(it.next().is_none());
    assert!(it.next().is_none());
    assert_eq!(map, bidir_map(vec![("z", 26), ("y", 12), ("c", 13)]));
    assert_eq!(map.get_by_first(&"a"), None);
    assert_eq!(map.get_by_second(&26), Some(&"z"));
}

#[test]
fn columns_yield_one_side_each() {
    let mut a = BidirMap::new();
    a.insert(1, "a");
    a.insert(2, "b");
    let keys: Vec<_> = a.first_col().cloned().collect();
    assert_eq!(keys, [1, 2]);
    let keys: Vec<_> = a.second_col().cloned().collect();
    assert_eq!(keys, ["a", "b"]);
    a.remove_by_first(&1);
    a.insert(3, "c");
    let mut firsts = a.first_col();
    assert_eq!(firsts.next(), Some(&2));
    assert_eq!(firsts.next(), Some(&3));
    assert_eq!(firsts.next(), None);
    let mut seconds = a.second_col();
    assert_eq!(seconds.next(), Some(&"b"));
    assert_eq!(seconds.next(), Some(&"c"));
    assert_eq!(seconds.next(), None);
}

#[test]
fn into_iter_hands_out_the_pairs() {
    let map = bidir_map(vec![("a".to_string(), 1), ("b".to_string(), 2)]);
    let mut pairs = Vec::new();
    for pair in map {
        pairs.push(pair);
    }
    assert_eq!(pairs, vec![("a".to_string(), 1), ("b".to_string(), 2)]);
}

#[test]
fn rebuilding_from_iter_gives_an_equal_map() {
    let mut map = bidir_map(vec![(1, "a"), (2, "b"), (3, "c"), (4, "d")]);
    map.remove_by_first(&2);
    map.insert(5, "a");
    let collected: Vec<(i32, &str)> = map.iter().map(|(a, b)| (*a, *b)).collect();
    assert_eq!(collected, vec![(3, "c"), (4, "d"), (5, "a")]);
    let rebuilt = BidirMap::from_iter(collected);
    assert_eq!(rebuilt, map);
    let empty: BidirMap<i32, &str> = BidirMap::new();
    let collected: Vec<(i32, &str)> = empty.iter().map(|(a, b)| (*a, *b)).collect();
    assert_eq!(BidirMap::from_iter(collected), empty);
}
