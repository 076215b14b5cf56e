use bidir_map::{bidir_map, BidirMap, ByFirst, BySecond};
use std::collections::hash_map::DefaultHasher;
use std::hash::{Hash, Hasher};

fn pairs_of(map: &BidirMap<i32, &'static str>) -> Vec<(i32, &'static str)> {
    map.iter().map(|(first, second)| (*first, *second)).collect()
}

#[test]
fn new_map_is_empty_and_equals_default() {
    let map: BidirMap<i32, &str> = BidirMap::new();
    assert_eq!(map.len(), 0);
    assert!(map.is_empty());
    assert_eq!(map, Default::default());
    assert_eq!(map.get_by_first(&1), None);
    assert_eq!(map.get_by_second(&"a"), None);
}

#[test]
fn with_capacity_starts_empty() {
    let mut map: BidirMap<i32, &str> = BidirMap::with_capacity(16);
    assert_eq!(map.len(), 0);
    assert!(map.is_empty());
    assert_eq!(map.insert(1, "a"), None);
    assert_eq!(map.len(), 1);
    assert_eq!(map, bidir_map(vec![(1, "a")]));
}

#[test]
fn lookups_on_both_sides() {
    let mut map = BidirMap::new();
    map.insert(1, "a");
    assert_eq!(map.get_by_first(&1), Some(&"a"));
    assert_eq!(map.get_by_first(&2), None);
    assert_eq!(map.get_by_second(&"a"), Some(&1));
    assert_eq!(map.get_by_second(&"b"), None);
    assert_eq!(map.contains_first_key(&1), true);
    assert_eq!(map.contains_first_key(&2), false);
    assert_eq!(map.contains_second_key(&"a"), true);
    assert_eq!(map.contains_second_key(&"b"), false);
}

#[test]
fn distinct_pairs_are_all_found() {
    let pairs = vec![(10, "ten"), (20, "twenty"), (30, "thirty"), (40, "forty"), (50, "fifty")];
    let mut map = BidirMap::new();
    for &(first, second) in pairs.iter() {
        assert_eq!(map.insert(first, second), None);
    }
    assert_eq!(map.len(), 5);
    assert_eq!(pairs_of(&map), pairs);
    for &(first, second) in pairs.iter() {
        assert_eq!(map.get_by_first(&first), Some(&second));
        assert_eq!(map.get_by_second(&second), Some(&first));
    }
    assert_eq!(map.get_by_first(&60), None);
    assert_eq!(map.get_by_first(&0), None);
    assert_eq!(map.get_by_second(&"sixty"), None);
    assert_eq!(map.get_by_second(&""), None);
}

#[test]
fn insert_then_get_finds_the_new_pair() {
    let mut map = BidirMap::new();
    map.insert(1, "a");
    map.insert(2, "b");
    assert_eq!(map.insert(3, "c"), None);
    assert_eq!(map.get_by_first(&3), Some(&"c"));
    assert_eq!(map.get_by_second(&"c"), Some(&3));
    // with a first member that is already there
    assert_eq!(map.insert(2, "z"), Some((2, "b")));
    assert_eq!(map.get_by_first(&2), Some(&"z"));
    assert_eq!(map.get_by_second(&"z"), Some(&2));
    // with a second member that is already there
    assert_eq!(map.insert(9, "a"), Some((1, "a")));
    assert_eq!(map.get_by_first(&9), Some(&"a"));
    assert_eq!(map.get_by_second(&"a"), Some(&9));
    // with both members of one pair
    assert_eq!(map.insert(9, "a"), Some((9, "a")));
    assert_eq!(map.get_by_first(&9), Some(&"a"));
    assert_eq!(map.get_by_second(&"a"), Some(&9));
    assert_eq!(map.len(), 3);
}

#[test]
fn insert_with_known_first_displaces_that_pair_only() {
    let mut map = BidirMap::new();
    map.insert(1, "a");
    map.insert(2, "b");
    map.insert(3, "c");
    assert_eq!(map.insert(1, "d"), Some((1, "a")));
    // the last pair took the place of the displaced one, the new pair is last
    assert_eq!(pairs_of(&map), vec![(3, "c"), (2, "b"), (1, "d")]);
    assert_eq!(map.get_by_second(&"d"), Some(&1));
    assert_eq!(map.get_by_second(&"a"), None);
    assert_eq!(map.get_by_first(&2), Some(&"b"));
    assert_eq!(map.get_by_first(&3), Some(&"c"));
    assert_eq!(map.len(), 3);
}

#[test]
fn insert_with_known_second_displaces_that_pair_only() {
    let mut map = BidirMap::new();
    map.insert(1, "a");
    map.insert(2, "b");
    map.insert(3, "c");
    assert_eq!(map.insert(4, "b"), Some((2, "b")));
    assert_eq!(pairs_of(&map), vec![(1, "a"), (3, "c"), (4, "b")]);
    assert_eq!(map.get_by_first(&4), Some(&"b"));
    assert_eq!(map.get_by_first(&2), None);
    assert_eq!(map.get_by_second(&"b"), Some(&4));
    assert_eq!(map.get_by_second(&"a"), Some(&1));
    assert_eq!(map.len(), 3);
}

#[test]
fn insert_that_collides_with_two_pairs_displaces_one() {
    let mut map = BidirMap::new();
    map.insert(1, "a");
    map.insert(2, "b");
    // `1` is found in the first pair and `"b"` in the second: only the first
    // gives way
    assert_eq!(map.insert(1, "b"), Some((1, "a")));
    assert_eq!(pairs_of(&map), vec![(2, "b"), (1, "b")]);
    assert_eq!(map.len(), 2);
    assert_eq!(map.get_by_first(&1), Some(&"b"));
    // two pairs now have `"b"`: the lookup finds the earlier one
    assert_eq!(map.get_by_second(&"b"), Some(&2));
    assert_eq!(map.get_by_first(&2), Some(&"b"));
    // until one of the two is removed
    assert_eq!(map.remove_by_first(&2), Some((2, "b")));
    assert_eq!(map.get_by_second(&"b"), Some(&1));
    assert_eq!(map.len(), 1);
}

#[test]
fn displaced_first_pair_scenario() {
    let mut map = BidirMap::new();
    assert_eq!(map.insert(1, "a"), None);
    assert_eq!(map.insert(2, "b"), None);
    assert_eq!(map.insert(1, "c"), Some((1, "a")));
    assert_eq!(map.get_by_first(&1), Some(&"c"));
    assert_eq!(map.get_by_second(&"a"), None);
    assert_eq!(map.len(), 2);
}

#[test]
fn remove_by_first_returns_the_pair_once() {
    let mut map = BidirMap::new();
    map.insert(1, "a");
    assert_eq!(map.remove_by_first(&1), Some((1, "a")));
    assert_eq!(map.remove_by_first(&1), None);
    assert!(map.is_empty());
}

#[test]
fn remove_by_second_returns_the_pair_once() {
    let mut map = BidirMap::new();
    map.insert(1, "a");
    assert_eq!(map.remove_by_second(&"b"), None);
    assert_eq!(map.remove_by_second(&"a"), Some((1, "a")));
    assert_eq!(map.remove_by_second(&"a"), None);
    assert!(map.is_empty());
}

#[test]
fn removal_moves_the_last_pair_into_the_gap() {
    let mut map = bidir_map(vec![(1, "a"), (2, "b"), (3, "c"), (4, "d")]);
    assert_eq!(map.remove_by_first(&2), Some((2, "b")));
    assert_eq!(pairs_of(&map), vec![(1, "a"), (4, "d"), (3, "c")]);
    assert_eq!(map.remove_by_second(&"c"), Some((3, "c")));
    assert_eq!(pairs_of(&map), vec![(1, "a"), (4, "d")]);
    assert_eq!(map.remove_by_first(&1), Some((1, "a")));
    assert_eq!(pairs_of(&map), vec![(4, "d")]);
    assert_eq!(map.remove_by_second(&"d"), Some((4, "d")));
    assert_eq!(pairs_of(&map), vec![]);
    assert_eq!(map.remove_by_first(&4), None);
}

#[test]
fn len_counts_inserts_less_removals() {
    let mut map = BidirMap::new();
    let mut inserts = 0;
    let mut removals = 0;
    let pairs = vec![(1, "a"), (2, "b"), (3, "c"), (1, "d"), (5, "b"), (3, "d"), (6, "f")];
    for (first, second) in pairs {
        inserts += 1;
        if map.insert(first, second).is_some() {
            removals += 1;
        }
        assert_eq!(map.len(), inserts - removals);
    }
    assert_eq!(inserts, 7);
    assert_eq!(removals, 3);
    assert_eq!(map.len(), 4);
    for first in vec![1, 2, 5, 7, 5] {
        if map.remove_by_first(&first).is_some() {
            removals += 1;
        }
        assert_eq!(map.len(), inserts - removals);
    }
    for second in vec!["f", "f", "q"] {
        if map.remove_by_second(&second).is_some() {
            removals += 1;
        }
        assert_eq!(map.len(), inserts - removals);
    }
    assert_eq!(removals, 6);
    assert_eq!(map.len(), 1);
    assert_eq!(pairs_of(&map), vec![(3, "d")]);
}

#[test]
fn clear_leaves_an_empty_map() {
    let mut map = BidirMap::new();
    map.insert(1, "a");
    map.insert(2, "b");
    map.clear();
    assert!(map.is_empty());
    assert_eq!(map.len(), 0);
    assert_eq!(map.get_by_first(&1), None);
    assert_eq!(map, BidirMap::new());
    map.clear();
    assert!(map.is_empty());
    assert_eq!(map.insert(1, "a"), None);
    assert_eq!(map.len(), 1);
}

#[test]
fn get_mut_by_first_changes_the_second_member() {
    let mut map = BidirMap::new();
    map.insert(1, "a");
    map.insert(2, "b");
    if let Some(x) = map.get_mut_by_first(&1) {
        *x = "z";
    }
    assert_eq!(map.get_by_first(&1), Some(&"z"));
    assert_eq!(map.get_by_second(&"z"), Some(&1));
    assert_eq!(map.get_by_second(&"a"), None);
    assert_eq!(pairs_of(&map), vec![(1, "z"), (2, "b")]);
    assert!(map.get_mut_by_first(&3).is_none());
}

#[test]
fn get_mut_by_second_changes_the_first_member() {
    let mut map = BidirMap::new();
    map.insert(1, "a");
    map.insert(2, "b");
    if let Some(x) = map.get_mut_by_second(&"b") {
        *x = 7;
    }
    assert_eq!(map.get_by_second(&"b"), Some(&7));
    assert_eq!(map.get_by_first(&7), Some(&"b"));
    assert_eq!(map.get_by_first(&2), None);
    assert_eq!(pairs_of(&map), vec![(1, "a"), (7, "b")]);
    assert!(map.get_mut_by_second(&"c").is_none());
}

#[test]
fn indexing_returns_what_get_returns() {
    let mut map = BidirMap::new();
    map.insert(1, "a");
    map.insert(2, "b");
    assert_eq!(map[ByFirst(&1)], "a");
    assert_eq!(map[&ByFirst(&1)], "a");
    assert_eq!(map[BySecond(&"a")], 1);
    assert_eq!(map[&BySecond(&"a")], 1);
    assert_eq!(&map[ByFirst(&2)], map.get_by_first(&2).unwrap());
    assert_eq!(&map[BySecond(&"b")], map.get_by_second(&"b").unwrap());
}

#[test]
fn queries_take_borrowed_forms_of_the_keys() {
    let mut map: BidirMap<String, Vec<u8>> = BidirMap::new();
    map.insert("one".to_string(), vec![1]);
    map.insert("two".to_string(), vec![2, 2]);
    assert!(map.contains_first_key("one"));
    assert!(!map.contains_first_key("three"));
    assert!(map.contains_second_key(&[2u8, 2][..]));
    assert_eq!(map.get_by_second(&[1u8][..]), Some(&"one".to_string()));
    assert_eq!(map[ByFirst("two")], vec![2, 2]);
    assert_eq!(map[BySecond(&[1u8][..])], "one");
    if let Some(bytes) = map.get_mut_by_first("one") {
        bytes.push(1);
    }
    assert_eq!(map.remove_by_second(&[1u8, 1][..]), Some(("one".to_string(), vec![1, 1])));
    assert_eq!(map.remove_by_first("two"), Some(("two".to_string(), vec![2, 2])));
    assert!(map.is_empty());
}

#[test]
fn maps_are_equal_if_their_pairs_are_in_the_same_order() {
    let ab = bidir_map(vec![(1, "a"), (2, "b")]);
    let mut same = BidirMap::new();
    same.insert(1, "a");
    same.insert(2, "b");
    assert_eq!(ab, same);
    let ba = bidir_map(vec![(2, "b"), (1, "a")]);
    assert_ne!(ab, ba);
    assert_ne!(ab, bidir_map(vec![(1, "a")]));
    assert_ne!(ab, bidir_map(vec![(1, "a"), (2, "c")]));
    assert_ne!(ab, bidir_map(vec![(1, "a"), (3, "b")]));
}

#[test]
fn clone_holds_the_same_pairs() {
    let map = bidir_map(vec![("a".to_string(), 1), ("b".to_string(), 2)]);
    let mut copy = map.clone();
    assert_eq!(copy, map);
    copy.insert("c".to_string(), 3);
    assert_eq!(map.len(), 2);
    assert_eq!(copy.len(), 3);
    assert_ne!(copy, map);
}

#[test]
fn equal_maps_hash_alike() {
    let hash_of = |map: &BidirMap<i32, &str>| {
        let mut hasher = DefaultHasher::new();
        map.hash(&mut hasher);
        hasher.finish()
    };
    let one = bidir_map(vec![(1, "a"), (2, "b")]);
    let mut two = BidirMap::with_capacity(8);
    two.insert(1, "a");
    two.insert(2, "b");
    assert_eq!(hash_of(&one), hash_of(&two));
}

#[test]
fn debug_shows_the_pairs() {
    let map = bidir_map(vec![(1, "a")]);
    assert!(format!("{:?}", map).contains("(1, \"a\")"));
}

#[test]
fn builder_inserts_each_pair() {
    let map = bidir_map(vec![("a", 1), ("b", 2)]);
    assert_eq!(map.get_by_first(&"a"), Some(&1));
    assert_eq!(map.get_by_second(&2), Some(&"b"));
    assert_eq!(map.get_by_first(&"c"), None);
    let mut best_map = BidirMap::new();
    best_map.insert("a", 1);
    best_map.insert("b", 2);
    assert_eq!(map, best_map);
    // a later pair displaces an earlier one with an equal member
    let map = bidir_map(vec![(1, "a"), (2, "b"), (3, "c"), (1, "d"), (5, "c")]);
    assert_eq!(pairs_of(&map), vec![(1, "d"), (2, "b"), (5, "c")]);
    let empty: BidirMap<i32, i32> = bidir_map(vec![]);
    assert!(empty.is_empty());
}

#[test]
fn from_iter_keeps_the_pairs_as_they_are() {
    let map = BidirMap::from_iter(vec![(1, "a"), (2, "b"), (1, "c"), (4, "b")]);
    assert_eq!(map.len(), 4);
    assert_eq!(pairs_of(&map), vec![(1, "a"), (2, "b"), (1, "c"), (4, "b")]);
    // a lookup finds the earlier of two pairs with equal members
    assert_eq!(map.get_by_first(&1), Some(&"a"));
    assert_eq!(map.get_by_second(&"b"), Some(&2));
    assert_eq!(map.get_by_second(&"c"), Some(&1));
    assert_eq!(map.get_by_first(&4), Some(&"b"));
}

#[test]
fn removal_from_a_map_with_equal_members_takes_one_pair_at_a_time() {
    let mut map = BidirMap::from_iter(vec![(1, "a"), (2, "b"), (1, "c")]);
    assert_eq!(map.remove_by_first(&1), Some((1, "a")));
    assert_eq!(pairs_of(&map), vec![(1, "c"), (2, "b")]);
    assert_eq!(map.remove_by_first(&1), Some((1, "c")));
    assert_eq!(map.remove_by_first(&1), None);
    assert_eq!(pairs_of(&map), vec![(2, "b")]);
}

#[test]
fn extend_appends_the_pairs_as_they_are() {
    let mut map = bidir_map(vec![(1, "a"), (2, "b")]);
    map.extend(vec![(3, "c"), (1, "z")]);
    assert_eq!(pairs_of(&map), vec![(1, "a"), (2, "b"), (3, "c"), (1, "z")]);
    assert_eq!(map.get_by_first(&1), Some(&"a"));
    assert_eq!(map.get_by_second(&"z"), Some(&1));
    map.extend(vec![]);
    assert_eq!(map.len(), 4);
}
