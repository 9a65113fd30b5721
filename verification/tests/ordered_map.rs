use runway::ordered_map::OrderedMap;

#[test]
fn empty_map() {
    let map: OrderedMap<u32> = OrderedMap::new();
    assert_eq!(map.len(), 0);
    assert!(map.get("a").is_none());
}

#[test]
fn keys_stay_in_order() {
    let mut map: OrderedMap<u32> = OrderedMap::new();
    for (key, value) in [("m", 1), ("a", 2), ("z", 3), ("b", 4), ("n", 5)] {
        map.insert(key.to_string(), value);
    }
    let keys: Vec<&str> = (0..map.len()).map(|i| map.key_at(i).as_str()).collect();
    assert_eq!(keys, vec!["a", "b", "m", "n", "z"]);
    let values: Vec<u32> = (0..map.len()).map(|i| *map.value_at(i)).collect();
    assert_eq!(values, vec![2, 4, 1, 5, 3]);
}

#[test]
fn a_later_value_takes_the_place_of_an_earlier_one() {
    let mut map: OrderedMap<u32> = OrderedMap::new();
    map.insert("a".to_string(), 1);
    map.insert("b".to_string(), 2);
    map.insert("a".to_string(), 3);
    assert_eq!(map.len(), 2);
    assert_eq!(map.get("a"), Some(&3));
    assert_eq!(map.get("b"), Some(&2));
    assert_eq!(map.get("c"), None);
}

#[test]
fn values_change_in_place() {
    let mut map: OrderedMap<u32> = OrderedMap::new();
    map.insert("a".to_string(), 1);
    map.insert("b".to_string(), 2);
    *map.value_mut(1) = 7;
    assert_eq!(map.get("b"), Some(&7));
    assert_eq!(map.get("a"), Some(&1));
}

#[test]
fn copies_are_independent() {
    let mut map: OrderedMap<u32> = OrderedMap::new();
    map.insert("a".to_string(), 1);
    let mut copy = map.clone();
    copy.insert("a".to_string(), 2);
    copy.insert("b".to_string(), 3);
    assert_eq!(map.get("a"), Some(&1));
    assert_eq!(map.len(), 1);
    assert_eq!(copy.get("a"), Some(&2));
    assert_eq!(copy.len(), 2);
}

#[test]
fn map_agrees_with_a_sorted_map() {
    let mut map: OrderedMap<u64> = OrderedMap::new();
    let mut model = std::collections::BTreeMap::new();
    let mut seed: u64 = 12345;
    for _ in 0..500 {
        seed = seed.wrapping_mul(6364136223846793005).wrapping_add(1442695040888963407);
        let key = format!("k{}", (seed >> 33) % 97);
        map.insert(key.clone(), seed);
        model.insert(key, seed);
    }
    assert_eq!(map.len(), model.len());
    for (i, (key, value)) in model.iter().enumerate() {
        assert_eq!(map.key_at(i), key);
        assert_eq!(map.value_at(i), value);
        assert_eq!(map.get(key), Some(value));
    }
}
