use livestack_shared::systems::str_map::StrMap;

#[test]
fn an_empty_map_holds_no_key() {
    let map: StrMap<u32> = StrMap::new();
    assert_eq!(map.len(), 0);
    assert!(!map.contains_key("a"));
    assert_eq!(map.get("a"), None);
}

#[test]
fn insert_writes_and_overwrites() {
    let mut map: StrMap<u32> = StrMap::new();
    map.insert("a".to_string(), 1);
    map.insert("b".to_string(), 2);
    assert_eq!(map.get("a"), Some(&1));
    assert_eq!(map.get("b"), Some(&2));
    assert_eq!(map.len(), 2);
    map.insert("a".to_string(), 3);
    assert_eq!(map.get("a"), Some(&3));
    assert_eq!(map.get("b"), Some(&2));
    assert_eq!(map.len(), 2);
    assert!(map.contains_key("a"));
    assert!(!map.contains_key("c"));
}

#[test]
fn entries_keep_their_places() {
    let mut map: StrMap<String> = StrMap::new();
    map.insert("k1".to_string(), "v1".to_string());
    map.insert("k2".to_string(), "v2".to_string());
    map.insert("k1".to_string(), "v3".to_string());
    assert_eq!(map.key_at(0), "k1");
    assert_eq!(map.value_at(0), "v3");
    assert_eq!(map.key_at(1), "k2");
    assert_eq!(map.value_at(1), "v2");
}

#[test]
fn values_are_those_of_the_map() {
    let mut map: StrMap<u32> = StrMap::new();
    map.insert("a".to_string(), 7);
    map.insert("b".to_string(), 9);
    map.insert("a".to_string(), 8);
    assert_eq!(map.values(), vec![8, 9]);
}
