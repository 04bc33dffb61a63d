use connect::text_map::TextMap;

#[test]
fn empty_map_has_nothing() {
    let map: TextMap<u32> = TextMap::new();
    assert!(map.is_empty());
    assert_eq!(map.len(), 0);
    assert_eq!(map.get("a"), None);
    assert!(!map.contains_key("a"));
    assert!(map.keys().is_empty());
}

#[test]
fn insert_adds_or_replaces() {
    let mut map: TextMap<u32> = TextMap::new();
    assert_eq!(map.insert("a".to_string(), 1), None);
    assert_eq!(map.insert("b".to_string(), 2), None);
    assert_eq!(map.insert("a".to_string(), 3), Some(1));
    assert_eq!(map.len(), 2);
    assert_eq!(map.get("a"), Some(&3));
    assert_eq!(map.get("b"), Some(&2));
    assert_eq!(map.get("A"), None);
    assert!(map.contains_key("b"));
    let mut keys = map.keys();
    keys.sort();
    assert_eq!(keys, vec!["a".to_string(), "b".to_string()]);
}

#[test]
fn remove_takes_one_key_out() {
    let mut map: TextMap<u32> = TextMap::new();
    map.insert("a".to_string(), 1);
    map.insert("b".to_string(), 2);
    map.insert("c".to_string(), 3);
    assert_eq!(map.remove("b"), Some(2));
    assert_eq!(map.remove("b"), None);
    assert_eq!(map.len(), 2);
    assert_eq!(map.get("a"), Some(&1));
    assert_eq!(map.get("c"), Some(&3));
    assert!(!map.is_empty());
}

#[test]
fn clear_drops_everything() {
    let mut map: TextMap<u32> = TextMap::new();
    map.insert("a".to_string(), 1);
    map.insert("".to_string(), 2);
    assert_eq!(map.get(""), Some(&2));
    map.clear();
    assert!(map.is_empty());
    assert_eq!(map.get("a"), None);
    assert_eq!(map.insert("a".to_string(), 5), None);
}
