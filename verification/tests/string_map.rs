use omnihook::string_map::StringMap;

#[test]
fn string_map_keeps_order_and_replaces_in_place() {
    let mut map = StringMap::new();
    map.insert("a", "1");
    map.insert("b", "2");
    map.insert("a", "3");
    assert_eq!(map.entries(), &vec![("a".to_string(), "3".to_string()), ("b".to_string(), "2".to_string())]);
    assert!(map.contains_key("b"));
    assert!(!map.contains_key("c"));
    assert_eq!(map.get("c"), None);
    map.extend(&vec![("c".to_string(), "4".to_string()), ("b".to_string(), "5".to_string())]);
    assert_eq!(map.len(), 3);
    assert_eq!(map.get("b").unwrap(), "5");
}

#[test]
fn string_map_clone_keeps_entries() {
    let mut map = StringMap::new();
    map.insert("k", "v");
    map.insert("j", "w");
    let copy = map.clone();
    assert_eq!(copy.entries(), map.entries());
}
