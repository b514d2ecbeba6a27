use llm_call::string_map::StringMap;

#[test]
fn entries_are_found_and_replaced() {
    let mut map: StringMap<u32> = StringMap::new();
    assert!(map.is_empty());
    map.insert("b".to_string(), 2);
    map.insert("a".to_string(), 1);
    map.insert("c".to_string(), 3);
    map.insert("b".to_string(), 20);
    assert_eq!(map.len(), 3);
    assert_eq!(map.get("a"), Some(&1));
    assert_eq!(map.get("b"), Some(&20));
    assert_eq!(map.get("d"), None);
    assert_eq!((map.key_at(0), map.key_at(1), map.key_at(2)), ("a", "b", "c"));
    assert_eq!(*map.value_at(1), 20);
}

#[test]
fn entries_leave() {
    let mut map: StringMap<u32> = StringMap::new();
    map.insert("b".to_string(), 2);
    map.insert("a".to_string(), 1);
    assert_eq!(map.remove("x"), None);
    assert_eq!(map.remove("a"), Some(1));
    assert_eq!(map.remove("a"), None);
    assert_eq!(map.len(), 1);
    assert_eq!(map.get("b"), Some(&2));
}

#[test]
fn copies_are_separate() {
    let mut map: StringMap<u32> = StringMap::new();
    map.insert("b".to_string(), 2);
    let copy = map.copied();
    map.insert("b".to_string(), 3);
    assert_eq!(copy.get("b"), Some(&2));
    assert_eq!(map.get("b"), Some(&3));
}
