use qevy::string_map::StringMap;

#[test]
fn an_empty_map_holds_nothing() {
    let map: StringMap<u32> = StringMap::new();
    assert_eq!(map.get("a"), None);
    assert_eq!(map.get(""), None);
    assert!(!map.contains_key("a"));
}

#[test]
fn what_was_put_in_is_found() {
    let mut map: StringMap<u32> = StringMap::new();
    map.insert("a".to_string(), 1);
    map.insert("b".to_string(), 2);
    map.insert("".to_string(), 3);
    assert_eq!(map.get("a"), Some(&1));
    assert_eq!(map.get("b"), Some(&2));
    assert_eq!(map.get(""), Some(&3));
    assert_eq!(map.get("c"), None);
    assert_eq!(map.get("A"), None);
    assert!(map.contains_key("b"));
    assert!(!map.contains_key("ab"));
}

#[test]
fn a_later_entry_hides_an_earlier_one() {
    let mut map: StringMap<String> = StringMap::new();
    map.insert("classname".to_string(), "light".to_string());
    map.insert("origin".to_string(), "0 0 0".to_string());
    map.insert("classname".to_string(), "mover".to_string());
    assert_eq!(map.get("classname"), Some(&"mover".to_string()));
    assert_eq!(map.get("origin"), Some(&"0 0 0".to_string()));
    assert_eq!(
        map.entries(),
        &vec![
            ("classname".to_string(), "mover".to_string()),
            ("origin".to_string(), "0 0 0".to_string()),
        ]
    );
    let as_std: std::collections::BTreeMap<String, String> =
        map.entries().iter().cloned().collect();
    assert_eq!(as_std.get("classname"), Some(&"mover".to_string()));
    assert_eq!(as_std.len(), 2);
}

#[test]
fn no_key_is_kept_twice() {
    let mut map: StringMap<u32> = StringMap::new();
    for (round, key) in ["a", "b", "a", "c", "b", "a"].iter().enumerate() {
        map.insert(key.to_string(), round as u32);
    }
    assert_eq!(
        map.entries(),
        &vec![("a".to_string(), 5), ("b".to_string(), 4), ("c".to_string(), 3)]
    );
    assert_eq!(map.get("a"), Some(&5));
    assert_eq!(map.get("b"), Some(&4));
    assert_eq!(map.get("c"), Some(&3));
}
