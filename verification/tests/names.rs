use soundboard_engine::names::NameMap;

#[test]
fn empty_name_map() {
    let map: NameMap<u8> = NameMap::new();
    assert_eq!(map.len(), 0);
    assert!(!map.contains("a"));
    assert!(map.get("a").is_none());
}

#[test]
fn insert_absent_keeps_the_first_value() {
    let mut map = NameMap::new();
    assert_eq!(map.insert_absent("a".to_string(), 1), None);
    assert_eq!(map.insert_absent("b".to_string(), 2), None);
    assert_eq!(map.insert_absent("a".to_string(), 3), Some(3));
    assert_eq!(map.len(), 2);
    assert_eq!(map.get("a"), Some(&1));
    assert_eq!(map.get("b"), Some(&2));
    assert!(map.contains("b"));
    assert!(!map.contains("c"));
}

#[test]
fn remove_takes_the_value_out() {
    let mut map = NameMap::new();
    map.insert_absent("a".to_string(), 1);
    map.insert_absent("b".to_string(), 2);
    assert_eq!(map.remove("a"), Some(1));
    assert_eq!(map.remove("a"), None);
    assert_eq!(map.len(), 1);
    assert_eq!(map.get("b"), Some(&2));
    assert_eq!(map.insert_absent("a".to_string(), 5), None);
    assert_eq!(map.get("a"), Some(&5));
}

#[test]
fn retain_only_keeps_one_name() {
    let mut map = NameMap::new();
    map.insert_absent("a".to_string(), 1);
    map.insert_absent("b".to_string(), 2);
    map.insert_absent("c".to_string(), 3);
    map.retain_only("b");
    assert_eq!(map.len(), 1);
    assert_eq!(map.get("b"), Some(&2));
    assert!(map.get("a").is_none());
    map.retain_only("a");
    assert_eq!(map.len(), 0);
}
