use teonite::code_map::CodeMap;

#[test]
fn new_map_is_empty() {
    let map: CodeMap<u32> = CodeMap::new();
    assert!(map.is_empty());
    assert_eq!(map.len(), 0);
    assert_eq!(map.get("EUR"), None);
    assert!(!map.contains_key("EUR"));
    assert!(map.codes().is_empty());
}

#[test]
fn insert_adds_a_code() {
    let mut map: CodeMap<u32> = CodeMap::new();
    map.insert("EUR".to_string(), 92);
    map.insert("PLN".to_string(), 401);
    assert!(!map.is_empty());
    assert_eq!(map.len(), 2);
    assert_eq!(map.get("EUR"), Some(&92));
    assert_eq!(map.get("PLN"), Some(&401));
    assert_eq!(map.get("USD"), None);
    assert!(map.contains_key("PLN"));
    assert!(!map.contains_key("PL"));
    assert_eq!(map.codes(), vec!["EUR".to_string(), "PLN".to_string()]);
    assert_eq!(map.entry(1), &("PLN".to_string(), 401));
}

#[test]
fn insert_replaces_the_value_of_a_held_code() {
    let mut map: CodeMap<u32> = CodeMap::new();
    map.insert("EUR".to_string(), 92);
    map.insert("PLN".to_string(), 401);
    map.insert("EUR".to_string(), 93);
    assert_eq!(map.len(), 2);
    assert_eq!(map.get("EUR"), Some(&93));
    assert_eq!(map.get("PLN"), Some(&401));
    assert_eq!(map.codes(), vec!["EUR".to_string(), "PLN".to_string()]);
}

#[test]
fn entries_go_in_and_come_out() {
    let entries = vec![
        ("EUR".to_string(), 1u32),
        ("PLN".to_string(), 2),
        ("EUR".to_string(), 3),
    ];
    let map = CodeMap::from_entries(entries);
    assert_eq!(map.len(), 2);
    assert_eq!(map.get("EUR"), Some(&3));
    assert_eq!(map.into_entries(), vec![("EUR".to_string(), 3u32), ("PLN".to_string(), 2)]);
}
