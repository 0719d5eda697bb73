use kprs_web_api::table::StrMap;

#[test]
fn table_inserts_replaces_and_removes() {
    let mut table: StrMap<u32> = StrMap::new();
    assert_eq!(table.len(), 0);
    table.insert("a".to_string(), 1);
    table.insert("b".to_string(), 2);
    table.insert("c".to_string(), 3);
    assert_eq!(table.len(), 3);
    assert_eq!(table.get(&"b".to_string()), Some(&2));
    table.insert("b".to_string(), 20);
    assert_eq!(table.len(), 3);
    assert_eq!(table.position(&"b".to_string()), Some(1));
    assert_eq!(table.key_at(1), "b");
    assert_eq!(*table.value_at(1), 20);
    assert_eq!(table.remove(&"a".to_string()), Some(1));
    assert_eq!(table.remove(&"a".to_string()), None);
    assert_eq!(table.len(), 2);
    assert_eq!(table.key_at(0), "b");
    assert_eq!(table.key_at(1), "c");
    assert!(table.contains_key(&"c".to_string()));
    assert!(!table.contains_key(&"a".to_string()));
    assert_eq!(table.get(&"a".to_string()), None);
    assert_eq!(table.position(&"zzz".to_string()), None);
}

#[test]
fn table_keys_are_compared_by_content() {
    let mut table: StrMap<&str> = StrMap::new();
    table.insert(String::from("käse"), "x");
    table.insert(String::from("Käse"), "y");
    table.insert(String::new(), "empty");
    assert_eq!(table.len(), 3);
    assert_eq!(table.get(&"käse".to_string()), Some(&"x"));
    assert_eq!(table.get(&"".to_string()), Some(&"empty"));
}
