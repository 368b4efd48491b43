use apus_core::store::KeyedStore;

#[test]
fn store_insert_get_replace_clear() {
    let mut s: KeyedStore<u32> = KeyedStore::new();
    assert_eq!(s.len(), 0);
    assert_eq!(s.get(&"a".to_string()), None);
    s.insert("a".to_string(), 1);
    s.insert("b".to_string(), 2);
    s.insert("a".to_string(), 3);
    assert_eq!(s.len(), 2);
    assert_eq!(s.get(&"a".to_string()), Some(&3));
    assert_eq!(s.get(&"b".to_string()), Some(&2));
    let names: Vec<&str> = s.entries().iter().map(|(k, _)| k.as_str()).collect();
    assert_eq!(names, vec!["a", "b"]);
    s.clear();
    assert_eq!(s.len(), 0);
    assert_eq!(s.get(&"b".to_string()), None);
}
