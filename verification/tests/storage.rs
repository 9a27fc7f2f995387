use state_machine::storage::StorageMap;

#[test]
fn storage_starts_empty() {
    let store: StorageMap<String, u32> = StorageMap::new();
    assert_eq!(store.get(&"a".to_string()), None);
    assert!(!store.contains_key(&"a".to_string()));
}

#[test]
fn storage_keeps_one_value_per_key() {
    let mut store: StorageMap<String, u32> = StorageMap::new();
    store.insert("a".to_string(), 1);
    store.insert("b".to_string(), 2);
    store.insert("a".to_string(), 3);
    assert_eq!(store.get(&"a".to_string()), Some(&3));
    assert_eq!(store.get(&"b".to_string()), Some(&2));
    assert_eq!(store.remove(&"a".to_string()), Some(3));
    assert_eq!(store.get(&"a".to_string()), None);
    assert_eq!(store.remove(&"a".to_string()), None);
    assert!(store.contains_key(&"b".to_string()));
}

#[test]
fn storage_removes_only_the_named_key() {
    let mut store: StorageMap<&'static str, u32> = StorageMap::new();
    store.insert("a", 1);
    store.insert("b", 2);
    store.insert("c", 3);
    assert_eq!(store.remove(&"b"), Some(2));
    assert_eq!(store.get(&"a"), Some(&1));
    assert_eq!(store.get(&"b"), None);
    assert_eq!(store.get(&"c"), Some(&3));
    store.insert("b", 4);
    assert_eq!(store.get(&"b"), Some(&4));
}
