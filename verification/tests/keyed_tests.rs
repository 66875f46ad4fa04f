use nvim_mcp::keyed::KeyedStore;

#[test]
fn keyed_store_reads_back_writes() {
    let mut store: KeyedStore<u32> = KeyedStore::new();
    assert!(store.is_empty());
    assert_eq!(store.insert("a".to_string(), 1), None);
    assert_eq!(store.insert("b".to_string(), 2), None);
    assert_eq!(store.get("a"), Some(&1));
    assert_eq!(store.insert("a".to_string(), 3), Some(1));
    assert_eq!(store.get("a"), Some(&3));
    assert_eq!(store.len(), 2);
    assert!(store.contains_key("b"));
    assert_eq!(store.remove("b"), Some(2));
    assert_eq!(store.remove("b"), None);
    assert!(!store.contains_key("b"));
    assert_eq!(store.get("zz"), None);
    assert_eq!(store.keys(), vec!["a".to_string()]);
    assert!(!store.is_empty());
}

#[test]
fn keyed_store_lists_keys_by_latest_storing() {
    let mut store: KeyedStore<u32> = KeyedStore::new();
    store.insert("a".to_string(), 1);
    store.insert("b".to_string(), 2);
    store.insert("c".to_string(), 3);
    assert_eq!(store.keys(), vec!["a".to_string(), "b".to_string(), "c".to_string()]);
    store.insert("a".to_string(), 4);
    assert_eq!(store.keys(), vec!["b".to_string(), "c".to_string(), "a".to_string()]);
    store.remove("c");
    assert_eq!(store.keys(), vec!["b".to_string(), "a".to_string()]);
}
