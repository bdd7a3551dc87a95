use double_map::kv_store::KeyValueStore;

#[test]
fn absent_key_reads_as_the_default() {
    let store: KeyValueStore<u64, u32> = KeyValueStore::new();
    assert!(!store.contains(&1));
    assert_eq!(store.get(&1), None);
    assert_eq!(store.get_or(&1, 0), 0);
    assert_eq!(store.get_or(&1, 42), 42);
}

#[test]
fn put_hands_back_the_former_value() {
    let mut store: KeyValueStore<u64, u32> = KeyValueStore::new();
    assert_eq!(store.put(1, 3), None);
    assert_eq!(store.put(1, 4), Some(3));
    assert!(store.contains(&1));
    assert_eq!(store.get(&1), Some(&4));
    assert_eq!(store.get_or(&1, 0), 4);
    assert!(!store.contains(&2));
}

#[test]
fn remove_takes_the_value_out() {
    let mut store: KeyValueStore<u64, u32> = KeyValueStore::new();
    assert_eq!(store.put(1, 3), None);
    assert_eq!(store.put(2, 7), None);
    assert_eq!(store.remove(&1), Some(3));
    assert_eq!(store.remove(&1), None);
    assert!(!store.contains(&1));
    assert_eq!(store.get_or(&1, 0), 0);
    assert_eq!(store.get(&2), Some(&7));
}

#[test]
fn a_copy_keeps_its_entries() {
    let mut store: KeyValueStore<u64, u32> = KeyValueStore::new();
    assert_eq!(store.put(1, 3), None);
    let copy = store.clone();
    assert_eq!(copy, store);
    assert_eq!(store.remove(&1), Some(3));
    assert_eq!(copy.get(&1), Some(&3));
}
