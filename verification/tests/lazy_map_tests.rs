use lazy_map::Key;
use lazy_map::LazyMap;
use lazy_map::MemStorage;
use lazy_map::StorageRead;
use lazy_map::StorageWrite;
use lazy_map::StoreError;
use lazy_map::TaggedKey;
use lazy_map::DATA_SUBKEY;

fn test_map() -> (LazyMap<String, u64>, MemStorage) {
    let root = Key::new("app").push("balances");
    (LazyMap::new(root), MemStorage::new())
}

fn element_key(name: &str) -> Key {
    Key::new("app").push("balances").push(DATA_SUBKEY).push(name)
}

#[test]
fn insert_then_get_round_trip() {
    let (map, mut storage) = test_map();
    assert_eq!(map.insert(&mut storage, "alice".to_string(), 7), Ok(None));
    assert_eq!(map.get(&storage, &"alice".to_string()), Ok(Some(7)));
}

#[test]
fn insert_returns_previous_value() {
    let (map, mut storage) = test_map();
    assert_eq!(map.insert(&mut storage, "k".to_string(), 1), Ok(None));
    assert_eq!(map.insert(&mut storage, "k".to_string(), 2), Ok(Some(1)));
    assert_eq!(map.insert(&mut storage, "k".to_string(), 3), Ok(Some(2)));
    assert_eq!(map.get(&storage, &"k".to_string()), Ok(Some(3)));
}

#[test]
fn remove_present_key_returns_value_and_clears() {
    let (map, mut storage) = test_map();
    assert_eq!(map.insert(&mut storage, "k".to_string(), 5), Ok(None));
    assert_eq!(map.remove(&mut storage, &"k".to_string()), Ok(Some(5)));
    assert_eq!(map.get(&storage, &"k".to_string()), Ok(None));
}

#[test]
fn remove_absent_key_is_a_no_op() {
    let (map, mut storage) = test_map();
    assert_eq!(map.insert(&mut storage, "other".to_string(), 9), Ok(None));
    assert_eq!(map.remove(&mut storage, &"missing".to_string()), Ok(None));
    assert_eq!(map.get(&storage, &"other".to_string()), Ok(Some(9)));
}

#[test]
fn keys_with_equal_string_form_collide() {
    let root = Key::new("app").push("balances");
    let map: LazyMap<TaggedKey, u64> = LazyMap::new(root);
    let mut storage = MemStorage::new();
    let k1 = TaggedKey { name: "x".to_string(), tag: 1 };
    let k2 = TaggedKey { name: "x".to_string(), tag: 2 };
    assert_eq!(map.insert(&mut storage, k1, 10), Ok(None));
    let k2_again = TaggedKey { name: "x".to_string(), tag: 2 };
    assert_eq!(map.insert(&mut storage, k2, 20), Ok(Some(10)));
    let k1_again = TaggedKey { name: "x".to_string(), tag: 1 };
    assert_eq!(map.get(&storage, &k1_again), Ok(Some(20)));
    assert_eq!(map.get(&storage, &k2_again), Ok(Some(20)));
}

#[test]
fn iteration_yields_each_stored_value_once() {
    let (map, mut storage) = test_map();
    assert_eq!(map.insert(&mut storage, "a".to_string(), 1), Ok(None));
    assert_eq!(map.insert(&mut storage, "b".to_string(), 2), Ok(None));
    assert_eq!(map.insert(&mut storage, "c".to_string(), 3), Ok(None));
    let mut cursor = map.iter(&storage).unwrap();
    let mut values: Vec<u64> = Vec::new();
    while let Some(item) = map.next_value(&storage, &mut cursor) {
        values.push(item.unwrap());
    }
    values.sort();
    assert_eq!(values, vec![1, 2, 3]);
}

#[test]
fn iteration_of_empty_map_yields_nothing() {
    let (map, storage) = test_map();
    let mut cursor = map.iter(&storage).unwrap();
    assert_eq!(map.next_value(&storage, &mut cursor), None);
    assert_eq!(map.next_value(&storage, &mut cursor), None);
}

#[test]
fn corrupt_entry_fails_alone_and_iteration_continues() {
    let (map, mut storage) = test_map();
    assert_eq!(map.insert(&mut storage, "a".to_string(), 1), Ok(None));
    assert_eq!(map.insert(&mut storage, "b".to_string(), 2), Ok(None));
    assert_eq!(map.insert(&mut storage, "c".to_string(), 3), Ok(None));
    // clobber b's stored bytes with something no u64 decodes from
    assert_eq!(storage.write(&element_key("b"), &[1, 2, 3]), Ok(()));

    let mut cursor = map.iter(&storage).unwrap();
    let mut ok_values: Vec<u64> = Vec::new();
    let mut decode_errors = 0;
    while let Some(item) = map.next_value(&storage, &mut cursor) {
        match item {
            Ok(v) => ok_values.push(v),
            Err(e) => {
                assert_eq!(e, StoreError::Decode);
                decode_errors += 1;
            }
        }
    }
    ok_values.sort();
    assert_eq!(ok_values, vec![1, 3]);
    assert_eq!(decode_errors, 1);

    // the intact entries stay individually retrievable
    assert_eq!(map.get(&storage, &"a".to_string()), Ok(Some(1)));
    assert_eq!(map.get(&storage, &"c".to_string()), Ok(Some(3)));
    assert_eq!(map.get(&storage, &"b".to_string()), Err(StoreError::Decode));
}

#[test]
fn insert_over_corrupt_entry_propagates_decode_error_and_writes_nothing() {
    let (map, mut storage) = test_map();
    assert_eq!(storage.write(&element_key("alice"), &[1, 2, 3]), Ok(()));
    assert_eq!(
        map.insert(&mut storage, "alice".to_string(), 5),
        Err(StoreError::Decode)
    );
    // the failed insert wrote nothing: the corrupt bytes are still there
    let raw = storage.read(&element_key("alice")).unwrap().unwrap();
    assert_eq!(raw, vec![1, 2, 3]);
}

#[test]
fn remove_of_corrupt_entry_propagates_decode_error_and_deletes_nothing() {
    let (map, mut storage) = test_map();
    assert_eq!(storage.write(&element_key("alice"), &[1, 2, 3]), Ok(()));
    assert_eq!(
        map.remove(&mut storage, &"alice".to_string()),
        Err(StoreError::Decode)
    );
    assert_eq!(
        storage.read(&element_key("alice")),
        Ok(Some(vec![1, 2, 3]))
    );
}

#[test]
fn scenario_two_accounts() {
    let (map, mut storage) = test_map();
    assert_eq!(map.insert(&mut storage, "alice".to_string(), 10), Ok(None));
    assert_eq!(map.insert(&mut storage, "bob".to_string(), 20), Ok(None));
    assert_eq!(map.get(&storage, &"alice".to_string()), Ok(Some(10)));
    assert_eq!(map.insert(&mut storage, "alice".to_string(), 99), Ok(Some(10)));
    assert_eq!(map.get(&storage, &"alice".to_string()), Ok(Some(99)));
    assert_eq!(map.remove(&mut storage, &"bob".to_string()), Ok(Some(20)));

    let mut cursor = map.iter(&storage).unwrap();
    assert_eq!(map.next_value(&storage, &mut cursor), Some(Ok(99)));
    assert_eq!(map.next_value(&storage, &mut cursor), None);
}

#[test]
fn two_maps_on_one_root_observe_one_collection() {
    let mut storage = MemStorage::new();
    let first: LazyMap<String, u64> = LazyMap::new(Key::new("shared").push("m"));
    let second: LazyMap<String, u64> = LazyMap::new(Key::new("shared").push("m"));
    assert_eq!(first.insert(&mut storage, "k".to_string(), 4), Ok(None));
    assert_eq!(second.get(&storage, &"k".to_string()), Ok(Some(4)));
    assert_eq!(second.remove(&mut storage, &"k".to_string()), Ok(Some(4)));
    assert_eq!(first.get(&storage, &"k".to_string()), Ok(None));
}

#[test]
fn values_are_stored_as_borsh_bytes() {
    let (map, mut storage) = test_map();
    assert_eq!(map.insert(&mut storage, "alice".to_string(), 513), Ok(None));
    let raw = storage.read(&element_key("alice")).unwrap().unwrap();
    assert_eq!(raw, borsh::to_vec(&513u64).unwrap());
    assert_eq!(raw, vec![1, 2, 0, 0, 0, 0, 0, 0]);
}

#[test]
fn borsh_bytes_written_raw_decode_through_get() {
    let (map, mut storage) = test_map();
    let bytes = borsh::to_vec(&77u64).unwrap();
    assert_eq!(storage.write(&element_key("alice"), &bytes), Ok(()));
    assert_eq!(map.get(&storage, &"alice".to_string()), Ok(Some(77)));
}

#[test]
fn element_keys_live_under_the_data_prefix() {
    let root = Key::new("app").push("balances");
    let data_prefix = root.push(DATA_SUBKEY);
    let ek = element_key("alice");
    assert!(ek.has_prefix(&data_prefix));
    assert!(ek.has_prefix(&root));
    assert!(!ek.has_prefix(&Key::new("elsewhere")));
    assert!(!data_prefix.has_prefix(&ek));
    assert_eq!(ek, data_prefix.push("alice"));
    assert_ne!(ek, data_prefix.push("bob"));
}

#[test]
fn entries_outside_the_data_prefix_are_not_iterated() {
    let (map, mut storage) = test_map();
    assert_eq!(map.insert(&mut storage, "a".to_string(), 1), Ok(None));
    // a sibling entry under the root, outside the data subtree
    let stray = Key::new("app").push("balances").push("meta");
    assert_eq!(storage.write(&stray, &[9, 9]), Ok(()));

    let mut cursor = map.iter(&storage).unwrap();
    assert_eq!(map.next_value(&storage, &mut cursor), Some(Ok(1)));
    assert_eq!(map.next_value(&storage, &mut cursor), None);
}
