use authsrv::kv::KvStore;

#[test]
fn test_insert_if_absent_once() {
    let mut store = KvStore::new();
    let key = String::from("k");
    let first = String::from("first");
    let second = String::from("second");

    assert!(store.insert_if_absent(&key, &first, 0));
    assert!(!store.insert_if_absent(&key, &second, 0));
    assert_eq!(store.get(&key, 1000).as_deref(), Some("first"));
}

#[test]
fn test_get_absent() {
    let store = KvStore::new();
    assert!(store.get(&String::from("missing"), 0).is_none());
}

#[test]
fn test_set_with_expiry_window() {
    let mut store = KvStore::new();
    let key = String::from("k");
    let value = String::from("v");

    store.set_with_expiry(&key, &value, 60);
    assert_eq!(store.get(&key, 0).as_deref(), Some("v"));
    assert_eq!(store.get(&key, 59).as_deref(), Some("v"));
    assert!(store.get(&key, 60).is_none());
    assert!(store.get(&key, 61).is_none());
}

#[test]
fn test_set_with_expiry_replaces() {
    let mut store = KvStore::new();
    let key = String::from("k");

    store.set_with_expiry(&key, &String::from("old"), 100);
    store.set_with_expiry(&key, &String::from("new"), 200);
    assert_eq!(store.get(&key, 150).as_deref(), Some("new"));
}

#[test]
fn test_insert_after_expiry_succeeds() {
    let mut store = KvStore::new();
    let key = String::from("k");

    store.set_with_expiry(&key, &String::from("gone"), 10);
    assert!(store.insert_if_absent(&key, &String::from("back"), 10));
    assert_eq!(store.get(&key, 1_000_000).as_deref(), Some("back"));
}
