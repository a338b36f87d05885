use mediacore::store::ObjectStore;

#[test]
fn put_then_get_yields_the_bytes() {
    let mut store = ObjectStore::new();
    store.put("a/b.png".to_string(), vec![1, 2, 3], "image/png".to_string());
    let o = store.get("a/b.png").unwrap();
    assert_eq!(o.bytes, vec![1, 2, 3]);
    assert_eq!(o.mime, "image/png");
    assert!(store.get("a/c.png").is_none());
}

#[test]
fn put_overwrites_same_key() {
    let mut store = ObjectStore::new();
    store.put("k".to_string(), vec![1], "a/x".to_string());
    store.put("k".to_string(), vec![2, 2], "a/y".to_string());
    let o = store.get("k").unwrap();
    assert_eq!(o.bytes, vec![2, 2]);
    assert_eq!(o.mime, "a/y");
    assert_eq!(store.objects.len(), 1);
}

#[test]
fn ensure_bucket_twice_is_idempotent_and_keeps_policy() {
    let mut store = ObjectStore::new();
    assert!(!store.head_bucket());
    store.put("k".to_string(), vec![9], "m".to_string());
    store.ensure_bucket();
    assert!(store.head_bucket());
    assert!(store.public_read_policy);
    let objects_before = store.objects.len();
    store.ensure_bucket();
    assert!(store.head_bucket());
    assert!(store.public_read_policy);
    assert_eq!(store.objects.len(), objects_before);
    assert_eq!(store.get("k").unwrap().bytes, vec![9]);
}

#[test]
fn delete_is_best_effort() {
    let mut store = ObjectStore::new();
    store.put("k1".to_string(), vec![1], "m".to_string());
    store.put("k2".to_string(), vec![2], "m".to_string());
    store.delete("k1");
    assert!(store.get("k1").is_none());
    assert_eq!(store.get("k2").unwrap().bytes, vec![2]);
    store.delete("missing");
    assert_eq!(store.get("k2").unwrap().bytes, vec![2]);
}
