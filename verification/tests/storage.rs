use simple_kv::{KvError, Kvpair, MemTable, Storage, StorageIter, Value};

fn basic_interfaces_should_work(mut store: impl Storage) {
    let v = store.set("t1", "k1".into(), "v1".into()).unwrap();
    assert!(v.is_none());

    let v = store.set("t1", "k1".into(), "v2".into()).unwrap();
    assert_eq!(v, Some("v1".into()));

    let v = store.get("t1", "k1").unwrap();
    assert_eq!(v, Some("v2".into()));

    let v = store.get("t2", "k1").unwrap();
    assert!(v.is_none());

    let v = store.get("t1", "k2").unwrap();
    assert!(v.is_none());

    assert_eq!(store.contains("t1", "k1"), Ok(true));
    assert_eq!(store.contains("t1", "k3"), Ok(false));
    assert_eq!(store.contains("t3", "k1"), Ok(false));

    let v = store.del("t1", "k1").unwrap();
    assert_eq!(v, Some("v2".into()));
    assert_eq!(store.contains("t1", "k1"), Ok(false));

    let v = store.del("t2", "k1").unwrap();
    assert!(v.is_none());

    let v = store.del("t1", "k2").unwrap();
    assert!(v.is_none());
}

fn get_all_should_work(mut store: impl Storage) {
    store.set("t1", "k1".into(), "v1".into()).unwrap();
    store.set("t1", "k2".into(), "v2".into()).unwrap();
    let mut data: Vec<_> = store.get_all("t1").unwrap();
    data.sort_by(|a, b| a.partial_cmp(b).unwrap());
    assert_eq!(
        data,
        vec![Kvpair::new("k1", "v1".into()), Kvpair::new("k2", "v2".into())]
    );
}

fn get_iter_should_work(mut store: impl Storage) {
    store.set("t1", "k1".into(), "v1".into()).unwrap();
    store.set("t1", "k2".into(), "v2".into()).unwrap();
    let mut iter = store.get_iter("t1").unwrap();
    let mut data: Vec<Kvpair> = Vec::new();
    while let Some(pair) = iter.next() {
        data.push(pair);
    }
    data.sort_by(|a, b| a.partial_cmp(b).unwrap());
    assert_eq!(
        data,
        vec![Kvpair::new("k1", "v1".into()), Kvpair::new("k2", "v2".into())]
    );
}

#[test]
fn memtable_basic_interfaces_should_work() {
    let store = MemTable::new();
    basic_interfaces_should_work(store);
}

#[test]
fn memtable_get_all_should_work() {
    let store = MemTable::new();
    get_all_should_work(store);
}

#[test]
fn memtable_get_iter_should_work() {
    let store = MemTable::new();
    get_iter_should_work(store);
}

#[test]
fn storage_iter_hands_out_items_in_order() {
    let items = vec![
        ("a".to_string(), Value::from(1i64)),
        ("b".to_string(), Value::from(2i64)),
        ("c".to_string(), Value::default()),
    ];
    let mut iter = StorageIter::new(items);
    assert_eq!(iter.next(), Some(Kvpair::new("a", 1i64.into())));
    assert_eq!(iter.next(), Some(Kvpair::new("b", 2i64.into())));
    assert_eq!(iter.next(), Some(Kvpair::new("c", Value::default())));
    assert_eq!(iter.next(), None);
    assert_eq!(iter.next(), None);
    let mut empty: StorageIter<(String, Value)> = StorageIter::new(vec![]);
    assert_eq!(empty.next(), None);
}

#[test]
fn snapshot_is_detached_from_the_store() {
    let mut store = MemTable::new();
    store.set("t", "k".into(), "old".into()).unwrap();
    let mut iter = store.get_iter("t").unwrap();
    store.set("t", "k".into(), "new".into()).unwrap();
    store.set("t", "k2".into(), "more".into()).unwrap();
    assert_eq!(iter.next(), Some(Kvpair::new("k", "old".into())));
    assert_eq!(iter.next(), None);
    assert_eq!(store.get("t", "k"), Ok(Some("new".into())));
}

#[test]
fn tables_do_not_share_keys() {
    let mut store = MemTable::default();
    store.set("a", "k".into(), 1i64.into()).unwrap();
    store.set("b", "k".into(), 2i64.into()).unwrap();
    assert_eq!(store.get("a", "k"), Ok(Some(1i64.into())));
    assert_eq!(store.get("b", "k"), Ok(Some(2i64.into())));
    assert_eq!(store.del("a", "k"), Ok(Some(1i64.into())));
    assert_eq!(store.get("b", "k"), Ok(Some(2i64.into())));
    assert_eq!(store.get_all("a"), Ok::<Vec<Kvpair>, KvError>(vec![]));
    assert_eq!(store.get_all("never"), Ok::<Vec<Kvpair>, KvError>(vec![]));
}
