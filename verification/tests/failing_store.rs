use simple_kv::{
    dispatch, CommandRequest, KvError, Kvpair, MemTable, Storage, StorageIter, Value,
};

/// A store that fails on every key that starts with `bad`, and holds the rest
/// in memory.
struct Flaky {
    inner: MemTable,
}

fn failure(op: &str, table: &str, key: &str) -> KvError {
    KvError::StorageError(op.into(), table.into(), key.into(), "the disk is gone".into())
}

impl Storage for Flaky {
    fn get(&self, table: &str, key: &str) -> Result<Option<Value>, KvError> {
        if key.starts_with("bad") {
            return Err(failure("get", table, key));
        }
        self.inner.get(table, key)
    }

    fn set(&mut self, table: &str, key: String, value: Value) -> Result<Option<Value>, KvError> {
        if key.starts_with("bad") {
            return Err(failure("set", table, &key));
        }
        self.inner.set(table, key, value)
    }

    fn del(&mut self, table: &str, key: &str) -> Result<Option<Value>, KvError> {
        if key.starts_with("bad") {
            return Err(failure("del", table, key));
        }
        self.inner.del(table, key)
    }

    fn contains(&self, table: &str, key: &str) -> Result<bool, KvError> {
        if key.starts_with("bad") {
            return Err(failure("contains", table, key));
        }
        self.inner.contains(table, key)
    }

    fn get_all(&self, table: &str) -> Result<Vec<Kvpair>, KvError> {
        if table.starts_with("bad") {
            return Err(failure("get_all", table, ""));
        }
        self.inner.get_all(table)
    }

    fn get_iter(&self, table: &str) -> Result<StorageIter<(String, Value)>, KvError> {
        self.inner.get_iter(table)
    }
}

fn store() -> Flaky {
    let mut store = Flaky { inner: MemTable::new() };
    store.set("t", "k1".into(), "v1".into()).unwrap();
    store.set("t", "k2".into(), "v2".into()).unwrap();
    store
}

#[test]
fn a_failing_store_answers_one_key_with_its_error() {
    let mut store = store();
    for cmd in [
        CommandRequest::new_hget("t", "bad"),
        CommandRequest::new_hset("t", "bad", "v".into()),
        CommandRequest::new_hdel("t", "bad"),
        CommandRequest::new_hexist("t", "bad"),
        CommandRequest::new_hgetall("bad"),
    ] {
        let res = dispatch(cmd, &mut store);
        assert_eq!(res.status, 500);
        assert!(res.message.starts_with("Cannot process command "));
        assert!(res.message.ends_with("Error: the disk is gone"));
        assert!(res.values.is_empty() && res.kvpairs.is_empty());
    }
    // what went well before is still there
    assert_eq!(store.get("t", "k1"), Ok(Some("v1".into())));
    assert_eq!(dispatch(CommandRequest::new_hget("t", "k1"), &mut store).status, 200);
    assert_eq!(dispatch(CommandRequest::new_hget("t", "none"), &mut store).status, 404);
}

#[test]
fn a_failing_store_leaves_null_in_the_slot_of_the_key_it_failed_on() {
    let mut store = store();
    let keys = vec!["k1".to_string(), "bad".to_string(), "none".to_string(), "k2".to_string()];
    let res = dispatch(CommandRequest::new_hmget("t", keys.clone()), &mut store);
    assert_eq!(res.status, 200);
    assert_eq!(res.values, vec!["v1".into(), Value::default(), Value::default(), "v2".into()]);

    let res = dispatch(CommandRequest::new_hmexist("t", keys.clone()), &mut store);
    assert_eq!(res.status, 200);
    assert_eq!(res.values, vec![true.into(), Value::default(), false.into(), true.into()]);

    let pairs = vec![
        Kvpair::new("k1", "w1".into()),
        Kvpair::new("bad", "w".into()),
        Kvpair::new("k1", "w2".into()),
        Kvpair::new("k3", "w3".into()),
    ];
    let res = dispatch(CommandRequest::new_hmset("t", pairs), &mut store);
    assert_eq!(res.status, 200);
    assert_eq!(res.values, vec!["v1".into(), Value::default(), "w1".into(), Value::default()]);
    assert_eq!(store.get("t", "k1"), Ok(Some("w2".into())));
    assert_eq!(store.get("t", "k3"), Ok(Some("w3".into())));
    assert_eq!(store.inner.contains("t", "bad"), Ok(false));

    let res = dispatch(CommandRequest::new_hmdel("t", keys), &mut store);
    assert_eq!(res.status, 200);
    assert_eq!(res.values, vec!["w2".into(), Value::default(), Value::default(), "v2".into()]);
    assert_eq!(store.inner.contains("t", "k1"), Ok(false));
    assert_eq!(store.get("t", "k3"), Ok(Some("w3".into())));
}
