use simple_kv::{
    dispatch, CommandRequest, CommandResponse, CommandService, Hset, KvError, Kvpair, MemTable,
    Storage, Value,
};

fn assert_res_ok(res: &CommandResponse, values: &[Value], pairs: &[Kvpair]) {
    let mut sorted_pairs = res.kvpairs.clone();
    sorted_pairs.sort_by(|a, b| a.partial_cmp(b).unwrap());
    assert_eq!(res.status, 200);
    assert_eq!(res.message, "");
    assert_eq!(res.values, values);
    assert_eq!(sorted_pairs, pairs);
}

fn assert_res_error(res: &CommandResponse, code: u32, msg: &str) {
    assert_eq!(res.status, code);
    assert!(res.message.contains(msg));
    assert_eq!(res.values, &[]);
    assert_eq!(res.kvpairs, &[]);
}

fn set_key_pairs<T: Into<Value>>(table: &str, pairs: Vec<(&str, T)>, store: &mut impl Storage) {
    for (k, v) in pairs {
        dispatch(CommandRequest::new_hset(table, k, v.into()), store);
    }
}

#[test]
fn hget_should_work() {
    let mut store = MemTable::new();
    let cmd = CommandRequest::new_hset("t1", "k1", "v1".into());
    dispatch(cmd, &mut store);
    let cmd = CommandRequest::new_hget("t1", "k1");
    let res = dispatch(cmd, &mut store);
    assert_res_ok(&res, &["v1".into()], &[]);
}

#[test]
fn hget_with_non_exist_key_should_return_404() {
    let mut store = MemTable::new();
    let cmd = CommandRequest::new_hget("t1", "hello");
    let res = dispatch(cmd, &mut store);
    assert_res_error(&res, 404, "Not found")
}

#[test]
fn hmget_should_work() {
    let mut store = MemTable::new();
    let cmd = CommandRequest::new_hset("t1", "k1", "v1".into());
    dispatch(cmd, &mut store);
    let cmd = CommandRequest::new_hset("t1", "k2", "v2".into());
    dispatch(cmd, &mut store);
    let cmd = CommandRequest::new_hmget("t1", vec!["k1".to_string(), "k2".to_string()]);
    let res = dispatch(cmd, &mut store);
    assert_res_ok(&res, &["v1".into(), "v2".into()], &[]);
}

#[test]
fn hget_all_should_work() {
    let mut store = MemTable::new();
    let cmds = vec![
        CommandRequest::new_hset("score", "u1", 10.into()),
        CommandRequest::new_hset("score", "u2", 8.into()),
        CommandRequest::new_hset("score", "u3", 11.into()),
        CommandRequest::new_hset("score", "u1", 6.into()),
    ];
    for cmd in cmds {
        dispatch(cmd, &mut store);
    }
    let cmd = CommandRequest::new_hgetall("score");
    let res = dispatch(cmd, &mut store);
    let pairs = &[
        Kvpair::new("u1", 6.into()),
        Kvpair::new("u2", 8.into()),
        Kvpair::new("u3", 11.into()),
    ];
    assert_res_ok(&res, &[], pairs);
}

#[test]
fn hset_should_work() {
    let mut store = MemTable::new();
    let cmd = CommandRequest::new_hset("score", "hello", "world".into());
    let res = dispatch(cmd.clone(), &mut store);
    assert_res_ok(&res, &[Value::default()], &[]);
    let res = dispatch(cmd, &mut store);
    assert_res_ok(&res, &["world".into()], &[])
}

#[test]
fn hmset_should_work() {
    let mut store = MemTable::new();
    set_key_pairs("t1", vec![("u1", "world")], &mut store);
    let pairs = vec![
        Kvpair::new("u1", Value::from_f64_bits(10.1f64.to_bits())),
        Kvpair::new("u2", Value::from_f64_bits(8.1f64.to_bits())),
    ];
    let cmd = CommandRequest::new_hmset("t1", pairs);
    let res = dispatch(cmd, &mut store);
    assert_res_ok(&res, &["world".into(), Value::default()], &[]);
}

#[test]
fn hdel_should_work() {
    let mut store = MemTable::new();
    set_key_pairs("t1", vec![("u1", "v1")], &mut store);
    let cmd = CommandRequest::new_hdel("t1", "u2");
    let res = dispatch(cmd, &mut store);
    assert_res_ok(&res, &[Value::default()], &[]);

    let cmd = CommandRequest::new_hdel("t1", "u1");
    let res = dispatch(cmd, &mut store);
    assert_res_ok(&res, &["v1".into()], &[]);
}

#[test]
fn hmdel_should_work() {
    let mut store = MemTable::new();
    set_key_pairs("t1", vec![("u1", "v1"), ("u2", "v2")], &mut store);

    let cmd = CommandRequest::new_hmdel("t1", vec!["u1".into(), "u3".into()]);
    let res = dispatch(cmd, &mut store);
    assert_res_ok(&res, &["v1".into(), Value::default()], &[]);
}

#[test]
fn hexist_should_work() {
    let mut store = MemTable::new();
    set_key_pairs("t1", vec![("u1", "v1")], &mut store);
    let cmd = CommandRequest::new_hexist("t1", "u2");
    let res = dispatch(cmd, &mut store);
    assert_res_ok(&res, &[false.into()], &[]);

    let cmd = CommandRequest::new_hexist("t1", "u1");
    let res = dispatch(cmd, &mut store);
    assert_res_ok(&res, &[true.into()], &[]);
}

#[test]
fn hmexist_should_work() {
    let mut store = MemTable::new();
    set_key_pairs("t1", vec![("u1", "v1"), ("u2", "v2")], &mut store);

    let cmd = CommandRequest::new_hmexist("t1", vec!["u1".into(), "u3".into()]);
    let res = dispatch(cmd, &mut store);
    assert_res_ok(&res, &[true.into(), false.into()], &[]);
}

#[test]
fn hget_of_a_missing_key_names_table_and_key() {
    let mut store = MemTable::new();
    let res = dispatch(CommandRequest::new_hget("t1", "missing"), &mut store);
    assert_eq!(res.status, 404);
    assert_eq!(res.message, "Not found: t1:missing");
}

#[test]
fn hmget_of_missing_keys_gives_null_values() {
    let mut store = MemTable::new();
    set_key_pairs("t1", vec![("k2", "v2")], &mut store);
    let keys = vec!["k1".to_string(), "k2".to_string(), "k3".to_string()];
    let res = dispatch(CommandRequest::new_hmget("t1", keys), &mut store);
    assert_res_ok(&res, &[Value::default(), "v2".into(), Value::default()], &[]);
}

#[test]
fn request_without_data_is_a_bad_request() {
    let mut store = MemTable::new();
    let res = dispatch(CommandRequest::default(), &mut store);
    assert_eq!(res.status, 400);
    assert_eq!(res.message, "Cannot parse command: Request has no data");
    assert!(res.values.is_empty() && res.kvpairs.is_empty());
}

#[test]
fn hset_without_a_pair_is_a_bad_request() {
    let mut store = MemTable::new();
    let res = Hset { table: "t1".to_string(), pair: None }.execute(&mut store);
    assert_res_error(&res, 400, "Cannot parse command: ");
    assert_eq!(store.get_all("t1"), Ok(vec![]));
}

#[test]
fn hset_of_a_pair_without_a_value_stores_null() {
    let mut store = MemTable::new();
    let pair = Kvpair { key: "k".to_string(), value: None };
    let res = Hset { table: "t1".to_string(), pair: Some(pair) }.execute(&mut store);
    assert_res_ok(&res, &[Value::default()], &[]);
    assert_eq!(store.get("t1", "k"), Ok(Some(Value::default())));
    assert_eq!(store.contains("t1", "k"), Ok(true));
}

#[test]
fn hmset_sees_its_own_earlier_writes() {
    let mut store = MemTable::new();
    let pairs = vec![
        Kvpair::new("k", 1i64.into()),
        Kvpair::new("k", 2i64.into()),
        Kvpair::new("k", 3i64.into()),
    ];
    let res = dispatch(CommandRequest::new_hmset("t", pairs), &mut store);
    assert_res_ok(&res, &[Value::default(), 1i64.into(), 2i64.into()], &[]);
    assert_eq!(store.get("t", "k"), Ok(Some(3i64.into())));
}

#[test]
fn hmdel_sees_its_own_earlier_deletes() {
    let mut store = MemTable::new();
    set_key_pairs("t", vec![("k", "v")], &mut store);
    let res = dispatch(CommandRequest::new_hmdel("t", vec!["k".into(), "k".into()]), &mut store);
    assert_res_ok(&res, &["v".into(), Value::default()], &[]);
}

#[test]
fn broker_commands_are_not_for_the_store() {
    let mut store = MemTable::new();
    for cmd in [
        CommandRequest::new_subscribe("lobby"),
        CommandRequest::new_unsubscribe("lobby", 1),
        CommandRequest::new_publish("lobby", vec!["x".into()]),
        CommandRequest::new_psubscribe("chat.*"),
        CommandRequest::new_punsubscribe("chat.*", 1),
    ] {
        let res = dispatch(cmd, &mut store);
        assert_eq!(res, CommandResponse::default());
    }
}

#[test]
fn errors_become_responses_with_their_status() {
    let cases: Vec<(KvError, u32, &str)> = vec![
        (KvError::NotFound("x".into()), 404, "Not found: x"),
        (KvError::InvalidCommand("y".into()), 400, "Cannot parse command: y"),
        (KvError::ConvertError("v".into(), "Integer"), 500, "Cannot convert value v to Integer"),
        (
            KvError::StorageError("get".into(), "t".into(), "k".into(), "boom".into()),
            500,
            "Cannot process command get with table: t, key: k. Error: boom",
        ),
        (KvError::EncodeError, 500, "Failed to encode protobuf message"),
        (KvError::DecodeError, 500, "Failed to decode protobuf message"),
        (KvError::Internal("z".into()), 500, "Internal error: z"),
        (KvError::SledError("disk".into()), 500, "Failed to access sled db"),
        (KvError::FrameError, 500, "Frame is too large"),
        (KvError::IOError("eof".into()), 500, "I/O error"),
        (
            KvError::CertificateParseError("server", "cert"),
            500,
            "Certificate parse error: error to load server cert",
        ),
        (KvError::TlsError("alert".into()), 500, "TLS error"),
    ];
    for (error, status, message) in cases {
        assert_eq!(error.to_string(), message);
        let res = CommandResponse::from(error);
        assert_eq!(res.status, status);
        assert_eq!(res.message, message);
        assert!(res.values.is_empty() && res.kvpairs.is_empty());
    }
}

#[test]
fn integers_come_out_of_values_and_responses() {
    let v: Value = 42i64.into();
    assert_eq!(i64::try_from(&v), Ok(42));
    assert_eq!(i64::try_from(v.clone()), Ok(42));
    let text: Value = "42".into();
    assert!(matches!(i64::try_from(&text), Err(KvError::ConvertError(_, "Integer"))));
    let res: CommandResponse = v.into();
    assert_eq!(i64::try_from(&res), Ok(42));
    assert!(matches!(
        i64::try_from(&CommandResponse::ok()),
        Err(KvError::ConvertError(_, "CommandResponse"))
    ));
    let not_found = CommandResponse::from(KvError::NotFound("k".into()));
    assert!(matches!(
        i64::try_from(&not_found),
        Err(KvError::ConvertError(_, "CommandResponse"))
    ));
    let res: CommandResponse = text.into();
    assert!(matches!(i64::try_from(&res), Err(KvError::ConvertError(_, "Integer"))));
}

#[test]
fn values_come_out_of_their_bytes() {
    let values: Vec<Value> = vec![
        Value::default(),
        "héllo".into(),
        String::new().into(),
        vec![0u8, 255, 7].into(),
        0i64.into(),
        (-2i64).into(),
        Value::from_f64_bits(1.5f64.to_bits()),
        true.into(),
        false.into(),
    ];
    for v in values {
        let bytes: Vec<u8> = v.clone().try_into().unwrap();
        assert_eq!(Value::try_from(&bytes[..]), Ok(v));
    }
    assert_eq!(Vec::<u8>::try_from(Value::from(1i64)), Ok(vec![0x18, 0x01]));
    assert_eq!(Vec::<u8>::try_from(Value::from(-1i64)).unwrap().len(), 11);
    assert_eq!(Vec::<u8>::try_from(Value::from("ab")), Ok(vec![0x0a, 0x02, b'a', b'b']));
    assert_eq!(Vec::<u8>::try_from(Value::from(true)), Ok(vec![0x28, 0x01]));
    assert_eq!(
        Vec::<u8>::try_from(Value::from_f64_bits(1.0f64.to_bits())),
        Ok(vec![0x21, 0, 0, 0, 0, 0, 0, 0xf0, 0x3f])
    );
    assert_eq!(Value::try_from(&[0x0a, 0x02, 0xff, 0xfe][..]), Err(KvError::DecodeError));
    assert_eq!(Value::try_from(&[0x18][..]), Err(KvError::DecodeError));
}

#[test]
fn format_is_the_debug_rendering() {
    let five: Value = 5i64.into();
    assert_eq!(five.format(), format!("{:?}", five));
    assert_eq!(five.format(), "Value { value: Some(Integer(5)) }");
    assert_eq!(Value::default().format(), "Value { value: None }");
    assert_eq!(Value::from("a\"b").format(), "Value { value: Some(String(\"a\\\"b\")) }");
    assert_eq!(five.format(), Value::from(5i64).format());
    assert_ne!(five.format(), Value::from(6i64).format());

    let res: CommandResponse = five.clone().into();
    assert_eq!(res.format(), format!("{:?}", res));
    assert_eq!(
        res.format(),
        "CommandResponse { status: 200, message: \"\", values: [Value { value: Some(Integer(5)) }], kvpairs: [] }"
    );
    assert_ne!(res.format(), CommandResponse::ok().format());
    match i64::try_from(&Value::from("x")) {
        Err(KvError::ConvertError(text, "Integer")) => {
            assert_eq!(text, "Value { value: Some(String(\"x\")) }")
        }
        other => panic!("a convert error was expected, not {:?}", other),
    }
}
