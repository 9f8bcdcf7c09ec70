use glob::Pattern;
use simple_kv::storage::disk::{get_full_key, get_table_prefix, key_of, pair_of};
use simple_kv::{Broadcaster, CommandResponse, KvError, Kvpair, StreamResult, Value};

#[test]
fn keys_on_disk_are_table_colon_key() {
    assert_eq!(get_table_prefix("t1"), b"t1:".to_vec());
    assert_eq!(get_full_key("t1", "k1"), b"t1:k1".to_vec());
    assert_eq!(get_full_key("", ""), b":".to_vec());
    assert_eq!(get_full_key("tä", "k:é"), "tä:k:é".as_bytes().to_vec());
}

#[test]
fn key_is_what_follows_the_prefix() {
    let prefix = get_table_prefix("t1");
    assert_eq!(key_of(&get_full_key("t1", "k1"), &prefix), Some("k1".to_string()));
    assert_eq!(key_of(&get_full_key("t1", ""), &prefix), Some(String::new()));
    assert_eq!(key_of(&get_full_key("t1", "a:b"), &prefix), Some("a:b".to_string()));
    assert_eq!(key_of(&get_full_key("t2", "k1"), &prefix), None);
    assert_eq!(key_of(b"t1", &prefix), None);
    assert_eq!(key_of(b"", &prefix), None);
    assert_eq!(key_of(b"t1:\xff", &prefix), None);
    assert_eq!(key_of(b"anything", b""), Some("anything".to_string()));
}

#[test]
fn entry_on_disk_becomes_a_pair() {
    let prefix = get_table_prefix("t1");
    let value: Vec<u8> = Value::from("v1").try_into().unwrap();
    assert_eq!(
        pair_of(&get_full_key("t1", "k1"), &prefix, &value),
        Ok(Kvpair::new("k1", "v1".into()))
    );
    assert!(matches!(
        pair_of(&get_full_key("t2", "k1"), &prefix, &value),
        Err(KvError::Internal(_))
    ));
    assert!(matches!(
        pair_of(&get_full_key("t1", "k1"), &prefix, &[0x08]),
        Err(KvError::Internal(_))
    ));
    assert_eq!(
        pair_of(&get_full_key("t1", "k1"), &prefix, &[]),
        Ok(Kvpair::new("k1", Value::default()))
    );
}

#[test]
fn subscription_takes_its_id_from_the_first_response() {
    let first: CommandResponse = Value::from(7i64).into();
    let result = StreamResult::new(Some(Ok(first)), "the rest").unwrap();
    assert_eq!(result.id, 7);
    assert_eq!(result.inner, "the rest");

    let big: CommandResponse = Value::from((1i64 << 32) + 5).into();
    assert_eq!(StreamResult::new(Some(Ok(big)), ()).unwrap().id, 5);
    let negative: CommandResponse = Value::from(-1i64).into();
    assert_eq!(StreamResult::new(Some(Ok(negative)), ()).unwrap().id, u32::MAX);
}

#[test]
fn anything_else_is_an_invalid_stream() {
    let invalid = |first: Option<Result<CommandResponse, KvError>>| match StreamResult::new(first, ()) {
        Err(KvError::Internal(why)) => why == "Invalid stream",
        _ => false,
    };
    assert!(invalid(None));
    assert!(invalid(Some(Err(KvError::FrameError))));
    assert!(invalid(Some(Ok(CommandResponse::ok()))));
    assert!(invalid(Some(Ok(CommandResponse::from(KvError::NotFound("x".into()))))));
    assert!(invalid(Some(Ok(Value::from("7").into()))));
    let mut created: CommandResponse = Value::from(7i64).into();
    created.status = 201;
    assert!(invalid(Some(Ok(created))));
}

#[test]
fn pattern_text_is_what_it_was_compiled_from() {
    let pattern = Pattern::new("chat.[ab]*").unwrap();
    assert_eq!(Broadcaster::pattern_str(&pattern), "chat.[ab]*");
}
