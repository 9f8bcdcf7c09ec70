use simple_kv::shell::{
    hdel, hexist, hget, hgetall, hmdel, hmexist, hmget, hmset, hset, psubscribe, publish,
    subscribe,
};
use simple_kv::{CommandRequest, KvError, Kvpair};

fn words(line: &str) -> Vec<String> {
    line.split_whitespace().map(|w| w.to_string()).collect()
}

fn usage(text: &str) -> Result<CommandRequest, KvError> {
    Err(KvError::InvalidCommand(text.to_string()))
}

#[test]
fn lines_become_requests() {
    assert_eq!(hget(&words("HGET t1 k1")), Ok(CommandRequest::new_hget("t1", "k1")));
    assert_eq!(hget(&words("HGET t1 k1 more")), Ok(CommandRequest::new_hget("t1", "k1")));
    assert_eq!(
        hmget(&words("HMGET t1 k1 k2")),
        Ok(CommandRequest::new_hmget("t1", vec!["k1".into(), "k2".into()]))
    );
    assert_eq!(hmget(&words("HMGET t1")), Ok(CommandRequest::new_hmget("t1", vec![])));
    assert_eq!(hgetall(&words("HGETALL t1")), Ok(CommandRequest::new_hgetall("t1")));
    assert_eq!(hset(&words("HSET t1 k1 v1")), Ok(CommandRequest::new_hset("t1", "k1", "v1".into())));
    assert_eq!(
        hmset(&words("HMSET t1 k1 v1 k2 v2")),
        Ok(CommandRequest::new_hmset(
            "t1",
            vec![Kvpair::new("k1", "v1".into()), Kvpair::new("k2", "v2".into())]
        ))
    );
    assert_eq!(hmset(&words("HMSET t1")), Ok(CommandRequest::new_hmset("t1", vec![])));
    assert_eq!(hdel(&words("HDEL t1 k1")), Ok(CommandRequest::new_hdel("t1", "k1")));
    assert_eq!(
        hmdel(&words("HMDEL t1 k1 k2 k3")),
        Ok(CommandRequest::new_hmdel("t1", vec!["k1".into(), "k2".into(), "k3".into()]))
    );
    assert_eq!(hexist(&words("HEXIST t1 k1")), Ok(CommandRequest::new_hexist("t1", "k1")));
    assert_eq!(
        hmexist(&words("HMEXIST t1 k1")),
        Ok(CommandRequest::new_hmexist("t1", vec!["k1".into()]))
    );
    assert_eq!(subscribe(&words("SUBSCRIBE lobby")), Ok(CommandRequest::new_subscribe("lobby")));
    assert_eq!(
        psubscribe(&words("PSUBSCRIBE chat.*")),
        Ok(CommandRequest::new_psubscribe("chat.*"))
    );
    assert_eq!(
        publish(&words("PUBLISH lobby hello")),
        Ok(CommandRequest::new_publish("lobby", vec!["hello".into()]))
    );
}

#[test]
fn short_lines_show_the_usage() {
    assert_eq!(hget(&words("HGET t1")), usage("Usage: HGET <table> <key>"));
    assert_eq!(hget(&words("HGET")), usage("Usage: HGET <table> <key>"));
    assert_eq!(hmget(&words("HMGET")), usage("Usage: HMGET <table> <key1> <key2> ... <keyN>"));
    assert_eq!(hgetall(&words("HGETALL")), usage("Usage: HGETALL <table>"));
    assert_eq!(hset(&words("HSET t1 k1")), usage("Usage: HSET <table> <key> <value>"));
    assert_eq!(
        hmset(&words("HMSET")),
        usage("Usage: HMSET <table> <key1> <value1> ... <keyN> <valueN>")
    );
    assert_eq!(
        hmset(&words("HMSET t1 k1")),
        usage("The keys' number doesn't match to the values")
    );
    assert_eq!(
        hmset(&words("HMSET t1 k1 v1 k2")),
        usage("The keys' number doesn't match to the values")
    );
    assert_eq!(hdel(&words("HDEL t1")), usage("Usage: HDEL <table> <key>"));
    assert_eq!(hmdel(&words("HMDEL")), usage("Usage: HDEL <table> <key>"));
    assert_eq!(hexist(&words("HEXIST t1")), usage("Usage: HEXIST <table> <key>"));
    assert_eq!(
        hmexist(&words("HMEXIST")),
        usage("Usage: HMEXIST <table> <key1> <key2> ... <keyN>")
    );
    assert_eq!(subscribe(&words("SUBSCRIBE")), usage("Usage: SUBSCRIBE <channel> "));
    assert_eq!(psubscribe(&words("PSUBSCRIBE")), usage("Usage: PSUBSCRIBE <pattern> "));
    assert_eq!(publish(&words("PUBLISH lobby")), usage("Usage: PUBLISH <channel> <message>"));
    assert_eq!(hget(&vec![]), usage("Usage: HGET <table> <key>"));
}
