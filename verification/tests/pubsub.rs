use glob::Pattern;
use simple_kv::service::topic_service::ended_subscription;
use simple_kv::{
    dispatch_stream, Broadcaster, CommandRequest, CommandResponse, KvError, Kvpair,
    StreamingResponse, Topic, Value,
};
use std::collections::{HashMap, HashSet};

/// A broker with the subscribers' channels, as a server keeps them: a channel
/// per subscription id, and the ids whose receiver was dropped.
struct Hub {
    broker: Broadcaster,
    channels: HashMap<u32, Vec<CommandResponse>>,
    dropped: HashSet<u32>,
}

impl Hub {
    fn new() -> Self {
        Hub { broker: Broadcaster::default(), channels: HashMap::new(), dropped: HashSet::new() }
    }

    fn opened(&mut self, id: u32) {
        let first: CommandResponse = Value::from(id as i64).into();
        self.channels.insert(id, vec![first]);
    }

    fn subscribe(&mut self, topic: &str) -> u32 {
        let id = self.broker.subscribe(topic.to_string());
        self.opened(id);
        id
    }

    fn psubscribe(&mut self, pattern: &str) -> u32 {
        let id = self.broker.psubscribe(pattern).unwrap();
        self.opened(id);
        id
    }

    fn send(&mut self, id: u32, message: &CommandResponse) -> bool {
        if self.dropped.contains(&id) {
            return false;
        }
        self.channels.get_mut(&id).unwrap().push(message.clone());
        true
    }

    fn deliver(&mut self, topic: &str, message: CommandResponse, targets: Vec<u32>) {
        let mut failed = vec![];
        for id in targets {
            if !self.send(id, &message) {
                failed.push(id);
            }
        }
        self.broker.prune_topic(topic, &failed);
        let mut failed = vec![];
        for (pattern, ids) in self.broker.pattern_deliveries(topic) {
            for id in ids {
                if !self.send(id, &message) {
                    failed.push((pattern.clone(), id));
                }
            }
        }
        self.broker.prune_patterns(&failed);
    }

    fn publish(&mut self, topic: &str, value: Value) {
        let targets = self.broker.publish(topic);
        self.deliver(topic, value.into(), targets);
    }

    fn received(&self, id: u32) -> &Vec<CommandResponse> {
        &self.channels[&id]
    }
}

fn assert_res_ok(res: &CommandResponse, values: &[Value], pairs: &[Kvpair]) {
    assert_eq!(res.status, 200);
    assert_eq!(res.message, "");
    assert_eq!(res.values, values);
    assert_eq!(res.kvpairs, pairs);
}

fn assert_res_error(res: &CommandResponse, code: u32, msg: &str) {
    assert_eq!(res.status, code);
    assert!(res.message.contains(msg));
    assert_eq!(res.values, &[]);
    assert_eq!(res.kvpairs, &[]);
}

fn first_id(out: StreamingResponse) -> i64 {
    match out {
        StreamingResponse::Subscription { id, first } => {
            let announced: i64 = (&first).try_into().unwrap();
            assert_eq!(announced, id as i64);
            announced
        }
        _ => panic!("a subscription was expected"),
    }
}

fn single(out: StreamingResponse) -> CommandResponse {
    match out {
        StreamingResponse::Once(res) => res,
        _ => panic!("a single response was expected"),
    }
}

#[test]
fn pub_sub_should_work() {
    let mut hub = Hub::new();
    let topic = "lobby";
    let s1 = hub.subscribe(topic);
    let s2 = hub.subscribe(topic);
    let v: Value = "hello".into();
    hub.publish(topic, v.clone());

    let id1: i64 = (&hub.received(s1)[0]).try_into().unwrap();
    let id2: i64 = (&hub.received(s2)[0]).try_into().unwrap();
    assert_ne!(id1, id2);

    let res1 = hub.received(s1)[1].clone();
    let res2 = hub.received(s2)[1].clone();
    assert_eq!(res1, res2);
    assert_res_ok(&res1, &[v.clone()], &[]);

    let result = hub.broker.unsubscribe(topic.to_string(), id1 as _).unwrap();
    assert_eq!(result, id1 as u32);

    let v: Value = "world".into();
    hub.publish(topic, v.clone());

    assert_eq!(hub.received(s1).len(), 2);
    assert_res_ok(&hub.received(s2)[2], &[v.clone()], &[]);
}

#[test]
fn pattern_pub_sub_should_work() {
    let mut hub = Hub::new();
    let s1 = hub.subscribe("chat.rust");
    let s2 = hub.subscribe("chat.exilir");
    let s3 = hub.subscribe("chat");
    let s4 = hub.psubscribe("chat.*");
    let id1: i64 = (&hub.received(s1)[0]).try_into().unwrap();
    let id2: i64 = (&hub.received(s2)[0]).try_into().unwrap();
    let id3: i64 = (&hub.received(s3)[0]).try_into().unwrap();
    let id4: i64 = (&hub.received(s4)[0]).try_into().unwrap();

    assert_ne!(id1, id2);
    assert_ne!(id2, id3);
    assert_ne!(id3, id4);
    let v1: Value = "chat.rust".into();
    let v2: Value = "chat.exilir".into();
    let v3: Value = "chat".into();

    hub.publish("chat.rust", v1.clone());
    hub.publish("chat.exilir", v2.clone());
    hub.publish("chat", v3.clone());

    assert_res_ok(&hub.received(s1)[1], &[v1.clone()], &[]);
    assert_res_ok(&hub.received(s2)[1], &[v2.clone()], &[]);
    assert_res_ok(&hub.received(s3)[1], &[v3.clone()], &[]);
    assert_res_ok(&hub.received(s4)[1], &[v1.clone()], &[]);
    assert_res_ok(&hub.received(s4)[2], &[v2.clone()], &[]);
    assert_eq!(hub.received(s4).len(), 3);

    hub.broker.punsubscribe("chat.*", id4 as _).unwrap();
    hub.publish("chat.exilir", v2.clone());

    assert_eq!(hub.received(s4).len(), 3);
    assert_res_ok(&hub.received(s2)[2], &[v2.clone()], &[]);
    assert_eq!(hub.received(s1).len(), 2);
    assert_eq!(hub.received(s3).len(), 2);
}

#[test]
fn dispatch_publish_should_work() {
    let mut topic = Broadcaster::default();
    let cmd = CommandRequest::new_publish("lobby", vec!["hello".into()]);
    match dispatch_stream(cmd, &mut topic) {
        StreamingResponse::Delivery { reply, topic, message, targets } => {
            assert_res_ok(&reply, &[], &[]);
            assert_eq!(topic, "lobby");
            assert_res_ok(&message, &["hello".into()], &[]);
            assert!(targets.is_empty());
        }
        _ => panic!("a delivery was expected"),
    }
}

#[test]
fn dispatch_subscribe_should_work() {
    let mut topic = Broadcaster::default();
    let cmd = CommandRequest::new_subscribe("lobby");
    let id = first_id(dispatch_stream(cmd, &mut topic));
    assert!(id > 0);
}

#[test]
fn dispatch_subscribe_abnormal_quit_should_be_removed_on_next_publish() {
    let mut hub = Hub::new();
    let id = {
        let cmd = CommandRequest::new_subscribe("lobby");
        let id = first_id(dispatch_stream(cmd, &mut hub.broker));
        hub.opened(id as u32);
        hub.dropped.insert(id as u32);
        id as u32
    };

    let cmd = CommandRequest::new_publish("lobby", vec!["hello".into()]);
    match dispatch_stream(cmd, &mut hub.broker) {
        StreamingResponse::Delivery { topic, message, targets, .. } => {
            assert_eq!(targets, vec![id]);
            hub.deliver(&topic, message, targets);
        }
        _ => panic!("a delivery was expected"),
    }

    let result = hub.broker.unsubscribe("lobby".into(), id);
    assert!(result.is_err());
    assert_eq!(result, Err(KvError::NotFound(format!("subscription {}", id))));
    assert!(hub.broker.publish("lobby").is_empty());
}

#[test]
fn dispatch_unsubscribe_should_work() {
    let mut topic = Broadcaster::default();
    let cmd = CommandRequest::new_subscribe("lobby");
    let id = first_id(dispatch_stream(cmd, &mut topic));

    let cmd = CommandRequest::new_unsubscribe("lobby", id as u32);
    let data = single(dispatch_stream(cmd, &mut topic));
    assert_res_ok(&data, &[], &[]);
}

#[test]
fn dispatch_unsubscribe_random_id_should_error() {
    let mut topic = Broadcaster::default();
    let cmd = CommandRequest::new_unsubscribe("lobby", 6543);
    let data = single(dispatch_stream(cmd, &mut topic));
    assert_res_error(&data, 404, "Not found: subscription 6543");
}

#[test]
fn subscription_ids_count_up_from_one() {
    let mut broker = Broadcaster::new();
    assert!(broker.has_free_id());
    assert_eq!(broker.subscribe("a".into()), 1);
    assert_eq!(broker.psubscribe("a*"), Ok(2));
    assert_eq!(broker.subscribe("a".into()), 3);
    assert_eq!(broker.unsubscribe("a".into(), 1), Ok(1));
    // an id that was given up is not handed out again
    assert_eq!(broker.subscribe("b".into()), 4);
    let mut targets = broker.publish("a");
    targets.sort();
    assert_eq!(targets, vec![3]);
}

#[test]
fn a_topic_leaves_with_its_last_subscriber() {
    let mut broker = Broadcaster::new();
    let a = broker.subscribe("t".into());
    let b = broker.subscribe("t".into());
    assert_eq!(broker.remove_subscription("t", a), Some(a));
    assert_eq!(broker.publish("t"), vec![b]);
    assert_eq!(broker.remove_subscription("t", a), None);
    assert_eq!(broker.remove_subscription("t", b), Some(b));
    assert!(broker.publish("t").is_empty());
    // the topic can be subscribed to afresh
    let c = broker.subscribe("t".into());
    assert_eq!(broker.publish("t"), vec![c]);

    let p = broker.psubscribe("t*").unwrap();
    let pattern = Pattern::new("t*").unwrap();
    assert_eq!(broker.matching_patterns("tea").len(), 1);
    assert_eq!(broker.pattern_subscribers(&pattern), vec![p]);
    assert_eq!(broker.remove_pattern(&pattern, p), Some(p));
    assert!(broker.matching_patterns("tea").is_empty());
    assert!(broker.pattern_subscribers(&pattern).is_empty());
}

#[test]
fn unsubscribe_under_another_topic_still_ends_the_subscription() {
    let mut broker = Broadcaster::new();
    let id = broker.subscribe("a".into());
    assert_eq!(broker.unsubscribe("b".into(), id), Ok(id));
    assert!(broker.publish("a").is_empty());
    assert_eq!(
        broker.unsubscribe("a".into(), id),
        Err(KvError::NotFound(format!("subscription {}", id)))
    );
}

#[test]
fn pattern_commands_report_what_is_wrong() {
    let mut broker = Broadcaster::new();
    assert_eq!(broker.psubscribe("a**b"), Err(KvError::InvalidCommand("a**b".into())));
    assert_eq!(broker.punsubscribe("a**b", 1), Err(KvError::InvalidCommand("a**b".into())));
    assert_eq!(broker.punsubscribe("chat.*", 77), Err(KvError::NotFound("pattern 77".into())));
    // nothing was handed out by the failed calls
    assert_eq!(broker.psubscribe("chat.?"), Ok(1));

    let res = single(dispatch_stream(CommandRequest::new_psubscribe("[z-a"), &mut broker));
    assert_res_error(&res, 400, "Cannot parse command: [z-a");
    let id = first_id(dispatch_stream(CommandRequest::new_psubscribe("chat.[ab]"), &mut broker));
    assert_eq!(id, 2);
    let res = single(dispatch_stream(CommandRequest::new_punsubscribe("chat.[ab]", 2), &mut broker));
    assert_res_ok(&res, &[], &[]);
    let res = single(dispatch_stream(CommandRequest::new_punsubscribe("chat.[ab]", 2), &mut broker));
    assert_res_error(&res, 404, "Not found: pattern 2");
}

#[test]
fn glob_patterns_select_topics() {
    let mut hub = Hub::new();
    let star = hub.psubscribe("chat.*");
    let mark = hub.psubscribe("chat.?");
    let class = hub.psubscribe("chat.[ab]");
    let not_class = hub.psubscribe("chat.[!ab]");
    for topic in ["chat.a", "chat.c", "chat.rust", "chat", "chat."] {
        hub.publish(topic, topic.into());
    }
    let got = |hub: &Hub, id: u32| -> Vec<Value> {
        hub.received(id)[1..].iter().map(|r| r.values[0].clone()).collect()
    };
    assert_eq!(got(&hub, star), vec!["chat.a".into(), "chat.c".into(), "chat.rust".into(), "chat.".into()]);
    assert_eq!(got(&hub, mark), vec![Value::from("chat.a"), "chat.c".into()]);
    assert_eq!(got(&hub, class), vec![Value::from("chat.a")]);
    assert_eq!(got(&hub, not_class), vec![Value::from("chat.c")]);
}

#[test]
fn a_subscriber_receives_what_is_published_in_order() {
    let mut hub = Hub::new();
    let id = hub.subscribe("news");
    let other = hub.subscribe("sport");
    let both = hub.psubscribe("*");
    let sent: Vec<i64> = (0..20).collect();
    for n in &sent {
        hub.publish("news", (*n).into());
        hub.publish("sport", (-*n).into());
    }
    let got: Vec<i64> = hub.received(id)[1..].iter().map(|r| (&r.values[0]).try_into().unwrap()).collect();
    assert_eq!(got, sent);
    let got: Vec<i64> = hub.received(other)[1..].iter().map(|r| (&r.values[0]).try_into().unwrap()).collect();
    assert_eq!(got, sent.iter().map(|n| -n).collect::<Vec<_>>());
    assert_eq!(hub.received(both).len(), 1 + 40);
}

#[test]
fn dropped_pattern_subscriber_is_pruned_on_the_next_publish() {
    let mut hub = Hub::new();
    let gone = hub.psubscribe("chat.*");
    let stays = hub.psubscribe("chat.*");
    hub.dropped.insert(gone);
    hub.publish("chat.rust", "one".into());
    let pattern = Pattern::new("chat.*").unwrap();
    assert_eq!(hub.broker.pattern_subscribers(&pattern), vec![stays]);
    assert_eq!(hub.broker.punsubscribe("chat.*", gone), Err(KvError::NotFound(format!("pattern {}", gone))));
    hub.publish("chat.rust", "two".into());
    assert_eq!(hub.received(stays).len(), 3);
    assert_eq!(hub.received(gone).len(), 1);
}

#[test]
fn matching_patterns_are_those_of_the_broker_that_match() {
    let mut broker = Broadcaster::new();
    for pattern in ["chat.*", "chat.?", "news.*", "*", "c[a-h]at.rust"] {
        broker.psubscribe(pattern).unwrap();
    }
    broker.psubscribe("chat.*").unwrap();
    let texts = |broker: &Broadcaster, topic: &str| -> Vec<String> {
        let mut found: Vec<String> = broker
            .matching_patterns(topic)
            .iter()
            .map(|p| Broadcaster::pattern_str(p).to_string())
            .collect();
        found.sort();
        found
    };
    assert_eq!(texts(&broker, "chat.rust"), vec!["*", "c[a-h]at.rust", "chat.*"]);
    assert_eq!(texts(&broker, "chat.r"), vec!["*", "chat.*", "chat.?"]);
    assert_eq!(texts(&broker, "news."), vec!["*", "news.*"]);
    assert_eq!(texts(&broker, "chat"), vec!["*"]);
    assert_eq!(texts(&broker, ""), vec!["*"]);
    assert!(texts(&Broadcaster::new(), "chat.rust").is_empty());
}

#[test]
fn pattern_deliveries_pair_each_matching_pattern_with_its_subscribers() {
    let mut broker = Broadcaster::new();
    let star_a = broker.psubscribe("chat.*").unwrap();
    let star_b = broker.psubscribe("chat.*").unwrap();
    let mark = broker.psubscribe("chat.?").unwrap();
    let news = broker.psubscribe("news.*").unwrap();
    broker.subscribe("chat.r".into());
    assert_eq!(broker.punsubscribe("news.*", news), Ok(news));

    let mut plan: Vec<(String, Vec<u32>)> = broker
        .pattern_deliveries("chat.r")
        .into_iter()
        .map(|(p, mut ids)| {
            ids.sort();
            (Broadcaster::pattern_str(&p).to_string(), ids)
        })
        .collect();
    plan.sort();
    assert_eq!(
        plan,
        vec![("chat.*".to_string(), vec![star_a, star_b]), ("chat.?".to_string(), vec![mark])]
    );
    assert_eq!(broker.pattern_deliveries("chat.rust").len(), 1);
    assert!(broker.pattern_deliveries("news.x").is_empty());
}

#[test]
fn only_a_successful_unsubscribe_closes_a_channel() {
    let mut broker = Broadcaster::new();
    let id = broker.subscribe("lobby".into());
    let cmd = CommandRequest::new_unsubscribe("lobby", id);
    let out = dispatch_stream(cmd.clone(), &mut broker);
    assert_eq!(ended_subscription(&cmd, &out), Some(id));
    let out = dispatch_stream(cmd.clone(), &mut broker);
    assert_eq!(ended_subscription(&cmd, &out), None);

    let p = broker.psubscribe("chat.*").unwrap();
    let cmd = CommandRequest::new_punsubscribe("chat.*", p);
    let out = dispatch_stream(cmd.clone(), &mut broker);
    assert_eq!(ended_subscription(&cmd, &out), Some(p));
    let bad = CommandRequest::new_punsubscribe("a**b", p);
    let out = dispatch_stream(bad.clone(), &mut broker);
    assert_eq!(ended_subscription(&bad, &out), None);

    let cmd = CommandRequest::new_publish("lobby", vec![]);
    let out = dispatch_stream(cmd.clone(), &mut broker);
    assert_eq!(ended_subscription(&cmd, &out), None);
    let cmd = CommandRequest::new_subscribe("lobby");
    let out = dispatch_stream(cmd.clone(), &mut broker);
    assert_eq!(ended_subscription(&cmd, &out), None);
}
