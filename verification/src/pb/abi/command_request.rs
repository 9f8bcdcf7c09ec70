use vstd::prelude::*;
use super::{
    Hdel, Hexist, Hget, Hgetall, Hmdel, Hmexist, Hmget, Hmset, Hset, PSubscribe, PUnsubscribe,
    Publish, Subscribe, Unsubscribe,
};

verus! {

/// The command a request carries.
#[derive(Debug, Clone, PartialEq, PartialOrd)]
pub enum RequestData {
    Hget(Hget),
    Hmget(Hmget),
    Hgetall(Hgetall),
    Hset(Hset),
    Hmset(Hmset),
    Hdel(Hdel),
    Hmdel(Hmdel),
    Hexist(Hexist),
    Hmexist(Hmexist),
    Subscribe(Subscribe),
    Unsubscribe(Unsubscribe),
    Publish(Publish),
    Psubscribe(PSubscribe),
    Punsubscribe(PUnsubscribe),
}

} // verus!
