use vstd::prelude::*;

pub mod abi;
pub mod codec;
pub mod convert;
pub mod fields;
pub mod messages;
pub mod model;
pub mod records;
pub mod requests;
pub mod schema;
pub mod varint;
pub mod wire;

use abi::command_request::RequestData;
use abi::value;
use abi::{
    CommandRequest, CommandResponse, Hdel, Hexist, Hget, Hgetall, Hmdel, Hmexist, Hmget, Hmset,
    Hset, Kvpair, PSubscribe, PUnsubscribe, Publish, Subscribe, Unsubscribe, Value,
};
use model::{pair_models, texts, value_models, PairModel, RequestModel, ResponseModel, ValueModel};

verus! {

/// Status of a successful command.
pub const STATUS_OK: u32 = 200;

/// Status of a malformed command.
pub const STATUS_BAD_REQUEST: u32 = 400;

/// Status of a command that names something absent.
pub const STATUS_NOT_FOUND: u32 = 404;

/// Status of a command that failed inside the server.
pub const STATUS_INTERNAL_SERVER_ERROR: u32 = 500;

impl CommandRequest {
    pub fn new_hget(table: &str, key: &str) -> (r: Self)
        ensures
            r@ == (RequestModel::Hget { table: table@, key: key@ }),
    {
        Self {
            request_data: Some(
                RequestData::Hget(Hget { table: table.to_owned(), key: key.to_owned() }),
            ),
        }
    }

    pub fn new_hmget(table: &str, keys: Vec<String>) -> (r: Self)
        ensures
            r@ == (RequestModel::Hmget { table: table@, keys: texts(keys@) }),
    {
        Self { request_data: Some(RequestData::Hmget(Hmget { table: table.to_owned(), keys })) }
    }

    pub fn new_hgetall(table: &str) -> (r: Self)
        ensures
            r@ == (RequestModel::Hgetall { table: table@ }),
    {
        Self { request_data: Some(RequestData::Hgetall(Hgetall { table: table.to_owned() })) }
    }

    pub fn new_hset(table: &str, key: &str, value: Value) -> (r: Self)
        ensures
            r@ == (RequestModel::Hset {
                table: table@,
                pair: Some(PairModel { key: key@, value: Some(value@) }),
            }),
    {
        Self {
            request_data: Some(
                RequestData::Hset(
                    Hset { table: table.to_owned(), pair: Some(Kvpair::new(key, value)) },
                ),
            ),
        }
    }

    pub fn new_hmset(table: &str, pairs: Vec<Kvpair>) -> (r: Self)
        ensures
            r@ == (RequestModel::Hmset { table: table@, pairs: pair_models(pairs@) }),
    {
        Self { request_data: Some(RequestData::Hmset(Hmset { table: table.to_owned(), pairs })) }
    }

    pub fn new_hdel(table: &str, key: &str) -> (r: Self)
        ensures
            r@ == (RequestModel::Hdel { table: table@, key: key@ }),
    {
        Self {
            request_data: Some(
                RequestData::Hdel(Hdel { table: table.to_owned(), key: key.to_owned() }),
            ),
        }
    }

    pub fn new_hmdel(table: &str, keys: Vec<String>) -> (r: Self)
        ensures
            r@ == (RequestModel::Hmdel { table: table@, keys: texts(keys@) }),
    {
        Self { request_data: Some(RequestData::Hmdel(Hmdel { table: table.to_owned(), keys })) }
    }

    pub fn new_hexist(table: &str, key: &str) -> (r: Self)
        ensures
            r@ == (RequestModel::Hexist { table: table@, key: key@ }),
    {
        Self {
            request_data: Some(
                RequestData::Hexist(Hexist { table: table.to_owned(), key: key.to_owned() }),
            ),
        }
    }

    pub fn new_hmexist(table: &str, keys: Vec<String>) -> (r: Self)
        ensures
            r@ == (RequestModel::Hmexist { table: table@, keys: texts(keys@) }),
    {
        Self {
            request_data: Some(RequestData::Hmexist(Hmexist { table: table.to_owned(), keys })),
        }
    }

    pub fn new_subscribe(topic: &str) -> (r: Self)
        ensures
            r@ == (RequestModel::Subscribe { topic: topic@ }),
    {
        Self { request_data: Some(RequestData::Subscribe(Subscribe { topic: topic.to_owned() })) }
    }

    pub fn new_unsubscribe(topic: &str, id: u32) -> (r: Self)
        ensures
            r@ == (RequestModel::Unsubscribe { topic: topic@, id }),
    {
        Self {
            request_data: Some(
                RequestData::Unsubscribe(Unsubscribe { topic: topic.to_owned(), id }),
            ),
        }
    }

    pub fn new_publish(topic: &str, values: Vec<Value>) -> (r: Self)
        ensures
            r@ == (RequestModel::Publish { topic: topic@, values: value_models(values@) }),
    {
        Self {
            request_data: Some(
                RequestData::Publish(Publish { topic: topic.to_owned(), value: values }),
            ),
        }
    }

    pub fn new_psubscribe(pattern: &str) -> (r: Self)
        ensures
            r@ == (RequestModel::Psubscribe { pattern: pattern@ }),
    {
        Self {
            request_data: Some(
                RequestData::Psubscribe(PSubscribe { pattern: pattern.to_owned() }),
            ),
        }
    }

    pub fn new_punsubscribe(pattern: &str, id: u32) -> (r: Self)
        ensures
            r@ == (RequestModel::Punsubscribe { pattern: pattern@, id }),
    {
        Self {
            request_data: Some(
                RequestData::Punsubscribe(PUnsubscribe { pattern: pattern.to_owned(), id }),
            ),
        }
    }
}

impl Default for CommandRequest {
    fn default() -> (r: Self)
        ensures
            r@ == RequestModel::Empty,
    {
        Self { request_data: None }
    }
}

impl Default for Value {
    fn default() -> (r: Self)
        ensures
            r@ == ValueModel::Null,
    {
        Self { value: None }
    }
}

impl Default for CommandResponse {
    fn default() -> (r: Self)
        ensures
            r@ == ResponseModel::empty(),
    {
        let r = Self { status: 0, message: String::new(), values: Vec::new(), kvpairs: Vec::new() };
        assert(r@.values =~= Seq::empty());
        assert(r@.kvpairs =~= Seq::empty());
        r
    }
}

impl Kvpair {
    /// A pair of `key` and `value`.
    pub fn new(key: &str, value: Value) -> (r: Self)
        ensures
            r@ == (PairModel { key: key@, value: Some(value@) }),
    {
        Self { key: key.to_owned(), value: Some(value) }
    }
}

impl CommandResponse {
    /// A successful response with nothing in it.
    pub fn ok() -> (r: Self)
        ensures
            r@ == ResponseModel::of_values(Seq::empty()),
    {
        let r = Self {
            status: STATUS_OK,
            message: String::new(),
            values: Vec::new(),
            kvpairs: Vec::new(),
        };
        assert(r@.values =~= Seq::empty());
        assert(r@.kvpairs =~= Seq::empty());
        r
    }
}

} // verus!
