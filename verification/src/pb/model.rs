use vstd::prelude::*;
use super::abi::command_request::RequestData;
use super::abi::value;
use super::abi::{CommandRequest, CommandResponse, Kvpair, Value};

verus! {

/// What a [`Value`] stands for.
pub enum ValueModel {
    Null,
    String(Seq<char>),
    Binary(Seq<u8>),
    Integer(i64),
    /// The IEEE-754 bit pattern of a double.
    Float(u64),
    Bool(bool),
}

/// What a [`Kvpair`] stands for.
pub struct PairModel {
    pub key: Seq<char>,
    pub value: Option<ValueModel>,
}

/// What a [`CommandRequest`] stands for.
pub enum RequestModel {
    /// A request that carries no command.
    Empty,
    Hget { table: Seq<char>, key: Seq<char> },
    Hmget { table: Seq<char>, keys: Seq<Seq<char>> },
    Hgetall { table: Seq<char> },
    Hset { table: Seq<char>, pair: Option<PairModel> },
    Hmset { table: Seq<char>, pairs: Seq<PairModel> },
    Hdel { table: Seq<char>, key: Seq<char> },
    Hmdel { table: Seq<char>, keys: Seq<Seq<char>> },
    Hexist { table: Seq<char>, key: Seq<char> },
    Hmexist { table: Seq<char>, keys: Seq<Seq<char>> },
    Subscribe { topic: Seq<char> },
    Unsubscribe { topic: Seq<char>, id: u32 },
    Publish { topic: Seq<char>, values: Seq<ValueModel> },
    Psubscribe { pattern: Seq<char> },
    Punsubscribe { pattern: Seq<char>, id: u32 },
}

/// What a [`CommandResponse`] stands for.
pub struct ResponseModel {
    pub status: u32,
    pub message: Seq<char>,
    pub values: Seq<ValueModel>,
    pub kvpairs: Seq<PairModel>,
}

impl View for Value {
    type V = ValueModel;

    open spec fn view(&self) -> ValueModel {
        match self.value {
            None => ValueModel::Null,
            Some(value::Value::String(s)) => ValueModel::String(s@),
            Some(value::Value::Binary(b)) => ValueModel::Binary(b@),
            Some(value::Value::Integer(i)) => ValueModel::Integer(i),
            Some(value::Value::Float(f)) => ValueModel::Float(f),
            Some(value::Value::Bool(b)) => ValueModel::Bool(b),
        }
    }
}

impl View for Kvpair {
    type V = PairModel;

    open spec fn view(&self) -> PairModel {
        PairModel {
            key: self.key@,
            value: match self.value {
                None => None,
                Some(v) => Some(v@),
            },
        }
    }
}

/// The texts a sequence of strings holds.
pub open spec fn texts(s: Seq<String>) -> Seq<Seq<char>> {
    Seq::new(s.len(), |i: int| s[i]@)
}

/// The values a sequence of [`Value`]s stands for.
pub open spec fn value_models(s: Seq<Value>) -> Seq<ValueModel> {
    Seq::new(s.len(), |i: int| s[i]@)
}

/// The pairs a sequence of [`Kvpair`]s stands for.
pub open spec fn pair_models(s: Seq<Kvpair>) -> Seq<PairModel> {
    Seq::new(s.len(), |i: int| s[i]@)
}

impl View for RequestData {
    type V = RequestModel;

    open spec fn view(&self) -> RequestModel {
        match self {
            RequestData::Hget(c) => RequestModel::Hget { table: c.table@, key: c.key@ },
            RequestData::Hmget(c) => RequestModel::Hmget { table: c.table@, keys: texts(c.keys@) },
            RequestData::Hgetall(c) => RequestModel::Hgetall { table: c.table@ },
            RequestData::Hset(c) => RequestModel::Hset {
                table: c.table@,
                pair: match c.pair {
                    None => None,
                    Some(p) => Some(p@),
                },
            },
            RequestData::Hmset(c) => RequestModel::Hmset {
                table: c.table@,
                pairs: pair_models(c.pairs@),
            },
            RequestData::Hdel(c) => RequestModel::Hdel { table: c.table@, key: c.key@ },
            RequestData::Hmdel(c) => RequestModel::Hmdel { table: c.table@, keys: texts(c.keys@) },
            RequestData::Hexist(c) => RequestModel::Hexist { table: c.table@, key: c.key@ },
            RequestData::Hmexist(c) => RequestModel::Hmexist {
                table: c.table@,
                keys: texts(c.keys@),
            },
            RequestData::Subscribe(c) => RequestModel::Subscribe { topic: c.topic@ },
            RequestData::Unsubscribe(c) => RequestModel::Unsubscribe { topic: c.topic@, id: c.id },
            RequestData::Publish(c) => RequestModel::Publish {
                topic: c.topic@,
                values: value_models(c.value@),
            },
            RequestData::Psubscribe(c) => RequestModel::Psubscribe { pattern: c.pattern@ },
            RequestData::Punsubscribe(c) => RequestModel::Punsubscribe {
                pattern: c.pattern@,
                id: c.id,
            },
        }
    }
}

impl View for CommandRequest {
    type V = RequestModel;

    open spec fn view(&self) -> RequestModel {
        match self.request_data {
            None => RequestModel::Empty,
            Some(d) => d@,
        }
    }
}

impl View for CommandResponse {
    type V = ResponseModel;

    open spec fn view(&self) -> ResponseModel {
        ResponseModel {
            status: self.status,
            message: self.message@,
            values: value_models(self.values@),
            kvpairs: pair_models(self.kvpairs@),
        }
    }
}

impl RequestModel {
    /// Whether the command is served by the broker rather than by storage.
    pub open spec fn is_streaming(&self) -> bool {
        match self {
            RequestModel::Subscribe { .. } => true,
            RequestModel::Unsubscribe { .. } => true,
            RequestModel::Publish { .. } => true,
            RequestModel::Psubscribe { .. } => true,
            RequestModel::Punsubscribe { .. } => true,
            _ => false,
        }
    }
}

impl ResponseModel {
    /// The response with status 0 and nothing else set.
    pub open spec fn empty() -> ResponseModel {
        ResponseModel { status: 0, message: Seq::empty(), values: Seq::empty(), kvpairs: Seq::empty() }
    }

    /// A successful response carrying `values`.
    pub open spec fn of_values(values: Seq<ValueModel>) -> ResponseModel {
        ResponseModel { status: 200, message: Seq::empty(), values, kvpairs: Seq::empty() }
    }

    /// A successful response carrying `kvpairs`.
    pub open spec fn of_pairs(kvpairs: Seq<PairModel>) -> ResponseModel {
        ResponseModel { status: 200, message: Seq::empty(), values: Seq::empty(), kvpairs }
    }

    /// The response that reports a failure with the given status and text.
    pub open spec fn of_error(status: u32, message: Seq<char>) -> ResponseModel {
        ResponseModel { status, message, values: Seq::empty(), kvpairs: Seq::empty() }
    }
}

} // verus!
