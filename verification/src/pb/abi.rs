use vstd::prelude::*;

pub mod command_request;
pub mod value;

verus! {

/// A command sent by a client.
#[derive(Debug, Clone, PartialEq, PartialOrd)]
pub struct CommandRequest {
    pub request_data: Option<command_request::RequestData>,
}

/// The server's answer to a command.
#[derive(Debug, Clone, PartialEq, PartialOrd)]
pub struct CommandResponse {
    /// HTTP-style status: 200, 400, 404 or 500.
    pub status: u32,
    /// The error text when the status is not 200.
    pub message: String,
    /// The values a successful command returns.
    pub values: Vec<Value>,
    /// The pairs a successful table scan returns.
    pub kvpairs: Vec<Kvpair>,
}

/// Read one key of a table.
#[derive(Debug, Clone, PartialEq, Eq, PartialOrd)]
pub struct Hget {
    pub table: String,
    pub key: String,
}

/// Read several keys of a table.
#[derive(Debug, Clone, PartialEq, Eq, PartialOrd)]
pub struct Hmget {
    pub table: String,
    pub keys: Vec<String>,
}

/// Read a whole table.
#[derive(Debug, Clone, PartialEq, Eq, PartialOrd)]
pub struct Hgetall {
    pub table: String,
}

/// Write one pair into a table.
#[derive(Debug, Clone, PartialEq, PartialOrd)]
pub struct Hset {
    pub table: String,
    pub pair: Option<Kvpair>,
}

/// Write several pairs into a table.
#[derive(Debug, Clone, PartialEq, PartialOrd)]
pub struct Hmset {
    pub table: String,
    pub pairs: Vec<Kvpair>,
}

/// Delete one key of a table.
#[derive(Debug, Clone, PartialEq, Eq, PartialOrd)]
pub struct Hdel {
    pub table: String,
    pub key: String,
}

/// Delete several keys of a table.
#[derive(Debug, Clone, PartialEq, Eq, PartialOrd)]
pub struct Hmdel {
    pub table: String,
    pub keys: Vec<String>,
}

/// Ask whether a key exists in a table.
#[derive(Debug, Clone, PartialEq, Eq, PartialOrd)]
pub struct Hexist {
    pub table: String,
    pub key: String,
}

/// Ask whether each of several keys exists in a table.
#[derive(Debug, Clone, PartialEq, Eq, PartialOrd)]
pub struct Hmexist {
    pub table: String,
    pub keys: Vec<String>,
}

/// Subscribe to a topic.
#[derive(Debug, Clone, PartialEq, Eq, PartialOrd)]
pub struct Subscribe {
    pub topic: String,
}

/// End a topic subscription.
#[derive(Debug, Clone, PartialEq, Eq, PartialOrd)]
pub struct Unsubscribe {
    pub topic: String,
    pub id: u32,
}

/// Subscribe to every topic a glob pattern matches.
#[derive(Debug, Clone, PartialEq, Eq, PartialOrd)]
pub struct PSubscribe {
    pub pattern: String,
}

/// End a pattern subscription.
#[derive(Debug, Clone, PartialEq, Eq, PartialOrd)]
pub struct PUnsubscribe {
    pub pattern: String,
    pub id: u32,
}

/// Publish values to a topic.
#[derive(Debug, Clone, PartialEq, PartialOrd)]
pub struct Publish {
    pub topic: String,
    pub value: Vec<Value>,
}

/// A stored value; `value` is `None` for the null value.
#[derive(Debug, Clone, PartialEq, PartialOrd)]
pub struct Value {
    pub value: Option<value::Value>,
}

/// A key with its value.
#[derive(Debug, Clone, PartialEq, PartialOrd)]
pub struct Kvpair {
    pub key: String,
    pub value: Option<Value>,
}

} // verus!
