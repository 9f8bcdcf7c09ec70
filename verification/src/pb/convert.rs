use vstd::prelude::*;
use vstd::std_specs::convert::FromSpecImpl;
use vstd::std_specs::convert::TryFromSpecImpl;

use super::abi::value;
use super::abi::{CommandResponse, Kvpair, Value};
use super::model::{pair_models, value_models, PairModel, ResponseModel, ValueModel};
use super::codec::{decode_value, encode_value, lemma_value_round_trip, value_parsed, value_wire};
use super::STATUS_OK;
use crate::error::KvError;

verus! {

impl From<String> for Value {
    fn from(s: String) -> (r: Self)
        ensures
            r@ == ValueModel::String(s@),
    {
        Self { value: Some(value::Value::String(s)) }
    }
}

impl FromSpecImpl<String> for Value {
    open spec fn obeys_from_spec() -> bool {
        true
    }

    open spec fn from_spec(s: String) -> Self {
        Value { value: Some(value::Value::String(s)) }
    }
}

impl From<&str> for Value {
    fn from(s: &str) -> (r: Self)
        ensures
            r@ == ValueModel::String(s@),
    {
        Self { value: Some(value::Value::String(s.to_owned())) }
    }
}

impl FromSpecImpl<&str> for Value {
    open spec fn obeys_from_spec() -> bool {
        false
    }

    open spec fn from_spec(s: &str) -> Self {
        Value { value: None }
    }
}

impl From<Vec<u8>> for Value {
    fn from(buf: Vec<u8>) -> (r: Self)
        ensures
            r@ == ValueModel::Binary(buf@),
    {
        Self { value: Some(value::Value::Binary(buf)) }
    }
}

impl FromSpecImpl<Vec<u8>> for Value {
    open spec fn obeys_from_spec() -> bool {
        true
    }

    open spec fn from_spec(buf: Vec<u8>) -> Self {
        Value { value: Some(value::Value::Binary(buf)) }
    }
}

impl From<i64> for Value {
    fn from(i: i64) -> (r: Self)
        ensures
            r@ == ValueModel::Integer(i),
    {
        Self { value: Some(value::Value::Integer(i)) }
    }
}

impl FromSpecImpl<i64> for Value {
    open spec fn obeys_from_spec() -> bool {
        true
    }

    open spec fn from_spec(i: i64) -> Self {
        Value { value: Some(value::Value::Integer(i)) }
    }
}

impl From<bool> for Value {
    fn from(b: bool) -> (r: Self)
        ensures
            r@ == ValueModel::Bool(b),
    {
        Self { value: Some(value::Value::Bool(b)) }
    }
}

impl FromSpecImpl<bool> for Value {
    open spec fn obeys_from_spec() -> bool {
        true
    }

    open spec fn from_spec(b: bool) -> Self {
        Value { value: Some(value::Value::Bool(b)) }
    }
}

impl Value {
    /// The double whose IEEE-754 bit pattern is `bits`.
    pub fn from_f64_bits(bits: u64) -> (r: Self)
        ensures
            r@ == ValueModel::Float(bits),
    {
        Self { value: Some(value::Value::Float(bits)) }
    }

    /// The integer the value holds, if it holds one.
    pub fn as_integer(&self) -> (r: Option<i64>)
        ensures
            r == (match self@ {
                ValueModel::Integer(i) => Some(i),
                _ => None,
            }),
    {
        match &self.value {
            Some(value::Value::Integer(i)) => Some(*i),
            _ => None,
        }
    }
}

impl From<(String, Value)> for Kvpair {
    fn from(data: (String, Value)) -> (r: Self)
        ensures
            r@ == (PairModel { key: data.0@, value: Some(data.1@) }),
    {
        Kvpair { key: data.0, value: Some(data.1) }
    }
}

impl FromSpecImpl<(String, Value)> for Kvpair {
    open spec fn obeys_from_spec() -> bool {
        true
    }

    open spec fn from_spec(data: (String, Value)) -> Self {
        Kvpair { key: data.0, value: Some(data.1) }
    }
}

impl From<Value> for CommandResponse {
    fn from(value: Value) -> (r: Self)
        ensures
            r@ == ResponseModel::of_values(seq![value@]),
    {
        let mut values = Vec::new();
        values.push(value);
        let r = Self { status: STATUS_OK, message: String::new(), values, kvpairs: Vec::new() };
        assert(r@.values =~= seq![value@]);
        assert(r@.kvpairs =~= Seq::empty());
        r
    }
}

impl FromSpecImpl<Value> for CommandResponse {
    open spec fn obeys_from_spec() -> bool {
        false
    }

    open spec fn from_spec(value: Value) -> Self {
        arbitrary()
    }
}

impl From<Vec<Value>> for CommandResponse {
    fn from(values: Vec<Value>) -> (r: Self)
        ensures
            r@ == ResponseModel::of_values(value_models(values@)),
    {
        let r = Self { status: STATUS_OK, message: String::new(), values, kvpairs: Vec::new() };
        assert(r@.kvpairs =~= Seq::empty());
        r
    }
}

impl FromSpecImpl<Vec<Value>> for CommandResponse {
    open spec fn obeys_from_spec() -> bool {
        false
    }

    open spec fn from_spec(values: Vec<Value>) -> Self {
        arbitrary()
    }
}

impl From<Vec<Kvpair>> for CommandResponse {
    fn from(pairs: Vec<Kvpair>) -> (r: Self)
        ensures
            r@ == ResponseModel::of_pairs(pair_models(pairs@)),
    {
        let r = Self { status: STATUS_OK, message: String::new(), values: Vec::new(), kvpairs: pairs };
        assert(r@.values =~= Seq::empty());
        r
    }
}

impl FromSpecImpl<Vec<Kvpair>> for CommandResponse {
    open spec fn obeys_from_spec() -> bool {
        false
    }

    open spec fn from_spec(pairs: Vec<Kvpair>) -> Self {
        arbitrary()
    }
}

impl From<KvError> for CommandResponse {
    /// The response that reports `error`: status 404 for something absent, 400
    /// for a malformed command, 500 for everything else, with the error's text.
    fn from(error: KvError) -> (r: Self)
        ensures
            r@ == ResponseModel::of_error(error.status(), error.message()),
    {
        let mut result = Self {
            status: super::STATUS_INTERNAL_SERVER_ERROR,
            message: error.to_string(),
            values: Vec::new(),
            kvpairs: Vec::new(),
        };
        match error {
            KvError::NotFound(_) => result.status = super::STATUS_NOT_FOUND,
            KvError::InvalidCommand(_) => result.status = super::STATUS_BAD_REQUEST,
            _ => {},
        }
        assert(result@.values =~= Seq::empty());
        assert(result@.kvpairs =~= Seq::empty());
        result
    }
}

impl FromSpecImpl<KvError> for CommandResponse {
    open spec fn obeys_from_spec() -> bool {
        false
    }

    open spec fn from_spec(error: KvError) -> Self {
        arbitrary()
    }
}

/// The text that `Debug` renders a value as.
pub uninterp spec fn value_debug(v: ValueModel) -> Seq<char>;

/// The text that `Debug` renders a response as.
pub uninterp spec fn response_debug(r: ResponseModel) -> Seq<char>;

/// `Debug` of a value, as `derive` wrote it, through `format!`: the text is
/// made of what the value holds and of nothing else.
#[verifier::external_body]
fn value_text(v: &Value) -> (text: String)
    ensures
        text@ == value_debug(v@),
{
    format!("{:?}", v)
}

/// `Debug` of a response, as `derive` wrote it, through `format!`: the text is
/// made of what the response holds and of nothing else.
#[verifier::external_body]
fn response_text(r: &CommandResponse) -> (text: String)
    ensures
        text@ == response_debug(r@),
{
    format!("{:?}", r)
}

impl Value {
    /// The value as a text for error messages: its `Debug` rendering.
    pub fn format(&self) -> (text: String)
        ensures
            text@ == value_debug(self@),
    {
        value_text(self)
    }
}

impl CommandResponse {
    /// The response as a text for error messages: its `Debug` rendering.
    pub fn format(&self) -> (text: String)
        ensures
            text@ == response_debug(self@),
    {
        response_text(self)
    }
}

impl TryFrom<&Value> for i64 {
    type Error = KvError;

    /// The integer a value holds; a convert error where it holds none.
    fn try_from(v: &Value) -> (r: Result<i64, KvError>)
        ensures
            match v@ {
                ValueModel::Integer(i) => r == Ok::<i64, KvError>(i),
                _ => r matches Err(KvError::ConvertError(_, target)) && target@ == "Integer"@,
            },
    {
        match v.as_integer() {
            Some(i) => Ok(i),
            None => Err(KvError::ConvertError(v.format(), "Integer")),
        }
    }
}

impl TryFromSpecImpl<&Value> for i64 {
    open spec fn obeys_try_from_spec() -> bool {
        false
    }

    open spec fn try_from_spec(v: &Value) -> Result<i64, KvError> {
        arbitrary()
    }
}

impl TryFrom<Value> for i64 {
    type Error = KvError;

    /// The integer a value holds; a convert error where it holds none.
    fn try_from(v: Value) -> (r: Result<i64, KvError>)
        ensures
            match v@ {
                ValueModel::Integer(i) => r == Ok::<i64, KvError>(i),
                _ => r matches Err(KvError::ConvertError(_, target)) && target@ == "Integer"@,
            },
    {
        match v.as_integer() {
            Some(i) => Ok(i),
            None => Err(KvError::ConvertError(v.format(), "Integer")),
        }
    }
}

impl TryFromSpecImpl<Value> for i64 {
    open spec fn obeys_try_from_spec() -> bool {
        false
    }

    open spec fn try_from_spec(v: Value) -> Result<i64, KvError> {
        arbitrary()
    }
}

/// The integer that a response carries first: the id, for the response that
/// opens a subscription.
pub open spec fn leading_integer(r: ResponseModel) -> Option<i64> {
    if r.status == 200 && r.values.len() > 0 {
        match r.values[0] {
            ValueModel::Integer(i) => Some(i),
            _ => None,
        }
    } else {
        None
    }
}

impl TryFrom<&CommandResponse> for i64 {
    type Error = KvError;

    /// The integer that a successful response carries as its first value; a
    /// convert error where the response is no success, carries no value, or
    /// its first value is no integer.
    fn try_from(res: &CommandResponse) -> (r: Result<i64, KvError>)
        ensures
            match leading_integer(res@) {
                Some(i) => r == Ok::<i64, KvError>(i),
                None => r matches Err(KvError::ConvertError(_, _)),
            },
    {
        if res.status != STATUS_OK {
            return Err(KvError::ConvertError(res.format(), "CommandResponse"));
        }
        if res.values.len() == 0 {
            return Err(KvError::ConvertError(res.format(), "CommandResponse"));
        }
        match res.values[0].as_integer() {
            Some(i) => Ok(i),
            None => Err(KvError::ConvertError(res.values[0].format(), "Integer")),
        }
    }
}

impl TryFromSpecImpl<&CommandResponse> for i64 {
    open spec fn obeys_try_from_spec() -> bool {
        false
    }

    open spec fn try_from_spec(v: &CommandResponse) -> Result<i64, KvError> {
        arbitrary()
    }
}

impl TryFrom<&[u8]> for Value {
    type Error = KvError;

    /// The value that bytes stand for; a decode error where they stand for
    /// none.
    fn try_from(data: &[u8]) -> (r: Result<Value, KvError>)
        ensures
            match value_parsed(data@) {
                Some(m) => r matches Ok(v) && v@ == m,
                None => r matches Err(KvError::DecodeError),
            },
    {
        match decode_value(data) {
            Some(v) => Ok(v),
            None => Err(KvError::DecodeError),
        }
    }
}

impl TryFromSpecImpl<&[u8]> for Value {
    open spec fn obeys_try_from_spec() -> bool {
        false
    }

    open spec fn try_from_spec(v: &[u8]) -> Result<Value, KvError> {
        arbitrary()
    }
}

impl TryFrom<Value> for Vec<u8> {
    type Error = KvError;

    /// The bytes of a value. This never fails.
    fn try_from(value: Value) -> (r: Result<Vec<u8>, KvError>)
        ensures
            r matches Ok(bytes) && bytes@ == value_wire(value@) && value_parsed(bytes@) == Some(
                value@,
            ),
    {
        let bytes = encode_value(&value);
        proof {
            lemma_value_round_trip(value@);
        }
        Ok(bytes)
    }
}

impl TryFromSpecImpl<Value> for Vec<u8> {
    open spec fn obeys_try_from_spec() -> bool {
        false
    }

    open spec fn try_from_spec(v: Value) -> Result<Vec<u8>, KvError> {
        arbitrary()
    }
}

} // verus!
