//! How values and pairs are laid out as fields.

use vstd::prelude::*;
use vstd::slice::slice_to_vec;
use vstd::utf8::{decode_utf8, encode_utf8, encode_utf8_decode_utf8, encode_utf8_valid_utf8, valid_utf8};

use super::abi::value;
use super::abi::Value;
use super::fields::{blobs_of, last_of, last_position, carried};
use super::model::ValueModel;
use super::wire::{
    field_models, field_ok, fields_bytes, fields_ok, lemma_fields_round_trip, parse, parse_fields,
    serialize, DataModel, Field, FieldModel, Payload, NUMBER_END,
};

verus! {

/// `String::from_utf8`: the text that `bytes` encode, where they are valid
/// UTF-8, and `None` where they are not.
#[verifier::external_body]
pub(crate) fn text_from_utf8(bytes: Vec<u8>) -> (text: Option<String>)
    ensures
        text is Some == valid_utf8(bytes@),
        text matches Some(s) ==> s@ == decode_utf8(bytes@),
{
    String::from_utf8(bytes).ok()
}

/// The text that a byte string encodes, if it encodes one.
pub open spec fn blob_text(blob: Seq<u8>) -> Option<Seq<char>> {
    if valid_utf8(blob) {
        Some(decode_utf8(blob))
    } else {
        None
    }
}

/// The text carried by the last field numbered `number`, empty where there is
/// no such field.
pub open spec fn text_of(fields: Seq<FieldModel>, number: u32) -> Option<Seq<char>> {
    match blobs_of(fields, number) {
        None => None,
        Some(blobs) => if blobs.len() == 0 {
            Some(Seq::empty())
        } else {
            blob_text(blobs.last())
        },
    }
}

/// The run of fields that carries a text, which is left out when empty.
pub open spec fn text_field(number: u32, text: Seq<char>) -> Seq<FieldModel> {
    if text.len() == 0 {
        Seq::empty()
    } else {
        seq![FieldModel { number, data: DataModel::Bytes(encode_utf8(text)) }]
    }
}

/// The 64 bits of a signed number, as an unsigned one.
pub open spec fn twos(i: i64) -> u64 {
    if i >= 0 {
        i as u64
    } else {
        (i + 0x1_0000_0000_0000_0000) as u64
    }
}

/// The signed number of 64 bits.
pub open spec fn untwos(u: u64) -> i64 {
    if u < 0x8000_0000_0000_0000 {
        u as i64
    } else {
        (u - 0x1_0000_0000_0000_0000) as i64
    }
}

/// The fields of a value: none for the null value, else one.
pub open spec fn value_fields(v: ValueModel) -> Seq<FieldModel> {
    match v {
        ValueModel::Null => Seq::empty(),
        ValueModel::String(s) => seq![FieldModel { number: 1, data: DataModel::Bytes(encode_utf8(s)) }],
        ValueModel::Binary(b) => seq![FieldModel { number: 2, data: DataModel::Bytes(b) }],
        ValueModel::Integer(i) => seq![FieldModel { number: 3, data: DataModel::Varint(twos(i)) }],
        ValueModel::Float(f) => seq![FieldModel { number: 4, data: DataModel::Fixed64(f) }],
        ValueModel::Bool(b) => seq![
            FieldModel { number: 5, data: DataModel::Varint(if b { 1 } else { 0 }) },
        ],
    }
}

/// The value that a run of fields stands for: what the last field numbered 1
/// to 5 says, the null value where there is none.
pub open spec fn value_from(fields: Seq<FieldModel>) -> Option<ValueModel> {
    match last_of(fields, 1, 5) {
        None => Some(ValueModel::Null),
        Some(f) => match f.data {
            DataModel::Bytes(b) => if f.number == 1 {
                match blob_text(b) {
                    Some(s) => Some(ValueModel::String(s)),
                    None => None,
                }
            } else if f.number == 2 {
                Some(ValueModel::Binary(b))
            } else {
                None
            },
            DataModel::Varint(v) => if f.number == 3 {
                Some(ValueModel::Integer(untwos(v)))
            } else if f.number == 5 {
                Some(ValueModel::Bool(v != 0))
            } else {
                None
            },
            DataModel::Fixed64(v) => if f.number == 4 {
                Some(ValueModel::Float(v))
            } else {
                None
            },
            DataModel::Fixed32(_) => None,
        },
    }
}

/// The bytes of a value.
pub open spec fn value_wire(v: ValueModel) -> Seq<u8> {
    fields_bytes(value_fields(v))
}

/// The value that bytes stand for, if they stand for one.
pub open spec fn value_parsed(bytes: Seq<u8>) -> Option<ValueModel> {
    match parse_fields(bytes) {
        Some(fields) => value_from(fields),
        None => None,
    }
}

/// Whether a value is small enough to be written.
pub open spec fn value_fits(v: ValueModel) -> bool {
    fields_ok(value_fields(v))
}

/// The bytes of a value stand for that value.
pub proof fn lemma_value_round_trip(v: ValueModel)
    requires
        value_fits(v),
    ensures
        value_parsed(value_wire(v)) == Some(v),
{
    let fields = value_fields(v);
    lemma_fields_round_trip(fields);
    match v {
        ValueModel::Null => {},
        ValueModel::String(s) => {
            encode_utf8_valid_utf8(s);
            encode_utf8_decode_utf8(s);
            assert(fields.last() == fields[0]);
        },
        ValueModel::Binary(b) => {
            assert(fields.last() == fields[0]);
        },
        ValueModel::Integer(i) => {
            assert(fields.last() == fields[0]);
            assert(untwos(twos(i)) == i);
        },
        ValueModel::Float(f) => {
            assert(fields.last() == fields[0]);
        },
        ValueModel::Bool(b) => {
            assert(fields.last() == fields[0]);
        },
    }
}

/// The 64 bits of a signed number, as an unsigned one.
pub fn to_twos(i: i64) -> (u: u64)
    ensures
        u == twos(i),
{
    if i >= 0 {
        i as u64
    } else {
        let up = (i - i64::MIN) as u64;
        up + 0x8000_0000_0000_0000
    }
}

/// The signed number of 64 bits.
fn from_twos(u: u64) -> (i: i64)
    ensures
        i == untwos(u),
{
    if u < 0x8000_0000_0000_0000 {
        u as i64
    } else {
        let down = (u - 0x8000_0000_0000_0000) as i64;
        down + i64::MIN
    }
}

/// The bytes that encode a text.
pub fn text_bytes(text: &str) -> (bytes: Vec<u8>)
    ensures
        bytes@ == encode_utf8(text@),
{
    slice_to_vec(text.as_bytes())
}

/// The field numbered `number` that carries `bytes`.
pub(crate) fn bytes_field(number: u32, bytes: Vec<u8>) -> (field: Field)
    requires
        1 <= number < NUMBER_END,
    ensures
        field@ == (FieldModel { number, data: DataModel::Bytes(bytes@) }),
        field_ok(field@),
{
    let n = bytes.len();
    Field { number, data: Payload::Bytes(bytes) }
}

/// The fields of a value.
pub fn value_to_fields(v: &Value) -> (fields: Vec<Field>)
    ensures
        field_models(fields@) == value_fields(v@),
        value_fits(v@),
{
    let mut fields: Vec<Field> = Vec::new();
    match &v.value {
        None => {},
        Some(value::Value::String(s)) => {
            fields.push(bytes_field(1, text_bytes(s.as_str())));
        },
        Some(value::Value::Binary(b)) => {
            fields.push(bytes_field(2, slice_to_vec(b.as_slice())));
        },
        Some(value::Value::Integer(i)) => {
            fields.push(Field { number: 3, data: Payload::Varint(to_twos(*i)) });
        },
        Some(value::Value::Float(f)) => {
            fields.push(Field { number: 4, data: Payload::Fixed64(*f) });
        },
        Some(value::Value::Bool(b)) => {
            fields.push(Field { number: 5, data: Payload::Varint(if *b { 1 } else { 0 }) });
        },
    }
    proof {
        assert(field_models(fields@) =~= value_fields(v@));
    }
    fields
}

/// The bytes of a value.
pub fn encode_value(v: &Value) -> (bytes: Vec<u8>)
    ensures
        bytes@ == value_wire(v@),
        value_fits(v@),
{
    serialize(&value_to_fields(v))
}

/// The value that a run of fields stands for.
pub fn value_from_fields(fields: &Vec<Field>) -> (r: Option<Value>)
    ensures
        match value_from(field_models(fields@)) {
            Some(m) => r matches Some(v) && v@ == m,
            None => r is None,
        },
{
    match last_position(fields, 1, 5) {
        None => Some(Value { value: None }),
        Some(at) => {
            let field = &fields[at];
            match &field.data {
                Payload::Bytes(b) => if field.number == 1 {
                    match text_from_utf8(slice_to_vec(b.as_slice())) {
                        Some(s) => Some(Value { value: Some(value::Value::String(s)) }),
                        None => None,
                    }
                } else if field.number == 2 {
                    Some(Value { value: Some(value::Value::Binary(slice_to_vec(b.as_slice()))) })
                } else {
                    None
                },
                Payload::Varint(v) => if field.number == 3 {
                    Some(Value { value: Some(value::Value::Integer(from_twos(*v))) })
                } else if field.number == 5 {
                    Some(Value { value: Some(value::Value::Bool(*v != 0)) })
                } else {
                    None
                },
                Payload::Fixed64(v) => if field.number == 4 {
                    Some(Value { value: Some(value::Value::Float(*v)) })
                } else {
                    None
                },
                Payload::Fixed32(_) => None,
            }
        },
    }
}

/// The value that bytes stand for, if they stand for one.
pub fn decode_value(bytes: &[u8]) -> (r: Option<Value>)
    ensures
        match value_parsed(bytes@) {
            Some(m) => r matches Some(v) && v@ == m,
            None => r is None,
        },
{
    match parse(bytes) {
        Some(fields) => value_from_fields(&fields),
        None => None,
    }
}

} // verus!
