//! Writing fields into a run and reading them out of one.

use vstd::prelude::*;
use vstd::slice::slice_to_vec;
use vstd::utf8::{decode_utf8, valid_utf8};

use super::abi::{Kvpair, Value};
use super::codec::{
    bytes_field, decode_value, encode_value, text_bytes, text_field, text_from_utf8, text_of,
    value_fits, value_parsed, value_wire,
};
use super::fields::{blob_fields, blob_positions, blobs_of, number_field};
use super::model::{pair_models, texts, value_models};
use super::schema::{
    blob_of, maybe_blob_field, pair_blobs, pair_fields, pair_fits, pair_from, pair_parsed,
    pair_wire, pairs_fit, pairs_from, text_blobs, texts_from, value_blobs, values_fit,
    values_from,
};
use super::wire::{
    field_models, field_ok, fields_ok, parse, serialize, DataModel, Field, FieldModel, Payload,
    NUMBER_END,
};

verus! {

/// Adds a field to a run.
pub(crate) fn push_field(fields: &mut Vec<Field>, field: Field)
    requires
        fields_ok(field_models(old(fields)@)),
        field_ok(field@),
    ensures
        field_models(final(fields)@) == field_models(old(fields)@).push(field@),
        fields_ok(field_models(final(fields)@)),
{
    fields.push(field);
    proof {
        assert(field_models(fields@) =~= field_models(old(fields)@).push(field@));
    }
}

/// Adds a text under `number`, unless the text is empty.
pub(crate) fn push_text(fields: &mut Vec<Field>, number: u32, text: &str)
    requires
        fields_ok(field_models(old(fields)@)),
        1 <= number < NUMBER_END,
    ensures
        field_models(final(fields)@) == field_models(old(fields)@) + text_field(number, text@),
        fields_ok(field_models(final(fields)@)),
{
    let bytes = text_bytes(text);
    proof {
        vstd::utf8::encode_utf8_decode_utf8(text@);
    }
    if bytes.len() > 0 {
        proof {
            assert(text@.len() != 0);
        }
        push_field(fields, bytes_field(number, bytes));
        proof {
            assert(field_models(fields@) =~= field_models(old(fields)@) + text_field(number, text@));
        }
    } else {
        proof {
            assert(decode_utf8(bytes@) =~= Seq::<char>::empty());
            assert(field_models(fields@) =~= field_models(old(fields)@) + text_field(number, text@));
        }
    }
}

/// Adds a number under `number`, unless it is 0.
pub(crate) fn push_number(fields: &mut Vec<Field>, number: u32, v: u64)
    requires
        fields_ok(field_models(old(fields)@)),
        1 <= number < NUMBER_END,
    ensures
        field_models(final(fields)@) == field_models(old(fields)@) + number_field(number, v),
        fields_ok(field_models(final(fields)@)),
{
    if v != 0 {
        push_field(fields, Field { number, data: Payload::Varint(v) });
    }
    proof {
        assert(field_models(fields@) =~= field_models(old(fields)@) + number_field(number, v));
    }
}

/// Adds a byte string under `number`.
pub(crate) fn push_blob(fields: &mut Vec<Field>, number: u32, bytes: Vec<u8>)
    requires
        fields_ok(field_models(old(fields)@)),
        1 <= number < NUMBER_END,
    ensures
        field_models(final(fields)@) == field_models(old(fields)@) + maybe_blob_field(
            number,
            Some(bytes@),
        ),
        fields_ok(field_models(final(fields)@)),
        bytes@.len() <= u64::MAX,
{
    push_field(fields, bytes_field(number, bytes));
    proof {
        assert(field_models(fields@) =~= field_models(old(fields)@) + maybe_blob_field(
            number,
            Some(bytes@),
        ));
    }
}

/// Adds each of `items` under `number`.
pub(crate) fn push_texts(fields: &mut Vec<Field>, number: u32, items: &Vec<String>)
    requires
        fields_ok(field_models(old(fields)@)),
        1 <= number < NUMBER_END,
    ensures
        field_models(final(fields)@) == field_models(old(fields)@) + blob_fields(
            number,
            text_blobs(texts(items@)),
        ),
        fields_ok(field_models(final(fields)@)),
{
    let ghost blobs = text_blobs(texts(items@));
    let mut i: usize = 0;
    proof {
        assert(field_models(fields@) =~= field_models(old(fields)@) + blob_fields(
            number,
            blobs.take(0),
        ));
    }
    while i < items.len()
        invariant
            0 <= i <= items.len(),
            1 <= number < NUMBER_END,
            blobs == text_blobs(texts(items@)),
            fields_ok(field_models(fields@)),
            field_models(fields@) == field_models(old(fields)@) + blob_fields(
                number,
                blobs.take(i as int),
            ),
        decreases items.len() - i,
    {
        let ghost before = field_models(fields@);
        let bytes = text_bytes(items[i].as_str());
        let field = bytes_field(number, bytes);
        let ghost pushed = field@;
        push_field(fields, field);
        proof {
            assert(pushed.data == DataModel::Bytes(blobs[i as int]));
            assert(before.push(pushed) =~= field_models(old(fields)@) + blob_fields(
                number,
                blobs.take(i + 1),
            ));
        }
        i = i + 1;
    }
    proof {
        assert(blobs.take(i as int) =~= blobs);
    }
}

/// Adds each of `items` under `number`.
pub(crate) fn push_values(fields: &mut Vec<Field>, number: u32, items: &Vec<Value>)
    requires
        fields_ok(field_models(old(fields)@)),
        1 <= number < NUMBER_END,
    ensures
        field_models(final(fields)@) == field_models(old(fields)@) + blob_fields(
            number,
            value_blobs(value_models(items@)),
        ),
        fields_ok(field_models(final(fields)@)),
        values_fit(value_models(items@)),
{
    let ghost blobs = value_blobs(value_models(items@));
    let mut i: usize = 0;
    proof {
        assert(field_models(fields@) =~= field_models(old(fields)@) + blob_fields(
            number,
            blobs.take(0),
        ));
    }
    while i < items.len()
        invariant
            0 <= i <= items.len(),
            1 <= number < NUMBER_END,
            blobs == value_blobs(value_models(items@)),
            fields_ok(field_models(fields@)),
            field_models(fields@) == field_models(old(fields)@) + blob_fields(
                number,
                blobs.take(i as int),
            ),
            forall|k: int|
                0 <= k < i ==> value_fits(#[trigger] value_models(items@)[k]) && value_wire(
                    value_models(items@)[k],
                ).len() <= u64::MAX,
        decreases items.len() - i,
    {
        let ghost before = field_models(fields@);
        let bytes = encode_value(&items[i]);
        let field = bytes_field(number, bytes);
        let ghost pushed = field@;
        push_field(fields, field);
        proof {
            assert(pushed.data == DataModel::Bytes(blobs[i as int]));
            assert(before.push(pushed) =~= field_models(old(fields)@) + blob_fields(
                number,
                blobs.take(i + 1),
            ));
        }
        i = i + 1;
    }
    proof {
        assert(blobs.take(i as int) =~= blobs);
    }
}

/// The fields of a pair.
pub fn pair_to_fields(p: &Kvpair) -> (fields: Vec<Field>)
    ensures
        field_models(fields@) == pair_fields(p@),
        pair_fits(p@),
{
    let mut fields: Vec<Field> = Vec::new();
    proof {
        assert(field_models(fields@) =~= Seq::<FieldModel>::empty());
    }
    push_text(&mut fields, 1, p.key.as_str());
    match &p.value {
        Some(v) => {
            push_blob(&mut fields, 2, encode_value(v));
        },
        None => {
            proof {
                assert(field_models(fields@) + maybe_blob_field(2, None) =~= field_models(fields@));
            }
        },
    }
    proof {
        assert(field_models(fields@) =~= pair_fields(p@));
    }
    fields
}

/// The bytes of a pair.
pub fn encode_pair(p: &Kvpair) -> (bytes: Vec<u8>)
    ensures
        bytes@ == pair_wire(p@),
        pair_fits(p@),
{
    serialize(&pair_to_fields(p))
}

/// Adds each of `items` under `number`.
pub(crate) fn push_pairs(fields: &mut Vec<Field>, number: u32, items: &Vec<Kvpair>)
    requires
        fields_ok(field_models(old(fields)@)),
        1 <= number < NUMBER_END,
    ensures
        field_models(final(fields)@) == field_models(old(fields)@) + blob_fields(
            number,
            pair_blobs(pair_models(items@)),
        ),
        fields_ok(field_models(final(fields)@)),
        pairs_fit(pair_models(items@)),
{
    let ghost blobs = pair_blobs(pair_models(items@));
    let mut i: usize = 0;
    proof {
        assert(field_models(fields@) =~= field_models(old(fields)@) + blob_fields(
            number,
            blobs.take(0),
        ));
    }
    while i < items.len()
        invariant
            0 <= i <= items.len(),
            1 <= number < NUMBER_END,
            blobs == pair_blobs(pair_models(items@)),
            fields_ok(field_models(fields@)),
            field_models(fields@) == field_models(old(fields)@) + blob_fields(
                number,
                blobs.take(i as int),
            ),
            forall|k: int|
                0 <= k < i ==> pair_fits(#[trigger] pair_models(items@)[k]) && pair_wire(
                    pair_models(items@)[k],
                ).len() <= u64::MAX,
        decreases items.len() - i,
    {
        let ghost before = field_models(fields@);
        let bytes = encode_pair(&items[i]);
        let field = bytes_field(number, bytes);
        let ghost pushed = field@;
        push_field(fields, field);
        proof {
            assert(pushed.data == DataModel::Bytes(blobs[i as int]));
            assert(before.push(pushed) =~= field_models(old(fields)@) + blob_fields(
                number,
                blobs.take(i + 1),
            ));
        }
        i = i + 1;
    }
    proof {
        assert(blobs.take(i as int) =~= blobs);
    }
}

/// A copy of the bytes that the field at `at` carries.
fn blob_at(fields: &Vec<Field>, at: usize) -> (bytes: Vec<u8>)
    requires
        at < fields@.len(),
        fields@[at as int]@.data is Bytes,
    ensures
        DataModel::Bytes(bytes@) == fields@[at as int]@.data,
{
    match &fields[at].data {
        Payload::Bytes(b) => slice_to_vec(b.as_slice()),
        _ => Vec::new(),
    }
}

/// The text carried by the last field numbered `number`, empty where there is
/// no such field; `None` where the field does not carry a text.
pub fn take_text(fields: &Vec<Field>, number: u32) -> (r: Option<String>)
    ensures
        match text_of(field_models(fields@), number) {
            Some(text) => r matches Some(s) && s@ == text,
            None => r is None,
        },
{
    match blob_positions(fields, number) {
        None => None,
        Some(at) => {
            if at.len() == 0 {
                Some(String::new())
            } else {
                text_from_utf8(blob_at(fields, at[at.len() - 1]))
            }
        },
    }
}

/// The byte string carried by the last field numbered `number`, if there is
/// such a field; `None` where the field carries something else.
pub fn take_blob(fields: &Vec<Field>, number: u32) -> (r: Option<Option<Vec<u8>>>)
    ensures
        match blob_of(field_models(fields@), number) {
            Some(Some(blob)) => r matches Some(Some(b)) && b@ == blob,
            Some(None) => r matches Some(None),
            None => r is None,
        },
{
    match blob_positions(fields, number) {
        None => None,
        Some(at) => {
            if at.len() == 0 {
                Some(None)
            } else {
                Some(Some(blob_at(fields, at[at.len() - 1])))
            }
        },
    }
}

/// The texts carried by the fields numbered `number`, in order; `None` where
/// one of them does not carry a text.
pub fn take_texts(fields: &Vec<Field>, number: u32) -> (r: Option<Vec<String>>)
    ensures
        match blobs_of(field_models(fields@), number) {
            Some(blobs) => match texts_from(blobs) {
                Some(items) => r matches Some(found) && texts(found@) == items,
                None => r is None,
            },
            None => r is None,
        },
{
    match blob_positions(fields, number) {
        None => None,
        Some(at) => {
            let ghost blobs = blobs_of(field_models(fields@), number)->Some_0;
            let mut found: Vec<String> = Vec::new();
            let mut i: usize = 0;
            while i < at.len()
                invariant
                    0 <= i <= at@.len(),
                    blobs_of(field_models(fields@), number) == Some(blobs),
                    at@.len() == blobs.len(),
                    forall|j: int|
                        0 <= j < at@.len() ==> (#[trigger] at@[j]) < fields@.len()
                            && fields@[at@[j] as int]@.data == DataModel::Bytes(blobs[j]),
                    found@.len() == i,
                    forall|j: int| 0 <= j < i ==> valid_utf8(#[trigger] blobs[j]),
                    forall|j: int| 0 <= j < i ==> (#[trigger] found@[j])@ == decode_utf8(blobs[j]),
                decreases at@.len() - i,
            {
                match text_from_utf8(blob_at(fields, at[i])) {
                    Some(s) => {
                        found.push(s);
                    },
                    None => {
                        proof {
                            assert(!valid_utf8(blobs[i as int]));
                            assert(texts_from(blobs) is None);
                        }
                        return None;
                    },
                }
                i = i + 1;
            }
            proof {
                assert(texts(found@) =~= texts_from(blobs)->Some_0);
            }
            Some(found)
        },
    }
}

/// The values carried by the fields numbered `number`, in order; `None` where
/// one of them does not carry a value.
pub fn take_values(fields: &Vec<Field>, number: u32) -> (r: Option<Vec<Value>>)
    ensures
        match blobs_of(field_models(fields@), number) {
            Some(blobs) => match values_from(blobs) {
                Some(items) => r matches Some(found) && value_models(found@) == items,
                None => r is None,
            },
            None => r is None,
        },
{
    match blob_positions(fields, number) {
        None => None,
        Some(at) => {
            let ghost blobs = blobs_of(field_models(fields@), number)->Some_0;
            let mut found: Vec<Value> = Vec::new();
            let mut i: usize = 0;
            while i < at.len()
                invariant
                    0 <= i <= at@.len(),
                    blobs_of(field_models(fields@), number) == Some(blobs),
                    at@.len() == blobs.len(),
                    forall|j: int|
                        0 <= j < at@.len() ==> (#[trigger] at@[j]) < fields@.len()
                            && fields@[at@[j] as int]@.data == DataModel::Bytes(blobs[j]),
                    found@.len() == i,
                    forall|j: int| 0 <= j < i ==> value_parsed(#[trigger] blobs[j]) is Some,
                    forall|j: int|
                        0 <= j < i ==> (#[trigger] found@[j])@ == value_parsed(blobs[j])->Some_0,
                decreases at@.len() - i,
            {
                let bytes = blob_at(fields, at[i]);
                match decode_value(bytes.as_slice()) {
                    Some(v) => {
                        found.push(v);
                    },
                    None => {
                        proof {
                            assert(value_parsed(blobs[i as int]) is None);
                            assert(values_from(blobs) is None);
                        }
                        return None;
                    },
                }
                i = i + 1;
            }
            proof {
                assert(value_models(found@) =~= values_from(blobs)->Some_0);
            }
            Some(found)
        },
    }
}

/// The pair that a run of fields stands for.
pub fn pair_from_fields(fields: &Vec<Field>) -> (r: Option<Kvpair>)
    ensures
        match pair_from(field_models(fields@)) {
            Some(m) => r matches Some(p) && p@ == m,
            None => r is None,
        },
{
    let key = match take_text(fields, 1) {
        Some(key) => key,
        None => {
            return None;
        },
    };
    match take_blob(fields, 2) {
        None => None,
        Some(None) => Some(Kvpair { key, value: None }),
        Some(Some(bytes)) => match decode_value(bytes.as_slice()) {
            Some(v) => Some(Kvpair { key, value: Some(v) }),
            None => None,
        },
    }
}

/// The pair that bytes stand for, if they stand for one.
pub fn decode_pair(bytes: &[u8]) -> (r: Option<Kvpair>)
    ensures
        match pair_parsed(bytes@) {
            Some(m) => r matches Some(p) && p@ == m,
            None => r is None,
        },
{
    match parse(bytes) {
        Some(fields) => pair_from_fields(&fields),
        None => None,
    }
}

/// The pairs carried by the fields numbered `number`, in order; `None` where
/// one of them does not carry a pair.
pub fn take_pairs(fields: &Vec<Field>, number: u32) -> (r: Option<Vec<Kvpair>>)
    ensures
        match blobs_of(field_models(fields@), number) {
            Some(blobs) => match pairs_from(blobs) {
                Some(items) => r matches Some(found) && pair_models(found@) == items,
                None => r is None,
            },
            None => r is None,
        },
{
    match blob_positions(fields, number) {
        None => None,
        Some(at) => {
            let ghost blobs = blobs_of(field_models(fields@), number)->Some_0;
            let mut found: Vec<Kvpair> = Vec::new();
            let mut i: usize = 0;
            while i < at.len()
                invariant
                    0 <= i <= at@.len(),
                    blobs_of(field_models(fields@), number) == Some(blobs),
                    at@.len() == blobs.len(),
                    forall|j: int|
                        0 <= j < at@.len() ==> (#[trigger] at@[j]) < fields@.len()
                            && fields@[at@[j] as int]@.data == DataModel::Bytes(blobs[j]),
                    found@.len() == i,
                    forall|j: int| 0 <= j < i ==> pair_parsed(#[trigger] blobs[j]) is Some,
                    forall|j: int|
                        0 <= j < i ==> (#[trigger] found@[j])@ == pair_parsed(blobs[j])->Some_0,
                decreases at@.len() - i,
            {
                let bytes = blob_at(fields, at[i]);
                match decode_pair(bytes.as_slice()) {
                    Some(p) => {
                        found.push(p);
                    },
                    None => {
                        proof {
                            assert(pair_parsed(blobs[i as int]) is None);
                            assert(pairs_from(blobs) is None);
                        }
                        return None;
                    },
                }
                i = i + 1;
            }
            proof {
                assert(pair_models(found@) =~= pairs_from(blobs)->Some_0);
            }
            Some(found)
        },
    }
}

} // verus!
