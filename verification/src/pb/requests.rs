//! How requests are laid out as fields: one field, numbered by the command,
//! that carries the command's own fields.

use vstd::prelude::*;

use super::abi::command_request::RequestData;
use super::abi::{
    CommandRequest, Hdel, Hexist, Hget, Hgetall, Hmdel, Hmexist, Hmget, Hmset, Hset, PSubscribe,
    PUnsubscribe, Publish, Subscribe, Unsubscribe,
};
use super::codec::{bytes_field, text_field, text_of};
use super::fields::{
    blob_fields, blobs_of, last_number, last_of, last_position, lemma_lookup_skips,
    lemma_number_found, number_field, number_of,
};
use super::model::{texts, PairModel, RequestModel};
use super::records::{
    decode_pair, encode_pair, push_blob, push_number, push_pairs, push_text, push_texts,
    push_values, take_blob, take_pairs, take_text, take_texts, take_values,
};
use super::schema::{
    blob_of, lemma_blob_fields, lemma_maybe_blob_field, lemma_number_field,
    lemma_pair_round_trip, lemma_pairs_round_trip, lemma_text_field, lemma_texts_round_trip,
    lemma_values_round_trip, maybe_blob_field, pair_blobs, pair_fits, pair_parsed, pair_wire,
    pairs_fit, pairs_from, text_blobs, texts_from, value_blobs, values_fit, values_from,
};
use super::wire::{
    field_models, fields_bytes, fields_ok, lemma_fields_round_trip, parse, parse_fields,
    serialize, DataModel, Field, FieldModel, Payload,
};

verus! {

/// The number of the field that carries a command; 0 for no command.
pub open spec fn request_number(r: RequestModel) -> u32 {
    match r {
        RequestModel::Empty => 0,
        RequestModel::Hget { .. } => 1,
        RequestModel::Hmget { .. } => 2,
        RequestModel::Hgetall { .. } => 3,
        RequestModel::Hset { .. } => 4,
        RequestModel::Hmset { .. } => 5,
        RequestModel::Hdel { .. } => 6,
        RequestModel::Hmdel { .. } => 7,
        RequestModel::Hexist { .. } => 8,
        RequestModel::Hmexist { .. } => 9,
        RequestModel::Subscribe { .. } => 10,
        RequestModel::Unsubscribe { .. } => 11,
        RequestModel::Publish { .. } => 12,
        RequestModel::Psubscribe { .. } => 13,
        RequestModel::Punsubscribe { .. } => 14,
    }
}

/// The bytes of an optional pair.
pub open spec fn maybe_pair_wire(pair: Option<PairModel>) -> Option<Seq<u8>> {
    match pair {
        None => None,
        Some(p) => Some(pair_wire(p)),
    }
}

/// A command's own fields: its first text under 1, what else it has under 2.
pub open spec fn body_fields(r: RequestModel) -> Seq<FieldModel> {
    match r {
        RequestModel::Empty => Seq::empty(),
        RequestModel::Hget { table, key } => text_field(1, table) + text_field(2, key),
        RequestModel::Hmget { table, keys } => text_field(1, table) + blob_fields(
            2,
            text_blobs(keys),
        ),
        RequestModel::Hgetall { table } => text_field(1, table),
        RequestModel::Hset { table, pair } => text_field(1, table) + maybe_blob_field(
            2,
            maybe_pair_wire(pair),
        ),
        RequestModel::Hmset { table, pairs } => text_field(1, table) + blob_fields(
            2,
            pair_blobs(pairs),
        ),
        RequestModel::Hdel { table, key } => text_field(1, table) + text_field(2, key),
        RequestModel::Hmdel { table, keys } => text_field(1, table) + blob_fields(
            2,
            text_blobs(keys),
        ),
        RequestModel::Hexist { table, key } => text_field(1, table) + text_field(2, key),
        RequestModel::Hmexist { table, keys } => text_field(1, table) + blob_fields(
            2,
            text_blobs(keys),
        ),
        RequestModel::Subscribe { topic } => text_field(1, topic),
        RequestModel::Unsubscribe { topic, id } => text_field(1, topic) + number_field(
            2,
            id as u64,
        ),
        RequestModel::Publish { topic, values } => text_field(1, topic) + blob_fields(
            2,
            value_blobs(values),
        ),
        RequestModel::Psubscribe { pattern } => text_field(1, pattern),
        RequestModel::Punsubscribe { pattern, id } => text_field(1, pattern) + number_field(
            2,
            id as u64,
        ),
    }
}

/// The two texts of a command that has two.
pub open spec fn two_texts(fields: Seq<FieldModel>) -> Option<(Seq<char>, Seq<char>)> {
    match (text_of(fields, 1), text_of(fields, 2)) {
        (Some(a), Some(b)) => Some((a, b)),
        _ => None,
    }
}

/// The text and the list of texts of a command that has them.
pub open spec fn text_and_texts(fields: Seq<FieldModel>) -> Option<(Seq<char>, Seq<Seq<char>>)> {
    match (text_of(fields, 1), blobs_of(fields, 2)) {
        (Some(a), Some(blobs)) => match texts_from(blobs) {
            Some(items) => Some((a, items)),
            None => None,
        },
        _ => None,
    }
}

/// The text and the id of a command that has them.
pub open spec fn text_and_id(fields: Seq<FieldModel>) -> Option<(Seq<char>, u32)> {
    match (text_of(fields, 1), number_of(fields, 2)) {
        (Some(a), Some(v)) => Some((a, (v % 0x1_0000_0000) as u32)),
        _ => None,
    }
}

/// The command numbered `number` that a run of fields stands for.
pub open spec fn body_from(number: u32, fields: Seq<FieldModel>) -> Option<RequestModel> {
    if number == 1 {
        match two_texts(fields) {
            Some((table, key)) => Some(RequestModel::Hget { table, key }),
            None => None,
        }
    } else if number == 2 {
        match text_and_texts(fields) {
            Some((table, keys)) => Some(RequestModel::Hmget { table, keys }),
            None => None,
        }
    } else if number == 3 {
        match text_of(fields, 1) {
            Some(table) => Some(RequestModel::Hgetall { table }),
            None => None,
        }
    } else if number == 4 {
        match (text_of(fields, 1), blob_of(fields, 2)) {
            (Some(table), Some(None)) => Some(RequestModel::Hset { table, pair: None }),
            (Some(table), Some(Some(b))) => match pair_parsed(b) {
                Some(p) => Some(RequestModel::Hset { table, pair: Some(p) }),
                None => None,
            },
            _ => None,
        }
    } else if number == 5 {
        match (text_of(fields, 1), blobs_of(fields, 2)) {
            (Some(table), Some(blobs)) => match pairs_from(blobs) {
                Some(pairs) => Some(RequestModel::Hmset { table, pairs }),
                None => None,
            },
            _ => None,
        }
    } else if number == 6 {
        match two_texts(fields) {
            Some((table, key)) => Some(RequestModel::Hdel { table, key }),
            None => None,
        }
    } else if number == 7 {
        match text_and_texts(fields) {
            Some((table, keys)) => Some(RequestModel::Hmdel { table, keys }),
            None => None,
        }
    } else if number == 8 {
        match two_texts(fields) {
            Some((table, key)) => Some(RequestModel::Hexist { table, key }),
            None => None,
        }
    } else if number == 9 {
        match text_and_texts(fields) {
            Some((table, keys)) => Some(RequestModel::Hmexist { table, keys }),
            None => None,
        }
    } else if number == 10 {
        match text_of(fields, 1) {
            Some(topic) => Some(RequestModel::Subscribe { topic }),
            None => None,
        }
    } else if number == 11 {
        match text_and_id(fields) {
            Some((topic, id)) => Some(RequestModel::Unsubscribe { topic, id }),
            None => None,
        }
    } else if number == 12 {
        match (text_of(fields, 1), blobs_of(fields, 2)) {
            (Some(topic), Some(blobs)) => match values_from(blobs) {
                Some(values) => Some(RequestModel::Publish { topic, values }),
                None => None,
            },
            _ => None,
        }
    } else if number == 13 {
        match text_of(fields, 1) {
            Some(pattern) => Some(RequestModel::Psubscribe { pattern }),
            None => None,
        }
    } else if number == 14 {
        match text_and_id(fields) {
            Some((pattern, id)) => Some(RequestModel::Punsubscribe { pattern, id }),
            None => None,
        }
    } else {
        None
    }
}

/// The fields of a request: none where it has no command, else the one that
/// carries the command.
pub open spec fn request_fields(r: RequestModel) -> Seq<FieldModel> {
    if r is Empty {
        Seq::empty()
    } else {
        seq![
            FieldModel {
                number: request_number(r),
                data: DataModel::Bytes(fields_bytes(body_fields(r))),
            },
        ]
    }
}

/// The request that a run of fields stands for: the command that the last
/// field numbered 1 to 14 carries, no command where there is none.
pub open spec fn request_from(fields: Seq<FieldModel>) -> Option<RequestModel> {
    match last_of(fields, 1, 14) {
        None => Some(RequestModel::Empty),
        Some(f) => match f.data {
            DataModel::Bytes(b) => match parse_fields(b) {
                Some(inner) => body_from(f.number, inner),
                None => None,
            },
            _ => None,
        },
    }
}

/// The bytes of a request.
pub open spec fn request_wire(r: RequestModel) -> Seq<u8> {
    fields_bytes(request_fields(r))
}

/// The request that bytes stand for, if they stand for one.
pub open spec fn request_parsed(bytes: Seq<u8>) -> Option<RequestModel> {
    match parse_fields(bytes) {
        Some(fields) => request_from(fields),
        None => None,
    }
}

/// Whether what a command carries is small enough to be written.
pub open spec fn body_fits(r: RequestModel) -> bool {
    &&& fields_ok(body_fields(r))
    &&& r matches RequestModel::Hset { pair: Some(p), .. } ==> pair_fits(p)
    &&& r matches RequestModel::Hmset { pairs, .. } ==> pairs_fit(pairs)
    &&& r matches RequestModel::Publish { values, .. } ==> values_fit(values)
}

/// Whether a request is small enough to be written.
pub open spec fn request_fits(r: RequestModel) -> bool {
    body_fits(r) && fields_ok(request_fields(r))
}

/// A command's text under 1 is found whatever the command has under 2.
pub proof fn lemma_first_text(text: Seq<char>, rest: Seq<FieldModel>)
    requires
        super::fields::lacks(rest, 1),
    ensures
        text_of(text_field(1, text) + rest, 1) == Some(text),
{
    let first = text_field(1, text);
    lemma_text_field(Seq::empty(), 1, text);
    assert(Seq::<FieldModel>::empty() + first =~= first);
    lemma_lookup_skips(first, rest, 1);
}

/// A command's own fields stand for that command.
pub proof fn lemma_body_round_trip(r: RequestModel)
    requires
        body_fits(r),
        !(r is Empty),
    ensures
        body_from(request_number(r), body_fields(r)) == Some(r),
{
    match r {
        RequestModel::Empty => {},
        RequestModel::Hget { table, key } => {
            lemma_two_texts(table, key);
        },
        RequestModel::Hmget { table, keys } => {
            lemma_text_and_texts(table, keys);
        },
        RequestModel::Hgetall { table } => {
            lemma_first_text(table, Seq::empty());
            assert(text_field(1, table) + Seq::<FieldModel>::empty() =~= text_field(1, table));
        },
        RequestModel::Hset { table, pair } => {
            let second = maybe_blob_field(2, maybe_pair_wire(pair));
            lemma_text_field(Seq::empty(), 1, table);
            lemma_maybe_blob_field(text_field(1, table), 2, maybe_pair_wire(pair));
            lemma_first_text(table, second);
            match pair {
                Some(p) => {
                    lemma_pair_round_trip(p);
                },
                None => {},
            }
        },
        RequestModel::Hmset { table, pairs } => {
            let second = blob_fields(2, pair_blobs(pairs));
            lemma_text_field(Seq::empty(), 1, table);
            lemma_blob_fields(text_field(1, table), 2, pair_blobs(pairs));
            lemma_first_text(table, second);
            lemma_pairs_round_trip(pairs);
        },
        RequestModel::Hdel { table, key } => {
            lemma_two_texts(table, key);
        },
        RequestModel::Hmdel { table, keys } => {
            lemma_text_and_texts(table, keys);
        },
        RequestModel::Hexist { table, key } => {
            lemma_two_texts(table, key);
        },
        RequestModel::Hmexist { table, keys } => {
            lemma_text_and_texts(table, keys);
        },
        RequestModel::Subscribe { topic } => {
            lemma_first_text(topic, Seq::empty());
            assert(text_field(1, topic) + Seq::<FieldModel>::empty() =~= text_field(1, topic));
        },
        RequestModel::Unsubscribe { topic, id } => {
            lemma_text_and_id(topic, id);
        },
        RequestModel::Publish { topic, values } => {
            let second = blob_fields(2, value_blobs(values));
            lemma_text_field(Seq::empty(), 1, topic);
            lemma_blob_fields(text_field(1, topic), 2, value_blobs(values));
            lemma_first_text(topic, second);
            lemma_values_round_trip(values);
        },
        RequestModel::Psubscribe { pattern } => {
            lemma_first_text(pattern, Seq::empty());
            assert(text_field(1, pattern) + Seq::<FieldModel>::empty() =~= text_field(
                1,
                pattern,
            ));
        },
        RequestModel::Punsubscribe { pattern, id } => {
            lemma_text_and_id(pattern, id);
        },
    }
}

/// Two texts, written under 1 and 2, are read back.
pub proof fn lemma_two_texts(a: Seq<char>, b: Seq<char>)
    ensures
        two_texts(text_field(1, a) + text_field(2, b)) == Some((a, b)),
{
    lemma_text_field(Seq::empty(), 1, a);
    lemma_text_field(text_field(1, a), 2, b);
    lemma_first_text(a, text_field(2, b));
}

/// A text and a list of texts, written under 1 and 2, are read back.
pub proof fn lemma_text_and_texts(a: Seq<char>, items: Seq<Seq<char>>)
    ensures
        text_and_texts(text_field(1, a) + blob_fields(2, text_blobs(items))) == Some((a, items)),
{
    lemma_text_field(Seq::empty(), 1, a);
    lemma_blob_fields(text_field(1, a), 2, text_blobs(items));
    lemma_first_text(a, blob_fields(2, text_blobs(items)));
    lemma_texts_round_trip(items);
}

/// A text and an id, written under 1 and 2, are read back.
pub proof fn lemma_text_and_id(a: Seq<char>, id: u32)
    ensures
        text_and_id(text_field(1, a) + number_field(2, id as u64)) == Some((a, id)),
{
    lemma_text_field(Seq::empty(), 1, a);
    lemma_number_field(2, id as u64);
    lemma_first_text(a, number_field(2, id as u64));
    lemma_number_found(text_field(1, a), 2, id as u64);
}

/// The bytes of a request stand for that request.
pub proof fn lemma_request_round_trip(r: RequestModel)
    requires
        request_fits(r),
    ensures
        request_parsed(request_wire(r)) == Some(r),
{
    let fields = request_fields(r);
    lemma_fields_round_trip(fields);
    if !(r is Empty) {
        assert(fields.last() == fields[0]);
        lemma_fields_round_trip(body_fields(r));
        lemma_body_round_trip(r);
    }
}

/// A command's own fields and the number it goes under.
fn body_to_fields(data: &RequestData) -> (r: (u32, Vec<Field>))
    ensures
        r.0 == request_number(data@),
        1 <= r.0 <= 14,
        field_models(r.1@) == body_fields(data@),
        body_fits(data@),
{
    let mut fields: Vec<Field> = Vec::new();
    proof {
        assert(field_models(fields@) =~= Seq::<FieldModel>::empty());
    }
    let number: u32 = match data {
        RequestData::Hget(c) => {
            push_text(&mut fields, 1, c.table.as_str());
            push_text(&mut fields, 2, c.key.as_str());
            1
        },
        RequestData::Hmget(c) => {
            push_text(&mut fields, 1, c.table.as_str());
            push_texts(&mut fields, 2, &c.keys);
            2
        },
        RequestData::Hgetall(c) => {
            push_text(&mut fields, 1, c.table.as_str());
            3
        },
        RequestData::Hset(c) => {
            push_text(&mut fields, 1, c.table.as_str());
            match &c.pair {
                Some(p) => {
                    push_blob(&mut fields, 2, encode_pair(p));
                },
                None => {
                    proof {
                        assert(field_models(fields@) + maybe_blob_field(2, None) =~= field_models(
                            fields@,
                        ));
                    }
                },
            }
            4
        },
        RequestData::Hmset(c) => {
            push_text(&mut fields, 1, c.table.as_str());
            push_pairs(&mut fields, 2, &c.pairs);
            5
        },
        RequestData::Hdel(c) => {
            push_text(&mut fields, 1, c.table.as_str());
            push_text(&mut fields, 2, c.key.as_str());
            6
        },
        RequestData::Hmdel(c) => {
            push_text(&mut fields, 1, c.table.as_str());
            push_texts(&mut fields, 2, &c.keys);
            7
        },
        RequestData::Hexist(c) => {
            push_text(&mut fields, 1, c.table.as_str());
            push_text(&mut fields, 2, c.key.as_str());
            8
        },
        RequestData::Hmexist(c) => {
            push_text(&mut fields, 1, c.table.as_str());
            push_texts(&mut fields, 2, &c.keys);
            9
        },
        RequestData::Subscribe(c) => {
            push_text(&mut fields, 1, c.topic.as_str());
            10
        },
        RequestData::Unsubscribe(c) => {
            push_text(&mut fields, 1, c.topic.as_str());
            push_number(&mut fields, 2, c.id as u64);
            11
        },
        RequestData::Publish(c) => {
            push_text(&mut fields, 1, c.topic.as_str());
            push_values(&mut fields, 2, &c.value);
            12
        },
        RequestData::Psubscribe(c) => {
            push_text(&mut fields, 1, c.pattern.as_str());
            13
        },
        RequestData::Punsubscribe(c) => {
            push_text(&mut fields, 1, c.pattern.as_str());
            push_number(&mut fields, 2, c.id as u64);
            14
        },
    };
    proof {
        assert(field_models(fields@) =~= body_fields(data@));
    }
    (number, fields)
}

/// The bytes of a request.
pub fn encode_request(r: &CommandRequest) -> (bytes: Vec<u8>)
    ensures
        bytes@ == request_wire(r@),
        request_fits(r@),
{
    let mut fields: Vec<Field> = Vec::new();
    match &r.request_data {
        None => {},
        Some(data) => {
            let (number, body) = body_to_fields(data);
            fields.push(bytes_field(number, serialize(&body)));
        },
    }
    proof {
        assert(field_models(fields@) =~= request_fields(r@));
    }
    serialize(&fields)
}

/// The two texts of a command that has two.
fn take_two_texts(fields: &Vec<Field>) -> (r: Option<(String, String)>)
    ensures
        match two_texts(field_models(fields@)) {
            Some((a, b)) => r matches Some((x, y)) && x@ == a && y@ == b,
            None => r is None,
        },
{
    match (take_text(fields, 1), take_text(fields, 2)) {
        (Some(a), Some(b)) => Some((a, b)),
        _ => None,
    }
}

/// The text and the list of texts of a command that has them.
fn take_text_and_texts(fields: &Vec<Field>) -> (r: Option<(String, Vec<String>)>)
    ensures
        match text_and_texts(field_models(fields@)) {
            Some((a, items)) => r matches Some((x, found)) && x@ == a && texts(found@) == items,
            None => r is None,
        },
{
    match (take_text(fields, 1), take_texts(fields, 2)) {
        (Some(a), Some(items)) => Some((a, items)),
        _ => None,
    }
}

/// The text and the id of a command that has them.
fn take_text_and_id(fields: &Vec<Field>) -> (r: Option<(String, u32)>)
    ensures
        match text_and_id(field_models(fields@)) {
            Some((a, id)) => r matches Some((x, found)) && x@ == a && found == id,
            None => r is None,
        },
{
    match (take_text(fields, 1), last_number(fields, 2)) {
        (Some(a), Some(v)) => Some((a, (v % 0x1_0000_0000) as u32)),
        _ => None,
    }
}

/// The command numbered `number` that a run of fields stands for.
fn body_from_fields(number: u32, fields: &Vec<Field>) -> (r: Option<RequestData>)
    ensures
        match body_from(number, field_models(fields@)) {
            Some(m) => r matches Some(data) && data@ == m,
            None => r is None,
        },
{
    if number == 1 {
        match take_two_texts(fields) {
            Some((table, key)) => Some(RequestData::Hget(Hget { table, key })),
            None => None,
        }
    } else if number == 2 {
        match take_text_and_texts(fields) {
            Some((table, keys)) => Some(RequestData::Hmget(Hmget { table, keys })),
            None => None,
        }
    } else if number == 3 {
        match take_text(fields, 1) {
            Some(table) => Some(RequestData::Hgetall(Hgetall { table })),
            None => None,
        }
    } else if number == 4 {
        match (take_text(fields, 1), take_blob(fields, 2)) {
            (Some(table), Some(None)) => Some(RequestData::Hset(Hset { table, pair: None })),
            (Some(table), Some(Some(bytes))) => match decode_pair(bytes.as_slice()) {
                Some(p) => Some(RequestData::Hset(Hset { table, pair: Some(p) })),
                None => None,
            },
            _ => None,
        }
    } else if number == 5 {
        match (take_text(fields, 1), take_pairs(fields, 2)) {
            (Some(table), Some(pairs)) => Some(RequestData::Hmset(Hmset { table, pairs })),
            _ => None,
        }
    } else if number == 6 {
        match take_two_texts(fields) {
            Some((table, key)) => Some(RequestData::Hdel(Hdel { table, key })),
            None => None,
        }
    } else if number == 7 {
        match take_text_and_texts(fields) {
            Some((table, keys)) => Some(RequestData::Hmdel(Hmdel { table, keys })),
            None => None,
        }
    } else if number == 8 {
        match take_two_texts(fields) {
            Some((table, key)) => Some(RequestData::Hexist(Hexist { table, key })),
            None => None,
        }
    } else if number == 9 {
        match take_text_and_texts(fields) {
            Some((table, keys)) => Some(RequestData::Hmexist(Hmexist { table, keys })),
            None => None,
        }
    } else if number == 10 {
        match take_text(fields, 1) {
            Some(topic) => Some(RequestData::Subscribe(Subscribe { topic })),
            None => None,
        }
    } else if number == 11 {
        match take_text_and_id(fields) {
            Some((topic, id)) => Some(RequestData::Unsubscribe(Unsubscribe { topic, id })),
            None => None,
        }
    } else if number == 12 {
        match (take_text(fields, 1), take_values(fields, 2)) {
            (Some(topic), Some(value)) => Some(RequestData::Publish(Publish { topic, value })),
            _ => None,
        }
    } else if number == 13 {
        match take_text(fields, 1) {
            Some(pattern) => Some(RequestData::Psubscribe(PSubscribe { pattern })),
            None => None,
        }
    } else if number == 14 {
        match take_text_and_id(fields) {
            Some((pattern, id)) => Some(RequestData::Punsubscribe(PUnsubscribe { pattern, id })),
            None => None,
        }
    } else {
        None
    }
}

/// The request that bytes stand for, if they stand for one.
pub fn decode_request(bytes: &[u8]) -> (r: Option<CommandRequest>)
    ensures
        match request_parsed(bytes@) {
            Some(m) => r matches Some(v) && v@ == m,
            None => r is None,
        },
{
    let fields = match parse(bytes) {
        Some(fields) => fields,
        None => {
            return None;
        },
    };
    match last_position(&fields, 1, 14) {
        None => Some(CommandRequest { request_data: None }),
        Some(at) => match &fields[at].data {
            Payload::Bytes(b) => match parse(b.as_slice()) {
                Some(inner) => match body_from_fields(fields[at].number, &inner) {
                    Some(data) => Some(CommandRequest { request_data: Some(data) }),
                    None => None,
                },
                None => None,
            },
            _ => None,
        },
    }
}

} // verus!
