//! How requests and responses are laid out as fields.

use vstd::prelude::*;

use super::abi::CommandResponse;
use super::codec::{text_field, text_of};
use super::fields::{
    blob_fields, blobs_of, last_number, lemma_lookup_skips, lemma_number_found, number_field,
    number_of,
};
use super::model::ResponseModel;
use super::records::{
    push_number, push_pairs, push_text, push_values, take_pairs, take_text, take_values,
};
use super::schema::{
    lemma_blob_fields, lemma_lacks_add, lemma_number_field, lemma_pairs_round_trip,
    lemma_text_field, lemma_values_round_trip, pair_blobs, pairs_fit, pairs_from, value_blobs,
    values_fit, values_from,
};
use super::wire::{
    field_models, fields_bytes, fields_ok, lemma_fields_round_trip, parse, parse_fields, serialize,
    Field, FieldModel,
};

verus! {

/// The fields of a response: status under 1, message under 2, values under 3,
/// pairs under 4.
pub open spec fn response_fields(r: ResponseModel) -> Seq<FieldModel> {
    number_field(1, r.status as u64) + text_field(2, r.message) + blob_fields(
        3,
        value_blobs(r.values),
    ) + blob_fields(4, pair_blobs(r.kvpairs))
}

/// The response that a run of fields stands for.
pub open spec fn response_from(fields: Seq<FieldModel>) -> Option<ResponseModel> {
    match (
        number_of(fields, 1),
        text_of(fields, 2),
        blobs_of(fields, 3),
        blobs_of(fields, 4),
    ) {
        (Some(status), Some(message), Some(vs), Some(ps)) => match (
            values_from(vs),
            pairs_from(ps),
        ) {
            (Some(values), Some(kvpairs)) => Some(
                ResponseModel {
                    status: (status % 0x1_0000_0000) as u32,
                    message,
                    values,
                    kvpairs,
                },
            ),
            _ => None,
        },
        _ => None,
    }
}

/// The bytes of a response.
pub open spec fn response_wire(r: ResponseModel) -> Seq<u8> {
    fields_bytes(response_fields(r))
}

/// The response that bytes stand for, if they stand for one.
pub open spec fn response_parsed(bytes: Seq<u8>) -> Option<ResponseModel> {
    match parse_fields(bytes) {
        Some(fields) => response_from(fields),
        None => None,
    }
}

/// Whether a response is small enough to be written.
pub open spec fn response_fits(r: ResponseModel) -> bool {
    &&& fields_ok(response_fields(r))
    &&& values_fit(r.values)
    &&& pairs_fit(r.kvpairs)
}

/// The bytes of a response stand for that response.
pub proof fn lemma_response_round_trip(r: ResponseModel)
    requires
        response_fits(r),
    ensures
        response_parsed(response_wire(r)) == Some(r),
{
    let g1 = number_field(1, r.status as u64);
    let g2 = text_field(2, r.message);
    let g3 = blob_fields(3, value_blobs(r.values));
    let g4 = blob_fields(4, pair_blobs(r.kvpairs));
    let fields = response_fields(r);
    lemma_fields_round_trip(fields);
    lemma_number_field(1, r.status as u64);
    lemma_text_field(g1, 2, r.message);
    lemma_lacks_add(g1, g2, 3);
    lemma_blob_fields(g1 + g2, 3, value_blobs(r.values));
    lemma_lacks_add(g1, g2, 4);
    lemma_lacks_add(g1 + g2, g3, 4);
    lemma_blob_fields(g1 + g2 + g3, 4, pair_blobs(r.kvpairs));
    // status
    lemma_lookup_skips(g1 + g2 + g3, g4, 1);
    lemma_lookup_skips(g1 + g2, g3, 1);
    lemma_lookup_skips(g1, g2, 1);
    lemma_number_found(Seq::empty(), 1, r.status as u64);
    assert(Seq::<FieldModel>::empty() + g1 =~= g1);
    // message
    lemma_lookup_skips(g1 + g2 + g3, g4, 2);
    lemma_lookup_skips(g1 + g2, g3, 2);
    // values
    lemma_lookup_skips(g1 + g2 + g3, g4, 3);
    lemma_values_round_trip(r.values);
    lemma_pairs_round_trip(r.kvpairs);
}

/// The fields of a response.
pub fn response_to_fields(r: &CommandResponse) -> (fields: Vec<Field>)
    ensures
        field_models(fields@) == response_fields(r@),
        response_fits(r@),
{
    let mut fields: Vec<Field> = Vec::new();
    proof {
        assert(field_models(fields@) =~= Seq::<FieldModel>::empty());
    }
    push_number(&mut fields, 1, r.status as u64);
    push_text(&mut fields, 2, r.message.as_str());
    push_values(&mut fields, 3, &r.values);
    push_pairs(&mut fields, 4, &r.kvpairs);
    proof {
        assert(field_models(fields@) =~= response_fields(r@));
    }
    fields
}

/// The bytes of a response.
pub fn encode_response(r: &CommandResponse) -> (bytes: Vec<u8>)
    ensures
        bytes@ == response_wire(r@),
        response_fits(r@),
{
    serialize(&response_to_fields(r))
}

/// The response that a run of fields stands for.
pub fn response_from_fields(fields: &Vec<Field>) -> (r: Option<CommandResponse>)
    ensures
        match response_from(field_models(fields@)) {
            Some(m) => r matches Some(v) && v@ == m,
            None => r is None,
        },
{
    let status = match last_number(fields, 1) {
        Some(v) => (v % 0x1_0000_0000) as u32,
        None => {
            return None;
        },
    };
    let message = match take_text(fields, 2) {
        Some(s) => s,
        None => {
            return None;
        },
    };
    let values = take_values(fields, 3);
    let kvpairs = take_pairs(fields, 4);
    match (values, kvpairs) {
        (Some(values), Some(kvpairs)) => Some(CommandResponse { status, message, values, kvpairs }),
        _ => None,
    }
}

/// The response that bytes stand for, if they stand for one.
pub fn decode_response(bytes: &[u8]) -> (r: Option<CommandResponse>)
    ensures
        match response_parsed(bytes@) {
            Some(m) => r matches Some(v) && v@ == m,
            None => r is None,
        },
{
    match parse(bytes) {
        Some(fields) => response_from_fields(&fields),
        None => None,
    }
}

} // verus!
