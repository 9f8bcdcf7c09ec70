//! How pairs and lists of texts, values and pairs are laid out as fields.

use vstd::prelude::*;
use vstd::utf8::{decode_utf8, encode_utf8, encode_utf8_decode_utf8, encode_utf8_valid_utf8, valid_utf8};

use super::codec::{
    lemma_value_round_trip, text_field, text_of, value_fits, value_parsed, value_wire,
};
use super::fields::{
    blob_fields, blobs_of, carried, lacks, lemma_blobs_found, lemma_lookup_skips, number_field,
    only_blobs,
};
use super::model::{texts, PairModel, ValueModel};
use super::wire::{
    fields_bytes, fields_ok, lemma_fields_round_trip, parse_fields, DataModel, FieldModel,
};

verus! {

/// The byte string carried by the last field numbered `number`, if there is
/// such a field.
pub open spec fn blob_of(fields: Seq<FieldModel>, number: u32) -> Option<Option<Seq<u8>>> {
    match blobs_of(fields, number) {
        None => None,
        Some(blobs) => if blobs.len() == 0 {
            Some(None)
        } else {
            Some(Some(blobs.last()))
        },
    }
}

/// The run of fields that carries a byte string which may be absent.
pub open spec fn maybe_blob_field(number: u32, blob: Option<Seq<u8>>) -> Seq<FieldModel> {
    match blob {
        None => Seq::empty(),
        Some(b) => seq![FieldModel { number, data: DataModel::Bytes(b) }],
    }
}

/// The byte strings that encode texts.
pub open spec fn text_blobs(items: Seq<Seq<char>>) -> Seq<Seq<u8>> {
    Seq::new(items.len(), |i: int| encode_utf8(items[i]))
}

/// The texts that byte strings encode, if each encodes one.
pub open spec fn texts_from(blobs: Seq<Seq<u8>>) -> Option<Seq<Seq<char>>> {
    if forall|i: int| 0 <= i < blobs.len() ==> valid_utf8(#[trigger] blobs[i]) {
        Some(Seq::new(blobs.len(), |i: int| decode_utf8(blobs[i])))
    } else {
        None
    }
}

/// The byte strings of values.
pub open spec fn value_blobs(items: Seq<ValueModel>) -> Seq<Seq<u8>> {
    Seq::new(items.len(), |i: int| value_wire(items[i]))
}

/// The values that byte strings stand for, if each stands for one.
pub open spec fn values_from(blobs: Seq<Seq<u8>>) -> Option<Seq<ValueModel>> {
    if forall|i: int| 0 <= i < blobs.len() ==> value_parsed(#[trigger] blobs[i]) is Some {
        Some(Seq::new(blobs.len(), |i: int| value_parsed(blobs[i])->Some_0))
    } else {
        None
    }
}

/// Whether each of the values is small enough to be written.
pub open spec fn values_fit(items: Seq<ValueModel>) -> bool {
    forall|i: int|
        0 <= i < items.len() ==> value_fits(#[trigger] items[i]) && value_wire(items[i]).len()
            <= u64::MAX
}

/// The fields of a pair: the key under 1, the value under 2.
pub open spec fn pair_fields(p: PairModel) -> Seq<FieldModel> {
    text_field(1, p.key) + maybe_blob_field(
        2,
        match p.value {
            None => None,
            Some(v) => Some(value_wire(v)),
        },
    )
}

/// The pair that a run of fields stands for.
pub open spec fn pair_from(fields: Seq<FieldModel>) -> Option<PairModel> {
    match (text_of(fields, 1), blob_of(fields, 2)) {
        (Some(key), Some(None)) => Some(PairModel { key, value: None }),
        (Some(key), Some(Some(b))) => match value_parsed(b) {
            Some(v) => Some(PairModel { key, value: Some(v) }),
            None => None,
        },
        _ => None,
    }
}

/// The bytes of a pair.
pub open spec fn pair_wire(p: PairModel) -> Seq<u8> {
    fields_bytes(pair_fields(p))
}

/// The pair that bytes stand for, if they stand for one.
pub open spec fn pair_parsed(bytes: Seq<u8>) -> Option<PairModel> {
    match parse_fields(bytes) {
        Some(fields) => pair_from(fields),
        None => None,
    }
}

/// Whether a pair is small enough to be written.
pub open spec fn pair_fits(p: PairModel) -> bool {
    &&& fields_ok(pair_fields(p))
    &&& p.value matches Some(v) ==> value_fits(v)
}

/// The byte strings of pairs.
pub open spec fn pair_blobs(items: Seq<PairModel>) -> Seq<Seq<u8>> {
    Seq::new(items.len(), |i: int| pair_wire(items[i]))
}

/// The pairs that byte strings stand for, if each stands for one.
pub open spec fn pairs_from(blobs: Seq<Seq<u8>>) -> Option<Seq<PairModel>> {
    if forall|i: int| 0 <= i < blobs.len() ==> pair_parsed(#[trigger] blobs[i]) is Some {
        Some(Seq::new(blobs.len(), |i: int| pair_parsed(blobs[i])->Some_0))
    } else {
        None
    }
}

/// Whether each of the pairs is small enough to be written.
pub open spec fn pairs_fit(items: Seq<PairModel>) -> bool {
    forall|i: int|
        0 <= i < items.len() ==> pair_fits(#[trigger] items[i]) && pair_wire(items[i]).len()
            <= u64::MAX
}

/// A text field is found under its number and nowhere else.
pub proof fn lemma_text_field(before: Seq<FieldModel>, number: u32, text: Seq<char>)
    requires
        lacks(before, number),
    ensures
        text_of(before + text_field(number, text), number) == Some(text),
        only_blobs(text_field(number, text), number),
        forall|other: u32| other != number ==> lacks(text_field(number, text), other),
{
    let field = text_field(number, text);
    lemma_blobs_found(before, field, number);
    encode_utf8_valid_utf8(text);
    encode_utf8_decode_utf8(text);
    if text.len() == 0 {
        assert(carried(field) =~= Seq::<Seq<u8>>::empty());
        assert(text =~= Seq::<char>::empty());
    } else {
        assert(carried(field).last() == encode_utf8(text));
    }
}

/// A field that may be absent is found under its number and nowhere else.
pub proof fn lemma_maybe_blob_field(before: Seq<FieldModel>, number: u32, blob: Option<Seq<u8>>)
    requires
        lacks(before, number),
    ensures
        blob_of(before + maybe_blob_field(number, blob), number) == Some(blob),
        only_blobs(maybe_blob_field(number, blob), number),
        forall|other: u32| other != number ==> lacks(maybe_blob_field(number, blob), other),
{
    let field = maybe_blob_field(number, blob);
    lemma_blobs_found(before, field, number);
    match blob {
        None => {
            assert(carried(field) =~= Seq::<Seq<u8>>::empty());
        },
        Some(b) => {
            assert(carried(field).last() == b);
        },
    }
}

/// A run of byte-string fields is found under its number and nowhere else.
pub proof fn lemma_blob_fields(before: Seq<FieldModel>, number: u32, blobs: Seq<Seq<u8>>)
    requires
        lacks(before, number),
    ensures
        blobs_of(before + blob_fields(number, blobs), number) == Some(blobs),
        only_blobs(blob_fields(number, blobs), number),
        forall|other: u32| other != number ==> lacks(blob_fields(number, blobs), other),
{
    let fields = blob_fields(number, blobs);
    lemma_blobs_found(before, fields, number);
    assert(carried(fields) =~= blobs);
}

/// A number field is found nowhere but under its number.
pub proof fn lemma_number_field(number: u32, v: u64)
    ensures
        forall|other: u32| other != number ==> lacks(number_field(number, v), other),
{
}

/// Two runs that both lack a number lack it joined.
pub proof fn lemma_lacks_add(a: Seq<FieldModel>, b: Seq<FieldModel>, number: u32)
    requires
        lacks(a, number),
        lacks(b, number),
    ensures
        lacks(a + b, number),
{
}

/// The bytes of a pair stand for that pair.
pub proof fn lemma_pair_round_trip(p: PairModel)
    requires
        pair_fits(p),
    ensures
        pair_parsed(pair_wire(p)) == Some(p),
{
    let key = text_field(1, p.key);
    let blob = match p.value {
        None => None,
        Some(v) => Some(value_wire(v)),
    };
    let value = maybe_blob_field(2, blob);
    let fields = pair_fields(p);
    lemma_fields_round_trip(fields);
    lemma_text_field(Seq::empty(), 1, p.key);
    lemma_maybe_blob_field(key, 2, blob);
    assert(Seq::<FieldModel>::empty() + key =~= key);
    lemma_lookup_skips(key, value, 1);
    match p.value {
        None => {},
        Some(v) => {
            lemma_value_round_trip(v);
        },
    }
}

/// The byte strings of texts stand for those texts.
pub proof fn lemma_texts_round_trip(items: Seq<Seq<char>>)
    ensures
        texts_from(text_blobs(items)) == Some(items),
{
    let blobs = text_blobs(items);
    assert forall|i: int| 0 <= i < blobs.len() implies valid_utf8(#[trigger] blobs[i]) by {
        encode_utf8_valid_utf8(items[i]);
    }
    assert forall|i: int| 0 <= i < blobs.len() implies decode_utf8(#[trigger] blobs[i])
        == items[i] by {
        encode_utf8_decode_utf8(items[i]);
    }
    assert(Seq::new(blobs.len(), |i: int| decode_utf8(blobs[i])) =~= items);
}

/// The byte strings of values stand for those values.
pub proof fn lemma_values_round_trip(items: Seq<ValueModel>)
    requires
        values_fit(items),
    ensures
        values_from(value_blobs(items)) == Some(items),
{
    let blobs = value_blobs(items);
    assert forall|i: int| 0 <= i < blobs.len() implies value_parsed(#[trigger] blobs[i]) == Some(
        items[i],
    ) by {
        lemma_value_round_trip(items[i]);
    }
    assert(Seq::new(blobs.len(), |i: int| value_parsed(blobs[i])->Some_0) =~= items);
}

/// The byte strings of pairs stand for those pairs.
pub proof fn lemma_pairs_round_trip(items: Seq<PairModel>)
    requires
        pairs_fit(items),
    ensures
        pairs_from(pair_blobs(items)) == Some(items),
{
    let blobs = pair_blobs(items);
    assert forall|i: int| 0 <= i < blobs.len() implies pair_parsed(#[trigger] blobs[i]) == Some(
        items[i],
    ) by {
        lemma_pair_round_trip(items[i]);
    }
    assert(Seq::new(blobs.len(), |i: int| pair_parsed(blobs[i])->Some_0) =~= items);
}

} // verus!
