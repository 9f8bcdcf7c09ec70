//! Looking fields up by number in a run of fields.

use vstd::prelude::*;

use super::wire::{DataModel, Field, FieldModel, Payload, field_models};

verus! {

/// The byte strings of the fields numbered `number`, in order; `None` where a
/// field of that number carries something else.
pub open spec fn blobs_of(fields: Seq<FieldModel>, number: u32) -> Option<Seq<Seq<u8>>>
    decreases fields.len(),
{
    if fields.len() == 0 {
        Some(Seq::empty())
    } else {
        match blobs_of(fields.drop_last(), number) {
            None => None,
            Some(found) => if fields.last().number != number {
                Some(found)
            } else {
                match fields.last().data {
                    DataModel::Bytes(b) => Some(found.push(b)),
                    _ => None,
                }
            },
        }
    }
}

/// The number carried by the last field numbered `number`, 0 where there is no
/// such field; `None` where a field of that number carries something else.
pub open spec fn number_of(fields: Seq<FieldModel>, number: u32) -> Option<u64>
    decreases fields.len(),
{
    if fields.len() == 0 {
        Some(0)
    } else {
        match number_of(fields.drop_last(), number) {
            None => None,
            Some(found) => if fields.last().number != number {
                Some(found)
            } else {
                match fields.last().data {
                    DataModel::Varint(v) => Some(v),
                    _ => None,
                }
            },
        }
    }
}

/// The last field whose number is from `low` to `high`, if there is one.
pub open spec fn last_of(fields: Seq<FieldModel>, low: u32, high: u32) -> Option<FieldModel>
    decreases fields.len(),
{
    if fields.len() == 0 {
        None
    } else if low <= fields.last().number <= high {
        Some(fields.last())
    } else {
        last_of(fields.drop_last(), low, high)
    }
}

/// The run of fields numbered `number` that carry `blobs`, in order.
pub open spec fn blob_fields(number: u32, blobs: Seq<Seq<u8>>) -> Seq<FieldModel> {
    Seq::new(blobs.len(), |i: int| FieldModel { number, data: DataModel::Bytes(blobs[i]) })
}

/// The run of fields that carries a byte string which is left out when empty.
pub open spec fn blob_field(number: u32, blob: Seq<u8>) -> Seq<FieldModel> {
    if blob.len() == 0 {
        Seq::empty()
    } else {
        seq![FieldModel { number, data: DataModel::Bytes(blob) }]
    }
}

/// The run of fields that carries a number which is left out when 0.
pub open spec fn number_field(number: u32, v: u64) -> Seq<FieldModel> {
    if v == 0 {
        Seq::empty()
    } else {
        seq![FieldModel { number, data: DataModel::Varint(v) }]
    }
}

/// Whether no field of the run has the number `number`.
pub open spec fn lacks(fields: Seq<FieldModel>, number: u32) -> bool {
    forall|i: int| 0 <= i < fields.len() ==> (#[trigger] fields[i]).number != number
}

/// Whether every field of the run has the number `number` and carries bytes.
pub open spec fn only_blobs(fields: Seq<FieldModel>, number: u32) -> bool {
    forall|i: int|
        0 <= i < fields.len() ==> (#[trigger] fields[i]).number == number
            && fields[i].data is Bytes
}

/// The byte strings a run of byte-string fields carries.
pub open spec fn carried(fields: Seq<FieldModel>) -> Seq<Seq<u8>> {
    Seq::new(fields.len(), |i: int| fields[i].data->Bytes_0)
}

/// A run without the number sought adds nothing to what is found before it.
pub proof fn lemma_lookup_skips(a: Seq<FieldModel>, b: Seq<FieldModel>, number: u32)
    requires
        lacks(b, number),
    ensures
        blobs_of(a + b, number) == blobs_of(a, number),
        number_of(a + b, number) == number_of(a, number),
    decreases b.len(),
{
    if b.len() == 0 {
        assert(a + b =~= a);
    } else {
        assert((a + b).drop_last() =~= a + b.drop_last());
        assert((a + b).last() == b.last());
        assert(lacks(b.drop_last(), number)) by {
            assert forall|i: int| 0 <= i < b.drop_last().len() implies (
            #[trigger] b.drop_last()[i]).number != number by {
                assert(b.drop_last()[i] == b[i]);
            }
        }
        lemma_lookup_skips(a, b.drop_last(), number);
    }
}

/// A run of byte-string fields of the number sought, behind a run without that
/// number, is found whole.
pub proof fn lemma_blobs_found(a: Seq<FieldModel>, b: Seq<FieldModel>, number: u32)
    requires
        lacks(a, number),
        only_blobs(b, number),
    ensures
        blobs_of(a + b, number) == Some(carried(b)),
    decreases b.len(),
{
    if b.len() == 0 {
        assert(a + b =~= a);
        lemma_nothing_found(a, number);
        assert(carried(b) =~= Seq::<Seq<u8>>::empty());
    } else {
        assert((a + b).drop_last() =~= a + b.drop_last());
        assert((a + b).last() == b.last());
        assert(only_blobs(b.drop_last(), number)) by {
            assert forall|i: int| 0 <= i < b.drop_last().len() implies (
            #[trigger] b.drop_last()[i]).number == number && b.drop_last()[i].data is Bytes by {
                assert(b.drop_last()[i] == b[i]);
            }
        }
        lemma_blobs_found(a, b.drop_last(), number);
        assert(carried(b.drop_last()).push(b.last().data->Bytes_0) =~= carried(b));
    }
}

/// In a run without the number sought, nothing is found.
pub proof fn lemma_nothing_found(a: Seq<FieldModel>, number: u32)
    requires
        lacks(a, number),
    ensures
        blobs_of(a, number) == Some(Seq::<Seq<u8>>::empty()),
        number_of(a, number) == Some(0u64),
    decreases a.len(),
{
    if a.len() > 0 {
        assert(lacks(a.drop_last(), number)) by {
            assert forall|i: int| 0 <= i < a.drop_last().len() implies (
            #[trigger] a.drop_last()[i]).number != number by {
                assert(a.drop_last()[i] == a[i]);
            }
        }
        lemma_nothing_found(a.drop_last(), number);
    }
}

/// A number field behind a run without its number is found.
pub proof fn lemma_number_found(a: Seq<FieldModel>, number: u32, v: u64)
    requires
        lacks(a, number),
    ensures
        number_of(a + number_field(number, v), number) == Some(v),
{
    let b = number_field(number, v);
    if v == 0 {
        assert(a + b =~= a);
        lemma_nothing_found(a, number);
    } else {
        assert((a + b).drop_last() =~= a);
        assert((a + b).last() == b[0]);
        lemma_nothing_found(a, number);
    }
}

/// The positions of the fields numbered `number`, in order; `None` where one
/// of them does not carry bytes.
pub fn blob_positions(fields: &Vec<Field>, number: u32) -> (r: Option<Vec<usize>>)
    ensures
        match blobs_of(field_models(fields@), number) {
            Some(blobs) => r matches Some(at) && at@.len() == blobs.len() && forall|j: int|
                0 <= j < at@.len() ==> (#[trigger] at@[j]) < fields@.len()
                    && fields@[at@[j] as int]@.data == DataModel::Bytes(blobs[j]),
            None => r is None,
        },
{
    let ghost models = field_models(fields@);
    let mut at: Vec<usize> = Vec::new();
    let mut i: usize = 0;
    while i < fields.len()
        invariant
            0 <= i <= fields.len(),
            models == field_models(fields@),
            blobs_of(models.take(i as int), number) matches Some(blobs) && at@.len() == blobs.len()
                && forall|j: int|
                0 <= j < at@.len() ==> (#[trigger] at@[j]) < fields@.len()
                    && fields@[at@[j] as int]@.data == DataModel::Bytes(blobs[j]),
        decreases fields.len() - i,
    {
        proof {
            assert(models.take(i + 1).drop_last() =~= models.take(i as int));
            assert(models.take(i + 1).last() == fields@[i as int]@);
        }
        if fields[i].number == number {
            match &fields[i].data {
                Payload::Bytes(_) => {
                    at.push(i);
                },
                _ => {
                    proof {
                        lemma_blobs_lost(models, i + 1, number);
                    }
                    return None;
                },
            }
        }
        i = i + 1;
    }
    proof {
        assert(models.take(i as int) =~= models);
    }
    Some(at)
}

/// Once a prefix of a run has a field of the number sought that carries no
/// bytes, the whole run has.
pub proof fn lemma_blobs_lost(fields: Seq<FieldModel>, n: int, number: u32)
    requires
        0 <= n <= fields.len(),
        blobs_of(fields.take(n), number) is None,
    ensures
        blobs_of(fields, number) is None,
    decreases fields.len() - n,
{
    if n < fields.len() {
        assert(fields.take(n + 1).drop_last() =~= fields.take(n));
        lemma_blobs_lost(fields, n + 1, number);
    } else {
        assert(fields.take(n) =~= fields);
    }
}

/// Once a prefix of a run has a field of the number sought that carries no
/// number, the whole run has.
pub proof fn lemma_number_lost(fields: Seq<FieldModel>, n: int, number: u32)
    requires
        0 <= n <= fields.len(),
        number_of(fields.take(n), number) is None,
    ensures
        number_of(fields, number) is None,
    decreases fields.len() - n,
{
    if n < fields.len() {
        assert(fields.take(n + 1).drop_last() =~= fields.take(n));
        lemma_number_lost(fields, n + 1, number);
    } else {
        assert(fields.take(n) =~= fields);
    }
}

/// The number carried by the last field numbered `number`, 0 where there is no
/// such field; `None` where a field of that number carries something else.
pub fn last_number(fields: &Vec<Field>, number: u32) -> (r: Option<u64>)
    ensures
        r == number_of(field_models(fields@), number),
{
    let ghost models = field_models(fields@);
    let mut found: u64 = 0;
    let mut i: usize = 0;
    while i < fields.len()
        invariant
            0 <= i <= fields.len(),
            models == field_models(fields@),
            number_of(models.take(i as int), number) == Some(found),
        decreases fields.len() - i,
    {
        proof {
            assert(models.take(i + 1).drop_last() =~= models.take(i as int));
            assert(models.take(i + 1).last() == fields@[i as int]@);
        }
        if fields[i].number == number {
            match &fields[i].data {
                Payload::Varint(v) => {
                    found = *v;
                },
                _ => {
                    proof {
                        lemma_number_lost(models, i + 1, number);
                    }
                    return None;
                },
            }
        }
        i = i + 1;
    }
    proof {
        assert(models.take(i as int) =~= models);
    }
    Some(found)
}

/// The position of the last field whose number is from `low` to `high`, if
/// there is one.
pub fn last_position(fields: &Vec<Field>, low: u32, high: u32) -> (r: Option<usize>)
    ensures
        match last_of(field_models(fields@), low, high) {
            Some(f) => r matches Some(at) && at < fields@.len() && fields@[at as int]@ == f,
            None => r is None,
        },
{
    let ghost models = field_models(fields@);
    let mut i: usize = fields.len();
    proof {
        assert(models.take(i as int) =~= models);
    }
    while i > 0
        invariant
            0 <= i <= fields.len(),
            models == field_models(fields@),
            last_of(models, low, high) == last_of(models.take(i as int), low, high),
        decreases i,
    {
        proof {
            assert(models.take(i as int).drop_last() =~= models.take(i - 1));
            assert(models.take(i as int).last() == fields@[i - 1]@);
        }
        if low <= fields[i - 1].number && fields[i - 1].number <= high {
            return Some(i - 1);
        }
        i = i - 1;
    }
    proof {
        assert(models.take(0) =~= Seq::<FieldModel>::empty());
    }
    None
}

} // verus!
