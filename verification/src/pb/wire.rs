//! The wire format of a message: a run of fields, each a numbered key followed
//! by a number, a fixed-width word or a length-prefixed byte string.

use vstd::prelude::*;
use vstd::slice::{slice_subrange, slice_to_vec};

use super::varint::{
    lemma_parse_varint_bounds, lemma_varint_round_trip, parse_varint, put_varint, read_varint,
    varint,
};

verus! {

/// What a field carries, as mathematics.
pub enum DataModel {
    Varint(u64),
    Fixed64(u64),
    Bytes(Seq<u8>),
    Fixed32(u32),
}

/// A field, as mathematics.
pub struct FieldModel {
    pub number: u32,
    pub data: DataModel,
}

/// What a field carries.
pub enum Payload {
    /// A base-128 number.
    Varint(u64),
    /// Eight bytes, least significant first.
    Fixed64(u64),
    /// A length and that many bytes.
    Bytes(Vec<u8>),
    /// Four bytes, least significant first.
    Fixed32(u32),
}

/// A field of a message.
pub struct Field {
    pub number: u32,
    pub data: Payload,
}

impl View for Field {
    type V = FieldModel;

    open spec fn view(&self) -> FieldModel {
        FieldModel { number: self.number, data: payload_model(self.data) }
    }
}

/// The fields a sequence of [`Field`]s stands for.
pub open spec fn field_models(fields: Seq<Field>) -> Seq<FieldModel> {
    Seq::new(fields.len(), |i: int| fields[i]@)
}

/// The first field number that is out of range.
pub const NUMBER_END: u32 = 0x2000_0000;

/// The wire type that goes into the key of a field.
pub open spec fn wire_type(data: DataModel) -> nat {
    match data {
        DataModel::Varint(_) => 0,
        DataModel::Fixed64(_) => 1,
        DataModel::Bytes(_) => 2,
        DataModel::Fixed32(_) => 5,
    }
}

/// The four bytes of `v`, least significant first.
pub open spec fn le32(v: nat) -> Seq<u8> {
    seq![
        (v % 0x100) as u8,
        ((v / 0x100) % 0x100) as u8,
        ((v / 0x1_0000) % 0x100) as u8,
        ((v / 0x100_0000) % 0x100) as u8,
    ]
}

/// The number whose four bytes, least significant first, `b` starts with.
pub open spec fn from_le32(b: Seq<u8>) -> nat {
    (b[0] + b[1] * 0x100 + b[2] * 0x1_0000 + b[3] * 0x100_0000) as nat
}

/// The eight bytes of `v`, least significant first.
pub open spec fn le64(v: nat) -> Seq<u8> {
    le32(v % 0x1_0000_0000) + le32(v / 0x1_0000_0000)
}

/// The number whose eight bytes, least significant first, `b` starts with.
pub open spec fn from_le64(b: Seq<u8>) -> nat {
    from_le32(b) + from_le32(b.skip(4)) * 0x1_0000_0000
}

/// The bytes of what a field carries.
pub open spec fn data_bytes(data: DataModel) -> Seq<u8> {
    match data {
        DataModel::Varint(v) => varint(v as nat),
        DataModel::Fixed64(v) => le64(v as nat),
        DataModel::Bytes(b) => varint(b.len()) + b,
        DataModel::Fixed32(v) => le32(v as nat),
    }
}

/// The bytes of a field.
pub open spec fn field_bytes(f: FieldModel) -> Seq<u8> {
    varint(f.number as nat * 8 + wire_type(f.data)) + data_bytes(f.data)
}

/// Whether a field can be written: its number is in range and its bytes can
/// be counted in 64 bits.
pub open spec fn field_ok(f: FieldModel) -> bool {
    &&& 1 <= f.number < NUMBER_END
    &&& f.data matches DataModel::Bytes(b) ==> b.len() <= u64::MAX
}

/// Whether every field of a run can be written.
pub open spec fn fields_ok(fields: Seq<FieldModel>) -> bool {
    forall|i: int| 0 <= i < fields.len() ==> field_ok(#[trigger] fields[i])
}

/// The bytes of a run of fields.
pub open spec fn fields_bytes(fields: Seq<FieldModel>) -> Seq<u8>
    decreases fields.len(),
{
    if fields.len() == 0 {
        Seq::empty()
    } else {
        field_bytes(fields[0]) + fields_bytes(fields.skip(1))
    }
}

/// What a field carries, read from `rest` by its wire type, with the number of
/// bytes it takes.
pub open spec fn parse_data(wire: nat, rest: Seq<u8>) -> Option<(DataModel, nat)> {
    if wire == 0 {
        match parse_varint(rest) {
            Some((v, n)) => Some((DataModel::Varint(v as u64), n)),
            None => None,
        }
    } else if wire == 1 {
        if rest.len() < 8 {
            None
        } else {
            Some((DataModel::Fixed64(from_le64(rest) as u64), 8))
        }
    } else if wire == 2 {
        match parse_varint(rest) {
            Some((len, n)) => if rest.len() - n < len {
                None
            } else {
                Some((DataModel::Bytes(rest.subrange(n as int, (n + len) as int)), n + len))
            },
            None => None,
        }
    } else if wire == 5 {
        if rest.len() < 4 {
            None
        } else {
            Some((DataModel::Fixed32(from_le32(rest) as u32), 4))
        }
    } else {
        None
    }
}

/// The field that `bytes` starts with and how many bytes it takes; `None`
/// where `bytes` starts with no field.
pub open spec fn parse_field(bytes: Seq<u8>) -> Option<(FieldModel, nat)> {
    match parse_varint(bytes) {
        Some((key, n)) => if key / 8 < 1 || key / 8 >= NUMBER_END {
            None
        } else {
            match parse_data(key % 8, bytes.skip(n as int)) {
                Some((data, m)) => Some((FieldModel { number: (key / 8) as u32, data }, n + m)),
                None => None,
            }
        },
        None => None,
    }
}

/// The run of fields that `bytes` is; `None` where it is none.
pub open spec fn parse_fields(bytes: Seq<u8>) -> Option<Seq<FieldModel>>
    decreases bytes.len(),
{
    if bytes.len() == 0 {
        Some(Seq::empty())
    } else {
        match parse_field(bytes) {
            Some((f, n)) => if n == 0 || n > bytes.len() {
                None
            } else {
                match parse_fields(bytes.skip(n as int)) {
                    Some(fields) => Some(seq![f] + fields),
                    None => None,
                }
            },
            None => None,
        }
    }
}

/// Four little-endian bytes read back give the number they were made of.
pub proof fn lemma_le32_round_trip(v: nat, rest: Seq<u8>)
    requires
        v <= u32::MAX,
    ensures
        le32(v).len() == 4,
        from_le32(le32(v) + rest) == v,
{
    let b = le32(v) + rest;
    assert(b[0] == le32(v)[0]);
    assert(b[1] == le32(v)[1]);
    assert(b[2] == le32(v)[2]);
    assert(b[3] == le32(v)[3]);
}

/// Eight little-endian bytes read back give the number they were made of.
pub proof fn lemma_le64_round_trip(v: nat, rest: Seq<u8>)
    requires
        v <= u64::MAX,
    ensures
        le64(v).len() == 8,
        from_le64(le64(v) + rest) == v,
{
    let low = v % 0x1_0000_0000;
    let high = v / 0x1_0000_0000;
    let b = le64(v) + rest;
    lemma_le32_round_trip(low, le32(high) + rest);
    lemma_le32_round_trip(high, rest);
    assert(b =~= le32(low) + (le32(high) + rest));
    assert(b.skip(4) =~= le32(high) + rest);
}

/// The bytes of a field, whatever follows them, parse as that field.
pub proof fn lemma_field_round_trip(f: FieldModel, rest: Seq<u8>)
    requires
        field_ok(f),
    ensures
        parse_field(field_bytes(f) + rest) == Some((f, field_bytes(f).len())),
        field_bytes(f).len() >= 1,
{
    let key = f.number as nat * 8 + wire_type(f.data);
    let data = data_bytes(f.data);
    let bytes = field_bytes(f) + rest;
    assert(bytes =~= varint(key) + (data + rest));
    lemma_varint_round_trip(key, data + rest, 0);
    assert(key / 8 == f.number);
    assert(key % 8 == wire_type(f.data));
    let n = varint(key).len();
    assert(bytes.skip(n as int) =~= data + rest);
    match f.data {
        DataModel::Varint(v) => {
            lemma_varint_round_trip(v as nat, rest, 0);
        },
        DataModel::Fixed64(v) => {
            lemma_le64_round_trip(v as nat, rest);
        },
        DataModel::Bytes(b) => {
            lemma_varint_round_trip(b.len(), b + rest, 0);
            assert(data + rest =~= varint(b.len()) + (b + rest));
            let m = varint(b.len()).len();
            assert((data + rest).subrange(m as int, (m + b.len()) as int) =~= b);
        },
        DataModel::Fixed32(v) => {
            lemma_le32_round_trip(v as nat, rest);
        },
    }
}

/// The bytes of a run of fields followed by the bytes of another are the
/// bytes of the two runs joined.
pub proof fn lemma_fields_bytes_add(a: Seq<FieldModel>, b: Seq<FieldModel>)
    ensures
        fields_bytes(a + b) == fields_bytes(a) + fields_bytes(b),
    decreases a.len(),
{
    if a.len() == 0 {
        assert(a + b =~= b);
        assert(fields_bytes(a) + fields_bytes(b) =~= fields_bytes(b));
    } else {
        lemma_fields_bytes_add(a.skip(1), b);
        assert((a + b).skip(1) =~= a.skip(1) + b);
        assert((a + b)[0] == a[0]);
        assert(fields_bytes(a + b) =~= fields_bytes(a) + fields_bytes(b));
    }
}

/// The bytes of a run of one field are the bytes of that field.
pub proof fn lemma_fields_bytes_one(f: FieldModel)
    ensures
        fields_bytes(seq![f]) == field_bytes(f),
{
    assert(seq![f].skip(1) =~= Seq::<FieldModel>::empty());
    assert(fields_bytes(seq![f].skip(1)) =~= Seq::<u8>::empty());
    assert(field_bytes(f) + Seq::<u8>::empty() =~= field_bytes(f));
}

/// The bytes of a run of fields parse as that run.
pub proof fn lemma_fields_round_trip(fields: Seq<FieldModel>)
    requires
        fields_ok(fields),
    ensures
        parse_fields(fields_bytes(fields)) == Some(fields),
    decreases fields.len(),
{
    if fields.len() == 0 {
    } else {
        let rest = fields_bytes(fields.skip(1));
        assert(fields_ok(fields.skip(1))) by {
            assert forall|i: int| 0 <= i < fields.skip(1).len() implies field_ok(
                #[trigger] fields.skip(1)[i],
            ) by {
                assert(fields.skip(1)[i] == fields[i + 1]);
            }
        }
        lemma_field_round_trip(fields[0], rest);
        lemma_fields_round_trip(fields.skip(1));
        let bytes = fields_bytes(fields);
        let n = field_bytes(fields[0]).len();
        assert(bytes.skip(n as int) =~= rest);
        assert(seq![fields[0]] + fields.skip(1) =~= fields);
    }
}

/// Adds the four bytes of `v`, least significant first, at the end of `buf`.
fn put_le32(buf: &mut Vec<u8>, v: u32)
    ensures
        final(buf)@ == old(buf)@ + le32(v as nat),
{
    buf.push((v % 0x100) as u8);
    buf.push(((v / 0x100) % 0x100) as u8);
    buf.push(((v / 0x1_0000) % 0x100) as u8);
    buf.push(((v / 0x100_0000) % 0x100) as u8);
    proof {
        assert(buf@ =~= old(buf)@ + le32(v as nat));
    }
}

/// The number whose four bytes, least significant first, start at `pos`.
fn read_le32(bytes: &[u8], pos: usize) -> (v: u32)
    requires
        pos + 4 <= bytes@.len(),
    ensures
        v == from_le32(bytes@.skip(pos as int)),
{
    let b0: u32 = bytes[pos] as u32;
    let b1: u32 = bytes[pos + 1] as u32;
    let b2: u32 = bytes[pos + 2] as u32;
    let b3: u32 = bytes[pos + 3] as u32;
    b0 + b1 * 0x100 + b2 * 0x1_0000 + b3 * 0x100_0000
}

/// Adds the bytes of a field at the end of `buf`.
pub fn put_field(buf: &mut Vec<u8>, field: &Field)
    ensures
        final(buf)@ == old(buf)@ + field_bytes(field@),
{
    let number = field.number as u64;
    match &field.data {
        Payload::Varint(v) => {
            put_varint(buf, number * 8);
            put_varint(buf, *v);
        },
        Payload::Fixed64(v) => {
            put_varint(buf, number * 8 + 1);
            put_le32(buf, (*v % 0x1_0000_0000) as u32);
            put_le32(buf, (*v / 0x1_0000_0000) as u32);
        },
        Payload::Bytes(b) => {
            put_varint(buf, number * 8 + 2);
            put_varint(buf, b.len() as u64);
            buf.extend_from_slice(b.as_slice());
        },
        Payload::Fixed32(v) => {
            put_varint(buf, number * 8 + 5);
            put_le32(buf, *v);
        },
    }
    proof {
        assert(buf@ =~= old(buf)@ + field_bytes(field@));
    }
}

/// The bytes of a run of fields.
pub fn serialize(fields: &Vec<Field>) -> (bytes: Vec<u8>)
    ensures
        bytes@ == fields_bytes(field_models(fields@)),
        fields_ok(field_models(fields@)) ==> parse_fields(bytes@) == Some(field_models(fields@)),
{
    let mut bytes: Vec<u8> = Vec::new();
    let ghost models = field_models(fields@);
    let mut i: usize = 0;
    while i < fields.len()
        invariant
            0 <= i <= fields.len(),
            models == field_models(fields@),
            bytes@ == fields_bytes(models.take(i as int)),
        decreases fields.len() - i,
    {
        put_field(&mut bytes, &fields[i]);
        proof {
            let f = models[i as int];
            lemma_fields_bytes_add(models.take(i as int), seq![f]);
            lemma_fields_bytes_one(f);
            assert(models.take(i as int) + seq![f] =~= models.take(i + 1));
        }
        i = i + 1;
    }
    proof {
        assert(models.take(i as int) =~= models);
        if fields_ok(models) {
            lemma_fields_round_trip(models);
        }
    }
    bytes
}

/// What a payload stands for.
pub open spec fn payload_model(data: Payload) -> DataModel {
    match data {
        Payload::Varint(v) => DataModel::Varint(v),
        Payload::Fixed64(v) => DataModel::Fixed64(v),
        Payload::Bytes(b) => DataModel::Bytes(b@),
        Payload::Fixed32(v) => DataModel::Fixed32(v),
    }
}

/// Reads eight bytes, least significant first, at `at`.
fn read_fixed64(bytes: &[u8], at: usize) -> (r: Option<(Payload, usize)>)
    requires
        at <= bytes@.len(),
    ensures
        match parse_data(1, bytes@.skip(at as int)) {
            Some((data, n)) => r matches Some((found, next)) && payload_model(found) == data
                && next == at + n && next <= bytes@.len(),
            None => r is None,
        },
{
    if bytes.len() - at < 8 {
        return None;
    }
    let low = read_le32(bytes, at) as u64;
    let high = read_le32(bytes, at + 4) as u64;
    proof {
        assert(bytes@.skip(at as int).skip(4) =~= bytes@.skip(at + 4));
    }
    Some((Payload::Fixed64(low + high * 0x1_0000_0000), at + 8))
}

/// Reads a length and that many bytes at `at`.
#[verifier::rlimit(50)]
fn read_bytes(bytes: &[u8], at: usize) -> (r: Option<(Payload, usize)>)
    requires
        at <= bytes@.len(),
    ensures
        match parse_data(2, bytes@.skip(at as int)) {
            Some((data, n)) => r matches Some((found, next)) && payload_model(found) == data
                && next == at + n && next <= bytes@.len(),
            None => r is None,
        },
{
    let total = bytes.len();
    let ghost rest = bytes@.skip(at as int);
    proof {
        lemma_parse_varint_bounds(rest, 0);
    }
    let head = read_varint(bytes, at);
    if head.is_none() {
        return None;
    }
    let len = head.unwrap().0;
    let start = head.unwrap().1;
    let left = (total - start) as u64;
    if left < len {
        return None;
    }
    let end = start + len as usize;
    let body = slice_to_vec(slice_subrange(bytes, start, end));
    proof {
        assert(body@ =~= rest.subrange(start - at, start - at + len));
    }
    Some((Payload::Bytes(body), end))
}

/// Reads what a field of wire type `wire` carries at `at`.
fn read_data(bytes: &[u8], at: usize, wire: u64) -> (r: Option<(Payload, usize)>)
    requires
        at <= bytes@.len(),
    ensures
        match parse_data(wire as nat, bytes@.skip(at as int)) {
            Some((data, n)) => r matches Some((found, next)) && payload_model(found) == data
                && next == at + n && next <= bytes@.len(),
            None => r is None,
        },
{
    let total = bytes.len();
    if wire == 0 {
        proof {
            lemma_parse_varint_bounds(bytes@.skip(at as int), 0);
        }
        let head = read_varint(bytes, at);
        if head.is_none() {
            return None;
        }
        Some((Payload::Varint(head.unwrap().0), head.unwrap().1))
    } else if wire == 1 {
        read_fixed64(bytes, at)
    } else if wire == 2 {
        read_bytes(bytes, at)
    } else if wire == 5 {
        if total - at < 4 {
            return None;
        }
        Some((Payload::Fixed32(read_le32(bytes, at)), at + 4))
    } else {
        None
    }
}

/// Reads the field that starts at `pos` of `bytes` and returns it with the
/// position behind it; `None` where no field starts there.
#[verifier::rlimit(50)]
pub fn read_field(bytes: &[u8], pos: usize) -> (r: Option<(Field, usize)>)
    ensures
        pos <= bytes@.len() ==> match parse_field(bytes@.skip(pos as int)) {
            Some((f, n)) => r matches Some((field, next)) && field@ == f && next == pos + n
                && next <= bytes@.len() && n >= 1,
            None => r is None,
        },
        pos > bytes@.len() ==> r is None,
{
    if pos > bytes.len() {
        return None;
    }
    let ghost tail = bytes@.skip(pos as int);
    proof {
        lemma_parse_varint_bounds(tail, 0);
    }
    let total = bytes.len();
    let head = read_varint(bytes, pos);
    if head.is_none() {
        return None;
    }
    let key = head.unwrap().0;
    let at = head.unwrap().1;
    let number = key / 8;
    if number < 1 || number >= NUMBER_END as u64 {
        return None;
    }
    proof {
        assert(tail.skip(at - pos) =~= bytes@.skip(at as int));
    }
    match read_data(bytes, at, key % 8) {
        Some(body) => {
            let next = body.1;
            Some((Field { number: number as u32, data: body.0 }, next))
        },
        None => None,
    }
}

/// The run of fields that `bytes` is.
#[verifier::rlimit(50)]
pub fn parse(bytes: &[u8]) -> (r: Option<Vec<Field>>)
    ensures
        match parse_fields(bytes@) {
            Some(fields) => r matches Some(found) && field_models(found@) == fields,
            None => r is None,
        },
{
    let mut found: Vec<Field> = Vec::new();
    let mut pos: usize = 0;
    proof {
        assert(bytes@.skip(0) =~= bytes@);
        match parse_fields(bytes@) {
            Some(rest) => {
                assert(field_models(found@) + rest =~= rest);
            },
            None => {},
        }
    }
    while pos < bytes.len()
        invariant
            0 <= pos <= bytes@.len(),
            match parse_fields(bytes@.skip(pos as int)) {
                Some(rest) => parse_fields(bytes@) == Some(field_models(found@) + rest),
                None => parse_fields(bytes@) is None,
            },
        decreases bytes@.len() - pos,
    {
        let ghost tail = bytes@.skip(pos as int);
        let ghost before = field_models(found@);
        match read_field(bytes, pos) {
            Some((field, next)) => {
                proof {
                    assert(tail.skip(next - pos) =~= bytes@.skip(next as int));
                    match parse_fields(bytes@.skip(next as int)) {
                        Some(rest) => {
                            assert(before + (seq![field@] + rest) =~= before.push(field@) + rest);
                        },
                        None => {},
                    }
                }
                found.push(field);
                proof {
                    assert(field_models(found@) =~= before.push(field@));
                }
                pos = next;
            },
            None => {
                return None;
            },
        }
    }
    proof {
        assert(bytes@.skip(pos as int) =~= Seq::<u8>::empty());
        assert(field_models(found@) + Seq::<FieldModel>::empty() =~= field_models(found@));
    }
    Some(found)
}

} // verus!
