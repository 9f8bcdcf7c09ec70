//! The flat keyspace of the on-disk backend: a table's keys live under
//! `table:key`, so that a table is the keys behind the prefix `table:`.

use vstd::prelude::*;
use vstd::slice::{slice_subrange, slice_to_vec};
use vstd::utf8::{
    decode_utf8, encode_scalar, encode_utf8, encode_utf8_decode_utf8, encode_utf8_valid_utf8,
    valid_utf8,
};

use crate::error::KvError;
use crate::pb::abi::Kvpair;
use crate::pb::codec::{decode_value, text_bytes, text_from_utf8, value_parsed};
use crate::pb::model::PairModel;

verus! {

/// The byte that parts a table's name from a key.
pub const SEPARATOR: u8 = 0x3a;

/// The bytes every key of `table` starts with on disk.
pub open spec fn prefix_bytes(table: Seq<char>) -> Seq<u8> {
    encode_utf8(table).push(SEPARATOR)
}

/// The bytes that `key` of `table` goes by on disk.
pub open spec fn full_key_bytes(table: Seq<char>, key: Seq<char>) -> Seq<u8> {
    prefix_bytes(table) + encode_utf8(key)
}

/// The key that the on-disk key `full` stands for in the table whose prefix
/// is `prefix`; `None` where `full` is no key of that table.
pub open spec fn key_behind(full: Seq<u8>, prefix: Seq<u8>) -> Option<Seq<char>> {
    if prefix.is_prefix_of(full) && valid_utf8(full.skip(prefix.len() as int)) {
        Some(decode_utf8(full.skip(prefix.len() as int)))
    } else {
        None
    }
}

/// A key of a table is found again behind the table's prefix.
pub proof fn law_full_key_round_trip(table: Seq<char>, key: Seq<char>)
    ensures
        prefix_bytes(table).is_prefix_of(full_key_bytes(table, key)),
        key_behind(full_key_bytes(table, key), prefix_bytes(table)) == Some(key),
{
    let prefix = prefix_bytes(table);
    let full = full_key_bytes(table, key);
    assert(full.skip(prefix.len() as int) =~= encode_utf8(key));
    encode_utf8_valid_utf8(key);
    encode_utf8_decode_utf8(key);
}

/// Whether a name holds no colon.
pub open spec fn is_plain(name: Seq<char>) -> bool {
    forall|i: int| 0 <= i < name.len() ==> #[trigger] name[i] != ':'
}

/// The bytes of a character that is no colon hold no separator.
proof fn lemma_scalar_has_no_separator(scalar: u32)
    requires
        scalar != 0x3a,
    ensures
        forall|i: int|
            0 <= i < encode_scalar(scalar).len() ==> #[trigger] encode_scalar(scalar)[i]
                != SEPARATOR,
{
    assert(scalar <= 0x7F ==> (scalar & 0x7F) as u8 != 0x3au8) by (bit_vector)
        requires
            scalar != 0x3a,
    ;
    assert(forall|x: u8| 0xC0u8 | x != 0x3au8) by (bit_vector);
    assert(forall|x: u8| 0xE0u8 | x != 0x3au8) by (bit_vector);
    assert(forall|x: u8| 0xF0u8 | x != 0x3au8) by (bit_vector);
    assert(forall|x: u8| 0x80u8 | x != 0x3au8) by (bit_vector);
}

/// The bytes of a name that holds no colon hold no separator.
proof fn lemma_plain_has_no_separator(name: Seq<char>)
    requires
        is_plain(name),
    ensures
        forall|i: int|
            0 <= i < encode_utf8(name).len() ==> #[trigger] encode_utf8(name)[i] != SEPARATOR,
    decreases name.len(),
{
    if name.len() > 0 {
        let head = encode_scalar(name[0] as u32);
        let rest = name.drop_first();
        assert(is_plain(rest)) by {
            assert forall|i: int| 0 <= i < rest.len() implies #[trigger] rest[i] != ':' by {
                assert(rest[i] == name[i + 1]);
            }
        }
        lemma_plain_has_no_separator(rest);
        assert(name[0] != ':');
        assert((name[0] as u32) != 0x3a) by {
            vstd::utf8::char_u32_cast(':', 0x3a);
            vstd::utf8::char_u32_cast(name[0], name[0] as u32);
        }
        lemma_scalar_has_no_separator(name[0] as u32);
        assert(encode_utf8(name) == head + encode_utf8(rest));
        assert forall|i: int| 0 <= i < encode_utf8(name).len() implies #[trigger] encode_utf8(
            name,
        )[i] != SEPARATOR by {
            if i < head.len() {
                assert(encode_utf8(name)[i] == head[i]);
            } else {
                assert(encode_utf8(name)[i] == encode_utf8(rest)[i - head.len()]);
            }
        }
    }
}

/// Tables whose names hold no colon are apart on disk: no key of one starts
/// with the prefix of the other, so a scan of one table never meets a key of
/// another.
pub proof fn law_tables_are_apart(table: Seq<char>, other: Seq<char>, key: Seq<char>)
    requires
        is_plain(table),
        is_plain(other),
        table != other,
    ensures
        !prefix_bytes(table).is_prefix_of(full_key_bytes(other, key)),
        key_behind(full_key_bytes(other, key), prefix_bytes(table)) is None,
{
    let a = encode_utf8(table);
    let b = encode_utf8(other);
    let prefix = prefix_bytes(table);
    let full = full_key_bytes(other, key);
    lemma_plain_has_no_separator(table);
    lemma_plain_has_no_separator(other);
    if prefix.is_prefix_of(full) {
        assert(forall|i: int| 0 <= i < prefix.len() ==> prefix[i] == full[i]) by {
            assert(full.subrange(0, prefix.len() as int) == prefix);
            assert forall|i: int| 0 <= i < prefix.len() implies prefix[i] == full[i] by {
                assert(full.subrange(0, prefix.len() as int)[i] == full[i]);
            }
        }
        if a.len() < b.len() {
            assert(prefix[a.len() as int] == SEPARATOR);
            assert(full[a.len() as int] == b[a.len() as int]);
        } else if a.len() > b.len() {
            assert(full[b.len() as int] == SEPARATOR);
            assert(prefix[b.len() as int] == a[b.len() as int]);
        } else {
            assert(a =~= b) by {
                assert forall|i: int| 0 <= i < a.len() implies a[i] == b[i] by {
                    assert(prefix[i] == a[i]);
                    assert(full[i] == b[i]);
                }
            }
            encode_utf8_decode_utf8(table);
            encode_utf8_decode_utf8(other);
        }
    }
}

/// The bytes every key of `table` starts with on disk.
pub fn get_table_prefix(table: &str) -> (prefix: Vec<u8>)
    ensures
        prefix@ == prefix_bytes(table@),
{
    let mut prefix = text_bytes(table);
    prefix.push(SEPARATOR);
    prefix
}

/// The bytes that `key` of `table` goes by on disk.
pub fn get_full_key(table: &str, key: &str) -> (full: Vec<u8>)
    ensures
        full@ == full_key_bytes(table@, key@),
{
    let mut full = get_table_prefix(table);
    let tail = text_bytes(key);
    full.extend_from_slice(tail.as_slice());
    full
}

/// The key that the on-disk key `full` stands for in the table whose prefix
/// is `prefix`; `None` where `full` is no key of that table.
pub fn key_of(full: &[u8], prefix: &[u8]) -> (key: Option<String>)
    ensures
        match key_behind(full@, prefix@) {
            Some(k) => key matches Some(s) && s@ == k,
            None => key is None,
        },
{
    if full.len() < prefix.len() {
        return None;
    }
    let mut i: usize = 0;
    while i < prefix.len()
        invariant
            0 <= i <= prefix@.len(),
            prefix@.len() <= full@.len(),
            forall|k: int| 0 <= k < i ==> full@[k] == prefix@[k],
        decreases prefix@.len() - i,
    {
        if full[i] != prefix[i] {
            proof {
                assert(!prefix@.is_prefix_of(full@)) by {
                    if prefix@.is_prefix_of(full@) {
                        assert(full@.subrange(0, prefix@.len() as int)[i as int] == prefix@[i as int]);
                    }
                }
            }
            return None;
        }
        i = i + 1;
    }
    proof {
        assert(full@.subrange(0, prefix@.len() as int) =~= prefix@);
    }
    let rest = slice_to_vec(slice_subrange(full, prefix.len(), full.len()));
    proof {
        assert(rest@ =~= full@.skip(prefix@.len() as int));
    }
    text_from_utf8(rest)
}

/// The pair that an entry read from disk stands for in the table whose prefix
/// is `prefix`: the key behind the prefix, with the value the bytes stand
/// for. An entry of another table, or bytes that stand for no value, are an
/// internal error.
pub fn pair_of(full: &[u8], prefix: &[u8], value: &[u8]) -> (r: Result<Kvpair, KvError>)
    ensures
        match (key_behind(full@, prefix@), value_parsed(value@)) {
            (Some(k), Some(v)) => r matches Ok(p) && p@ == (PairModel { key: k, value: Some(v) }),
            _ => r matches Err(KvError::Internal(_)),
        },
{
    match (key_of(full, prefix), decode_value(value)) {
        (Some(key), Some(v)) => Ok(Kvpair { key, value: Some(v) }),
        (None, _) => Err(KvError::Internal("not a key of the table".to_owned())),
        (_, None) => Err(KvError::Internal("not a stored value".to_owned())),
    }
}

} // verus!
