//! The storage abstraction: tables of keys and values.

use vstd::prelude::*;

pub mod disk;
pub mod memory;

use crate::error::KvError;
use crate::pb::abi::{Kvpair, Value};
use crate::pb::model::{PairModel, ValueModel};

verus! {

/// What a store holds: a value for some `(table, key)` pairs. A table that holds
/// no key is the same as a table that is not there.
pub type Entries = Map<(Seq<char>, Seq<char>), ValueModel>;

/// What an optional value stands for.
pub open spec fn option_model(v: Option<Value>) -> Option<ValueModel> {
    match v {
        Some(v) => Some(v@),
        None => None,
    }
}

/// The value under `key` of `table`, if there is one.
pub open spec fn lookup(entries: Entries, table: Seq<char>, key: Seq<char>) -> Option<ValueModel> {
    if entries.contains_key((table, key)) {
        Some(entries[(table, key)])
    } else {
        None
    }
}

/// Whether `pairs` lists `table` as `entries` has it: every pair is a key of
/// the table with its value, no key comes twice, and no key of the table is
/// left out. The order is not fixed.
pub open spec fn is_listing(pairs: Seq<PairModel>, entries: Entries, table: Seq<char>) -> bool {
    &&& forall|i: int|
        0 <= i < pairs.len() ==> lookup(entries, table, (#[trigger] pairs[i]).key) == pairs[i].value
            && pairs[i].value is Some
    &&& forall|i: int, j: int|
        0 <= i < j < pairs.len() ==> (#[trigger] pairs[i]).key != (#[trigger] pairs[j]).key
    &&& forall|key: Seq<char>| #[trigger]
        entries.contains_key((table, key)) ==> exists|i: int|
            0 <= i < pairs.len() && (#[trigger] pairs[i]).key == key
}

/// The pairs that a snapshot of `(key, value)` items stands for.
pub open spec fn item_models(items: Seq<(String, Value)>) -> Seq<PairModel> {
    Seq::new(items.len(), |i: int| PairModel { key: items[i].0@, value: Some(items[i].1@) })
}

/// What was set is what is read: after a value was put under a key, the key
/// is there and holds that value; putting another value returns the first;
/// deleting returns the value put last, and the key is gone.
pub proof fn law_set_get_del(
    entries: Entries,
    table: Seq<char>,
    key: Seq<char>,
    first: ValueModel,
    second: ValueModel,
)
    ensures
        !entries.contains_key((table, key)) ==> lookup(entries, table, key) is None,
        lookup(entries.insert((table, key), first), table, key) == Some(first),
        entries.insert((table, key), first).contains_key((table, key)),
        lookup(entries.insert((table, key), first).insert((table, key), second), table, key)
            == Some(second),
        !entries.insert((table, key), first).insert((table, key), second).remove(
            (table, key),
        ).contains_key((table, key)),
{
}

/// A key that is not there reads as nothing and deletes as nothing, whether
/// its table is there or not; the store stays as it is.
pub proof fn law_missing_reads(entries: Entries, table: Seq<char>, key: Seq<char>)
    requires
        !entries.contains_key((table, key)),
    ensures
        lookup(entries, table, key) is None,
        entries.remove((table, key)) == entries,
{
    assert(entries.remove((table, key)) =~= entries);
}

/// What is put under one key changes nothing under another.
pub proof fn law_keys_are_independent(
    entries: Entries,
    table: Seq<char>,
    key: Seq<char>,
    value: ValueModel,
    other_table: Seq<char>,
    other_key: Seq<char>,
)
    requires
        (table, key) != (other_table, other_key),
    ensures
        lookup(entries.insert((table, key), value), other_table, other_key) == lookup(
            entries,
            other_table,
            other_key,
        ),
        lookup(entries.remove((table, key)), other_table, other_key) == lookup(
            entries,
            other_table,
            other_key,
        ),
{
}

/// How the outside world reaches a storage backend.
pub trait Storage {
    /// What the store holds. A backend that does not say holds what its
    /// operations show.
    open spec fn entries(&self) -> Entries {
        arbitrary()
    }

    /// Whether no operation of this backend ever fails. A backend that does
    /// not say may fail.
    open spec fn reliable(&self) -> bool {
        false
    }

    /// The value under `key` of `table`, `None` where the table or the key is
    /// absent.
    fn get(&self, table: &str, key: &str) -> (r: Result<Option<Value>, KvError>)
        ensures
            self.reliable() ==> r is Ok,
            r matches Ok(v) ==> option_model(v) == lookup(self.entries(), table@, key@),
    ;

    /// Puts `value` under `key` of `table` and returns the value that was
    /// there. A failed call changes nothing.
    fn set(&mut self, table: &str, key: String, value: Value) -> (r: Result<Option<Value>, KvError>)
        ensures
            final(self).reliable() == old(self).reliable(),
            old(self).reliable() ==> r is Ok,
            r matches Ok(prev) ==> option_model(prev) == lookup(old(self).entries(), table@, key@)
                && final(self).entries() == old(self).entries().insert((table@, key@), value@),
            r is Err ==> final(self).entries() == old(self).entries(),
    ;

    /// Removes `key` from `table` and returns the value that was there. A
    /// failed call changes nothing.
    fn del(&mut self, table: &str, key: &str) -> (r: Result<Option<Value>, KvError>)
        ensures
            final(self).reliable() == old(self).reliable(),
            old(self).reliable() ==> r is Ok,
            r matches Ok(prev) ==> option_model(prev) == lookup(old(self).entries(), table@, key@)
                && final(self).entries() == old(self).entries().remove((table@, key@)),
            r is Err ==> final(self).entries() == old(self).entries(),
    ;

    /// Whether `table` has `key`.
    fn contains(&self, table: &str, key: &str) -> (r: Result<bool, KvError>)
        ensures
            self.reliable() ==> r is Ok,
            r matches Ok(b) ==> b == self.entries().contains_key((table@, key@)),
    ;

    /// All pairs of `table`, in no fixed order.
    fn get_all(&self, table: &str) -> (r: Result<Vec<Kvpair>, KvError>)
        ensures
            self.reliable() ==> r is Ok,
            r matches Ok(pairs) ==> is_listing(
                crate::pb::model::pair_models(pairs@),
                self.entries(),
                table@,
            ),
    ;

    /// A cursor over a snapshot of `table`, in no fixed order.
    fn get_iter(&self, table: &str) -> (r: Result<StorageIter<(String, Value)>, KvError>)
        ensures
            self.reliable() ==> r is Ok,
            r matches Ok(iter) ==> is_listing(
                item_models(iter.remaining()),
                self.entries(),
                table@,
            ),
    ;
}

/// A cursor over the items a backend handed out; each item leaves as a pair.
pub struct StorageIter<T> {
    /// What is left, the next item last.
    iter: Vec<T>,
}

impl<T> StorageIter<T> {
    /// The items still to come, the next one first.
    pub closed spec fn remaining(&self) -> Seq<T> {
        self.iter@.reverse()
    }

    /// A cursor that hands out `iter` from its first item to its last.
    pub fn new(iter: Vec<T>) -> (r: Self)
        ensures
            r.remaining() == iter@,
    {
        let mut iter = iter;
        let ghost given = iter@;
        let mut reversed: Vec<T> = Vec::new();
        while iter.len() > 0
            invariant
                iter@.len() <= given.len(),
                iter@ == given.take(iter@.len() as int),
                reversed@.len() + iter@.len() == given.len(),
                forall|i: int|
                    0 <= i < reversed@.len() ==> #[trigger] reversed@[i] == given[given.len() - 1
                        - i],
            decreases iter@.len(),
        {
            let ghost n = iter@.len();
            let item = iter.pop().unwrap();
            reversed.push(item);
            proof {
                assert(iter@ =~= given.take(n - 1));
            }
        }
        proof {
            assert(reversed@.reverse() =~= given);
        }
        StorageIter { iter: reversed }
    }

    /// The next item as a pair, or `None` when nothing is left.
    pub fn next(&mut self) -> (r: Option<Kvpair>) where Kvpair: From<T>
        ensures
            old(self).remaining().len() == 0 ==> r is None && final(self).remaining() == old(
                self).remaining(),
            old(self).remaining().len() > 0 ==> final(self).remaining() == old(
                self).remaining().skip(1) && (r matches Some(pair) && call_ensures(
                Kvpair::from,
                (old(self).remaining()[0],),
                pair,
            )),
    {
        match self.iter.pop() {
            Some(item) => {
                proof {
                    assert(self.iter@.reverse() =~= old(self).iter@.reverse().skip(1));
                }
                Some(Kvpair::from(item))
            },
            None => None,
        }
    }
}

} // verus!
