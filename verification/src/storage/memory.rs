//! The in-memory backend.

use dashmap::DashMap;
use vstd::prelude::*;

use super::{is_listing, item_models, lookup, option_model, Entries, Storage, StorageIter};
use crate::error::KvError;
use crate::pb::abi::{Kvpair, Value};
use crate::pb::model::pair_models;

verus! {

/// What a map of tables holds, table by table and key by key.
pub uninterp spec fn table_entries(m: DashMap<String, DashMap<String, Value>>) -> Entries;

/// The store that holds nothing.
pub open spec fn no_entries() -> Entries {
    Map::empty()
}

/// `DashMap::new`: the new map holds nothing.
#[verifier::external_body]
fn tables_new() -> (tables: DashMap<String, DashMap<String, Value>>)
    ensures
        table_entries(tables) == no_entries(),
{
    DashMap::new()
}

/// `DashMap::entry` with `or_default` on the map of tables, then `DashMap::get`
/// on the table: a copy of the value under the key, if the table has it.
/// Creating an empty table adds no entry.
#[verifier::external_body]
fn tables_get(m: &DashMap<String, DashMap<String, Value>>, table: &str, key: &str) -> (found:
    Option<Value>)
    ensures
        option_model(found) == lookup(table_entries(*m), table@, key@),
{
    m.entry(table.into()).or_default().get(key).map(|v| v.value().clone())
}

/// `DashMap::entry` with `or_default` on the map of tables, then
/// `DashMap::insert` on the table: the value is stored under the key, and the
/// value that was there comes back.
#[verifier::external_body]
fn tables_set(
    m: &mut DashMap<String, DashMap<String, Value>>,
    table: &str,
    key: String,
    value: Value,
) -> (prev: Option<Value>)
    ensures
        option_model(prev) == lookup(table_entries(*old(m)), table@, key@),
        table_entries(*final(m)) == table_entries(*old(m)).insert((table@, key@), value@),
{
    m.entry(table.into()).or_default().insert(key, value)
}

/// `DashMap::entry` with `or_default` on the map of tables, then
/// `DashMap::remove` on the table: the key leaves the table, and the value
/// that was there comes back.
#[verifier::external_body]
fn tables_del(m: &mut DashMap<String, DashMap<String, Value>>, table: &str, key: &str) -> (prev:
    Option<Value>)
    ensures
        option_model(prev) == lookup(table_entries(*old(m)), table@, key@),
        table_entries(*final(m)) == table_entries(*old(m)).remove((table@, key@)),
{
    m.entry(table.into()).or_default().remove(key).map(|(_k, v)| v)
}

/// `DashMap::entry` with `or_default` on the map of tables, then
/// `DashMap::contains_key` on the table.
#[verifier::external_body]
fn tables_contains(m: &DashMap<String, DashMap<String, Value>>, table: &str, key: &str) -> (held:
    bool)
    ensures
        held == table_entries(*m).contains_key((table@, key@)),
{
    m.entry(table.into()).or_default().contains_key(key)
}

/// `DashMap::entry` with `or_default` on the map of tables, then a clone of
/// the table walked by `into_iter`: every key of the table with a copy of its
/// value, each once, in no stated order.
#[verifier::external_body]
fn tables_snapshot(m: &DashMap<String, DashMap<String, Value>>, table: &str) -> (items: Vec<
    (String, Value),
>)
    ensures
        is_listing(item_models(items@), table_entries(*m), table@),
{
    m.entry(table.into()).or_default().clone().into_iter().collect()
}

/// A store kept in memory: a concurrent map of tables, each a concurrent map
/// of keys.
pub struct MemTable {
    tables: DashMap<String, DashMap<String, Value>>,
}

impl MemTable {
    /// An empty store.
    pub fn new() -> (store: Self)
        ensures
            store.entries() == no_entries(),
            store.reliable(),
    {
        MemTable { tables: tables_new() }
    }
}

impl Default for MemTable {
    fn default() -> (store: Self)
        ensures
            store.entries() == no_entries(),
            store.reliable(),
    {
        MemTable::new()
    }
}

impl Storage for MemTable {
    closed spec fn entries(&self) -> Entries {
        table_entries(self.tables)
    }

    open spec fn reliable(&self) -> bool {
        true
    }

    fn get(&self, table: &str, key: &str) -> (r: Result<Option<Value>, KvError>) {
        Ok(tables_get(&self.tables, table, key))
    }

    fn set(&mut self, table: &str, key: String, value: Value) -> (r: Result<Option<Value>, KvError>)
    {
        Ok(tables_set(&mut self.tables, table, key, value))
    }

    fn del(&mut self, table: &str, key: &str) -> (r: Result<Option<Value>, KvError>) {
        Ok(tables_del(&mut self.tables, table, key))
    }

    fn contains(&self, table: &str, key: &str) -> (r: Result<bool, KvError>) {
        Ok(tables_contains(&self.tables, table, key))
    }

    #[verifier::rlimit(50)]
    fn get_all(&self, table: &str) -> (r: Result<Vec<Kvpair>, KvError>) {
        let mut items = tables_snapshot(&self.tables, table);
        let ghost listed = items@;
        let mut pairs: Vec<Kvpair> = Vec::new();
        while items.len() > 0
            invariant
                items@.len() <= listed.len(),
                items@ == listed.take(items@.len() as int),
                pairs@.len() == listed.len() - items@.len(),
                forall|i: int|
                    0 <= i < pairs@.len() ==> (#[trigger] pairs@[i])@ == item_models(listed)[listed.len()
                        - 1 - i],
            decreases items@.len(),
        {
            let ghost n = items@.len();
            let item = items.pop().unwrap();
            pairs.push(Kvpair::from(item));
            proof {
                assert(items@ =~= listed.take(n - 1));
            }
        }
        proof {
            let got = pair_models(pairs@);
            let had = item_models(listed);
            assert forall|i: int| 0 <= i < got.len() implies got[i] == had[had.len() - 1 - i] by {
                assert(got[i] == pairs@[i]@);
            }
            assert forall|key: Seq<char>| #[trigger]
                self.entries().contains_key((table@, key)) implies exists|i: int|
                0 <= i < got.len() && (#[trigger] got[i]).key == key by {
                let j = choose|j: int| 0 <= j < had.len() && (#[trigger] had[j]).key == key;
                assert(got[had.len() - 1 - j].key == key);
            }
            assert forall|i: int, j: int| 0 <= i < j < got.len() implies (#[trigger] got[i]).key != (
            #[trigger] got[j]).key by {
                assert(had[had.len() - 1 - j].key != had[had.len() - 1 - i].key);
            }
            assert forall|i: int| 0 <= i < got.len() implies lookup(
                self.entries(),
                table@,
                (#[trigger] got[i]).key,
            ) == got[i].value && got[i].value is Some by {
                assert(lookup(self.entries(), table@, had[had.len() - 1 - i].key) == had[had.len()
                    - 1 - i].value);
            }
        }
        Ok(pairs)
    }

    fn get_iter(&self, table: &str) -> (r: Result<StorageIter<(String, Value)>, KvError>) {
        Ok(StorageIter::new(tables_snapshot(&self.tables, table)))
    }
}

} // verus!
