//! The storage commands: what each answers and what it does to the store.

use vstd::prelude::*;
use vstd::string::StringExecFns;

use crate::error::KvError;
use crate::pb::abi::{
    CommandResponse, Hdel, Hexist, Hget, Hgetall, Hmdel, Hmexist, Hmget, Hmset, Hset, Kvpair,
    Value,
};
use crate::pb::model::{pair_models, texts, PairModel, RequestModel, ResponseModel, ValueModel};
use crate::storage::{is_listing, lookup, option_model, Entries, Storage};

verus! {

/// The value, or the null value where there is none.
pub open spec fn or_null(v: Option<ValueModel>) -> ValueModel {
    match v {
        Some(v) => v,
        None => ValueModel::Null,
    }
}

/// The store after the `pairs` were written into `table`, one after the other.
pub open spec fn mset(entries: Entries, table: Seq<char>, pairs: Seq<PairModel>) -> Entries
    decreases pairs.len(),
{
    if pairs.len() == 0 {
        entries
    } else {
        mset(entries, table, pairs.drop_last()).insert(
            (table, pairs.last().key),
            or_null(pairs.last().value),
        )
    }
}

/// The store after the `keys` were deleted from `table`.
pub open spec fn mdel(entries: Entries, table: Seq<char>, keys: Seq<Seq<char>>) -> Entries
    decreases keys.len(),
{
    if keys.len() == 0 {
        entries
    } else {
        mdel(entries, table, keys.drop_last()).remove((table, keys.last()))
    }
}

/// What a not-found answer for `key` of `table` says.
pub open spec fn missing_key(table: Seq<char>, key: Seq<char>) -> ResponseModel {
    ResponseModel::of_error(404, "Not found: "@ + (table + ":"@ + key))
}

/// What the answer to a request without a command says.
pub open spec fn no_data() -> ResponseModel {
    ResponseModel::of_error(400, "Cannot parse command: "@ + "Request has no data"@)
}

/// Whether `res` answers the storage command `cmd` on a store that holds
/// `entries` and does not fail.
pub open spec fn request_answers(cmd: RequestModel, entries: Entries, res: ResponseModel) -> bool {
    match cmd {
        RequestModel::Empty => res == no_data(),
        RequestModel::Hget { table, key } => res == (match lookup(entries, table, key) {
            Some(v) => ResponseModel::of_values(seq![v]),
            None => missing_key(table, key),
        }),
        RequestModel::Hmget { table, keys } => res == ResponseModel::of_values(
            Seq::new(keys.len(), |i: int| or_null(lookup(entries, table, keys[i]))),
        ),
        RequestModel::Hgetall { table } => {
            &&& res.status == 200
            &&& res.message == Seq::<char>::empty()
            &&& res.values == Seq::<ValueModel>::empty()
            &&& is_listing(res.kvpairs, entries, table)
        },
        RequestModel::Hset { table, pair: Some(pair) } => res == ResponseModel::of_values(
            seq![or_null(lookup(entries, table, pair.key))],
        ),
        RequestModel::Hset { table, pair: None } => {
            &&& res.status == 400
            &&& res.values == Seq::<ValueModel>::empty()
            &&& res.kvpairs == Seq::<PairModel>::empty()
            &&& exists|why: Seq<char>| res.message == "Cannot parse command: "@ + why
        },
        RequestModel::Hmset { table, pairs } => res == ResponseModel::of_values(
            Seq::new(
                pairs.len(),
                |i: int| or_null(lookup(mset(entries, table, pairs.take(i)), table, pairs[i].key)),
            ),
        ),
        RequestModel::Hdel { table, key } => res == ResponseModel::of_values(
            seq![or_null(lookup(entries, table, key))],
        ),
        RequestModel::Hmdel { table, keys } => res == ResponseModel::of_values(
            Seq::new(
                keys.len(),
                |i: int| or_null(lookup(mdel(entries, table, keys.take(i)), table, keys[i])),
            ),
        ),
        RequestModel::Hexist { table, key } => res == ResponseModel::of_values(
            seq![ValueModel::Bool(entries.contains_key((table, key)))],
        ),
        RequestModel::Hmexist { table, keys } => res == ResponseModel::of_values(
            Seq::new(keys.len(), |i: int| ValueModel::Bool(entries.contains_key((table, keys[i])))),
        ),
        _ => res == ResponseModel::empty(),
    }
}

/// The number of keys a command of several keys names.
pub open spec fn slots(cmd: RequestModel) -> Option<nat> {
    match cmd {
        RequestModel::Hmget { keys, .. } => Some(keys.len()),
        RequestModel::Hmset { pairs, .. } => Some(pairs.len()),
        RequestModel::Hmdel { keys, .. } => Some(keys.len()),
        RequestModel::Hmexist { keys, .. } => Some(keys.len()),
        _ => None,
    }
}

/// What holds of the answer to a storage command whether the store fails or
/// not: a command of several keys is answered with success and one slot per
/// key; a command of one key with success, or with the error of a missing key
/// or of the store.
pub open spec fn request_shape(cmd: RequestModel, res: ResponseModel) -> bool {
    match slots(cmd) {
        Some(n) => {
            &&& res.status == 200
            &&& res.message == Seq::<char>::empty()
            &&& res.values.len() == n
            &&& res.kvpairs == Seq::<PairModel>::empty()
        },
        None => match cmd {
            RequestModel::Empty => res == no_data(),
            RequestModel::Hset { pair: None, .. } => res.status == 400,
            RequestModel::Hget { .. } => res.status == 200 || res.status == 400 || res.status
                == 404 || res.status == 500,
            RequestModel::Hgetall { .. } => res.status == 200 || res.status == 400 || res.status
                == 404 || res.status == 500,
            RequestModel::Hset { .. } => res.status == 200 || res.status == 400 || res.status
                == 404 || res.status == 500,
            RequestModel::Hdel { .. } => res.status == 200 || res.status == 400 || res.status
                == 404 || res.status == 500,
            RequestModel::Hexist { .. } => res.status == 200 || res.status == 400 || res.status
                == 404 || res.status == 500,
            _ => res == ResponseModel::empty(),
        },
    }
}

/// Whether a response reports an error.
pub open spec fn is_error_answer(res: ResponseModel) -> bool {
    exists|e: KvError| res == #[trigger] ResponseModel::of_error(e.status(), e.message())
}

/// One write of a command of several keys: the key, and the value that is put
/// under it, or `None` where the key is deleted.
pub type Write = (Seq<char>, Option<ValueModel>);

/// The writes of a command that puts `pairs`.
pub open spec fn puts(pairs: Seq<PairModel>) -> Seq<Write> {
    Seq::new(pairs.len(), |i: int| (pairs[i].key, Some(or_null(pairs[i].value))))
}

/// The writes of a command that deletes `keys`.
pub open spec fn deletes(keys: Seq<Seq<char>>) -> Seq<Write> {
    Seq::new(keys.len(), |i: int| (keys[i], None::<ValueModel>))
}

/// The store after a write into `table` went through.
pub open spec fn written(entries: Entries, table: Seq<char>, write: Write) -> Entries {
    match write.1 {
        Some(v) => entries.insert((table, write.0), v),
        None => entries.remove((table, write.0)),
    }
}

/// Whether one write into `table` took the store from `before` to `after` and
/// filled its slot of the answer with `slot`: either it went through, and the
/// slot holds what the key held; or the store failed, nothing changed, and the
/// slot holds the null value.
pub open spec fn write_step(
    before: Entries,
    after: Entries,
    table: Seq<char>,
    write: Write,
    slot: ValueModel,
) -> bool {
    ||| slot == or_null(lookup(before, table, write.0)) && after == written(before, table, write)
    ||| slot == ValueModel::Null && after == before
}

/// Whether `states` are what the store held before, between and after the
/// `writes` into `table`, made in order, with `filled` as the answer's slots.
pub open spec fn is_write_run(
    states: Seq<Entries>,
    table: Seq<char>,
    writes: Seq<Write>,
    filled: Seq<ValueModel>,
) -> bool {
    &&& states.len() == writes.len() + 1
    &&& filled.len() == writes.len()
    &&& forall|i: int|
        0 <= i < writes.len() ==> write_step(
            #[trigger] states[i],
            states[i + 1],
            table,
            writes[i],
            filled[i],
        )
}

/// Whether `res` answers `writes` into `table`, made in order on a store that
/// went from `before` to `after`.
pub open spec fn answers_writes(
    table: Seq<char>,
    writes: Seq<Write>,
    before: Entries,
    after: Entries,
    res: ResponseModel,
) -> bool {
    exists|states: Seq<Entries>|
        {
            &&& #[trigger] is_write_run(states, table, writes, res.values)
            &&& states.first() == before
            &&& states.last() == after
            &&& res == ResponseModel::of_values(res.values)
        }
}

/// What holds of a storage command on every store, failing or not: which
/// table and keys it asks the store for, what it makes of each outcome, and
/// what the store holds afterwards.
///
/// A command of one key is answered as on a store that does not fail, or with
/// the store's error, the store then being as it was. A read of several keys
/// fills each slot with what the key holds, or with the null value where the
/// store failed. A write of several keys makes its writes in order, each going
/// through or failing on its own.
pub open spec fn request_outcome(
    cmd: RequestModel,
    before: Entries,
    after: Entries,
    res: ResponseModel,
) -> bool {
    match cmd {
        RequestModel::Hget { .. } => after == before && (request_answers(cmd, before, res)
            || is_error_answer(res)),
        RequestModel::Hgetall { .. } => after == before && (request_answers(cmd, before, res)
            || is_error_answer(res)),
        RequestModel::Hexist { .. } => after == before && (request_answers(cmd, before, res)
            || is_error_answer(res)),
        RequestModel::Hset { pair: Some(_), .. } => {
            ||| request_answers(cmd, before, res) && after == request_effect(cmd, before)
            ||| is_error_answer(res) && after == before
        },
        RequestModel::Hdel { .. } => {
            ||| request_answers(cmd, before, res) && after == request_effect(cmd, before)
            ||| is_error_answer(res) && after == before
        },
        RequestModel::Hmget { table, keys } => {
            &&& after == before
            &&& res == ResponseModel::of_values(res.values)
            &&& res.values.len() == keys.len()
            &&& forall|i: int|
                0 <= i < keys.len() ==> #[trigger] res.values[i] == or_null(
                    lookup(before, table, keys[i]),
                ) || res.values[i] == ValueModel::Null
        },
        RequestModel::Hmexist { table, keys } => {
            &&& after == before
            &&& res == ResponseModel::of_values(res.values)
            &&& res.values.len() == keys.len()
            &&& forall|i: int|
                0 <= i < keys.len() ==> #[trigger] res.values[i] == ValueModel::Bool(
                    before.contains_key((table, keys[i])),
                ) || res.values[i] == ValueModel::Null
        },
        RequestModel::Hmset { table, pairs } => answers_writes(
            table,
            puts(pairs),
            before,
            after,
            res,
        ),
        RequestModel::Hmdel { table, keys } => answers_writes(
            table,
            deletes(keys),
            before,
            after,
            res,
        ),
        _ => request_answers(cmd, before, res) && after == before,
    }
}

/// The store after the storage command `cmd` ran on a store that held
/// `entries` and does not fail.
pub open spec fn request_effect(cmd: RequestModel, entries: Entries) -> Entries {
    match cmd {
        RequestModel::Hset { table, pair: Some(pair) } => entries.insert(
            (table, pair.key),
            or_null(pair.value),
        ),
        RequestModel::Hmset { table, pairs } => mset(entries, table, pairs),
        RequestModel::Hdel { table, key } => entries.remove((table, key)),
        RequestModel::Hmdel { table, keys } => mdel(entries, table, keys),
        _ => entries,
    }
}

/// The statuses of the dispatcher: a read of one missing key is answered with
/// 404; a read of several keys with 200 and one slot per key, the null value in
/// the slot of a missing key; a request without a command with 400.
pub proof fn law_dispatch_statuses(cmd: RequestModel, entries: Entries, res: ResponseModel)
    requires
        request_answers(cmd, entries, res),
    ensures
        cmd matches RequestModel::Hget { table, key } ==> (res.status == 404)
            == !entries.contains_key((table, key)),
        cmd matches RequestModel::Hget { table, key } ==> res.status == 404 || res.status == 200,
        cmd matches RequestModel::Hmget { table, keys } ==> res.status == 200 && res.values.len()
            == keys.len() && forall|i: int|
            0 <= i < keys.len() && !entries.contains_key((table, #[trigger] keys[i]))
                ==> res.values[i] == ValueModel::Null,
        cmd is Empty ==> res.status == 400,
        cmd matches RequestModel::Hset { pair: None, .. } ==> res.status == 400,
        cmd.is_streaming() <==> res == ResponseModel::empty(),
{
}

/// The answer to a read of one key: the value, or a not-found error naming
/// table and key, or the backend's error.
pub fn found_or_missing(table: &str, key: &str, found: Result<Option<Value>, KvError>) -> (res:
    CommandResponse)
    ensures
        res@ == (match found {
            Ok(Some(v)) => ResponseModel::of_values(seq![v@]),
            Ok(None) => missing_key(table@, key@),
            Err(e) => ResponseModel::of_error(e.status(), e.message()),
        }),
{
    match found {
        Ok(Some(v)) => CommandResponse::from(v),
        Ok(None) => {
            let what = String::from_str(table).concat(":").concat(key);
            CommandResponse::from(KvError::NotFound(what))
        },
        Err(e) => CommandResponse::from(e),
    }
}

/// The answer to a write or a delete of one key: the value that was there, the
/// null value where there was none, or the backend's error.
pub fn previous_or_null(prev: Result<Option<Value>, KvError>) -> (res: CommandResponse)
    ensures
        res@ == (match prev {
            Ok(v) => ResponseModel::of_values(seq![or_null(option_model(v))]),
            Err(e) => ResponseModel::of_error(e.status(), e.message()),
        }),
{
    match prev {
        Ok(Some(v)) => CommandResponse::from(v),
        Ok(None) => CommandResponse::from(Value::default()),
        Err(e) => CommandResponse::from(e),
    }
}

/// The answer to an existence test: the truth value, or the backend's error.
pub fn flag_or_error(held: Result<bool, KvError>) -> (res: CommandResponse)
    ensures
        res@ == (match held {
            Ok(b) => ResponseModel::of_values(seq![ValueModel::Bool(b)]),
            Err(e) => ResponseModel::of_error(e.status(), e.message()),
        }),
{
    match held {
        Ok(b) => CommandResponse::from(Value::from(b)),
        Err(e) => CommandResponse::from(e),
    }
}

/// The answer to a table scan: the pairs, or the backend's error.
pub fn listing_or_error(pairs: Result<Vec<Kvpair>, KvError>) -> (res: CommandResponse)
    ensures
        res@ == (match pairs {
            Ok(p) => ResponseModel::of_pairs(pair_models(p@)),
            Err(e) => ResponseModel::of_error(e.status(), e.message()),
        }),
{
    match pairs {
        Ok(p) => CommandResponse::from(p),
        Err(e) => CommandResponse::from(e),
    }
}

/// One slot of a multi-key answer: the value, or the null value where there is
/// none or the backend failed.
pub fn slot_value(found: Result<Option<Value>, KvError>) -> (v: Value)
    ensures
        v@ == (match found {
            Ok(o) => or_null(option_model(o)),
            Err(_) => ValueModel::Null,
        }),
{
    match found {
        Ok(Some(v)) => v,
        _ => Value::default(),
    }
}

/// One slot of a multi-key existence test: the truth value, or the null value
/// where the backend failed.
pub fn slot_flag(held: Result<bool, KvError>) -> (v: Value)
    ensures
        v@ == (match held {
            Ok(b) => ValueModel::Bool(b),
            Err(_) => ValueModel::Null,
        }),
{
    match held {
        Ok(b) => Value::from(b),
        _ => Value::default(),
    }
}

/// `Debug` of a write command, through `format!`. Nothing is stated of the
/// text.
#[verifier::external_body]
fn hset_text(cmd: &Hset) -> String {
    format!("{:?}", cmd)
}

/// A command that a storage backend serves.
pub trait CommandService: Sized {
    /// The command.
    spec fn request(&self) -> RequestModel;

    /// Runs the command against `store` and returns the answer.
    fn execute<S: Storage>(self, store: &mut S) -> (res: CommandResponse)
        ensures
            final(store).reliable() == old(store).reliable(),
            request_shape(self.request(), res@),
            request_outcome(self.request(), old(store).entries(), final(store).entries(), res@),
            old(store).reliable() ==> request_answers(
                self.request(),
                old(store).entries(),
                res@,
            ) && final(store).entries() == request_effect(self.request(), old(store).entries()),
    ;
}

impl CommandService for Hget {
    open spec fn request(&self) -> RequestModel {
        RequestModel::Hget { table: self.table@, key: self.key@ }
    }

    fn execute<S: Storage>(self, store: &mut S) -> (res: CommandResponse) {
        let found = store.get(self.table.as_str(), self.key.as_str());
        found_or_missing(self.table.as_str(), self.key.as_str(), found)
    }
}

impl CommandService for Hmget {
    open spec fn request(&self) -> RequestModel {
        RequestModel::Hmget { table: self.table@, keys: texts(self.keys@) }
    }

    fn execute<S: Storage>(self, store: &mut S) -> (res: CommandResponse) {
        let mut values: Vec<Value> = Vec::new();
        let mut i: usize = 0;
        while i < self.keys.len()
            invariant
                0 <= i <= self.keys.len(),
                values@.len() == i,
                store.reliable() ==> forall|k: int|
                    0 <= k < i ==> (#[trigger] values@[k])@ == or_null(
                        lookup(store.entries(), self.table@, self.keys@[k]@),
                    ),
                forall|k: int|
                    0 <= k < i ==> (#[trigger] values@[k])@ == or_null(
                        lookup(store.entries(), self.table@, self.keys@[k]@),
                    ) || values@[k]@ == ValueModel::Null,
            decreases self.keys.len() - i,
        {
            let found = store.get(self.table.as_str(), self.keys[i].as_str());
            values.push(slot_value(found));
            i = i + 1;
        }
        let res = CommandResponse::from(values);
        proof {
            let keys = texts(self.keys@);
            if store.reliable() {
                assert(res@.values =~= Seq::new(
                    keys.len(),
                    |i: int| or_null(lookup(store.entries(), self.table@, keys[i])),
                ));
            }
            assert forall|i: int| 0 <= i < keys.len() implies #[trigger] res@.values[i] == or_null(
                lookup(store.entries(), self.table@, keys[i]),
            ) || res@.values[i] == ValueModel::Null by {
                assert(res@.values[i] == values@[i]@);
            }
        }
        res
    }
}

impl CommandService for Hgetall {
    open spec fn request(&self) -> RequestModel {
        RequestModel::Hgetall { table: self.table@ }
    }

    fn execute<S: Storage>(self, store: &mut S) -> (res: CommandResponse) {
        listing_or_error(store.get_all(self.table.as_str()))
    }
}

impl CommandService for Hset {
    open spec fn request(&self) -> RequestModel {
        RequestModel::Hset {
            table: self.table@,
            pair: match self.pair {
                Some(p) => Some(p@),
                None => None,
            },
        }
    }

    fn execute<S: Storage>(self, store: &mut S) -> (res: CommandResponse) {
        if self.pair.is_none() {
            return CommandResponse::from(KvError::InvalidCommand(hset_text(&self)));
        }
        let pair = self.pair.unwrap();
        let value = match pair.value {
            Some(v) => v,
            None => Value::default(),
        };
        previous_or_null(store.set(self.table.as_str(), pair.key, value))
    }
}

impl CommandService for Hmset {
    open spec fn request(&self) -> RequestModel {
        RequestModel::Hmset { table: self.table@, pairs: pair_models(self.pairs@) }
    }

    fn execute<S: Storage>(self, store: &mut S) -> (res: CommandResponse) {
        let ghost models = pair_models(self.pairs@);
        let ghost table = self.table@;
        let ghost start = store.entries();
        let mut values: Vec<Value> = Vec::new();
        let mut pairs = self.pairs;
        let ghost given = pairs@;
        let ghost mut states: Seq<Entries> = seq![start];
        let n = pairs.len();
        let mut i: usize = 0;
        while i < n
            invariant
                0 <= i <= n,
                n == given.len(),
                pairs@.len() == n,
                models == pair_models(given),
                table == self.table@,
                forall|k: int| i <= k < n ==> pairs@[k] == given[k],
                values@.len() == i,
                store.reliable() == old(store).reliable(),
                store.reliable() ==> store.entries() == mset(start, table, models.take(i as int)),
                store.reliable() ==> forall|k: int|
                    0 <= k < i ==> (#[trigger] values@[k])@ == or_null(
                        lookup(mset(start, table, models.take(k)), table, models[k].key),
                    ),
                states.len() == i + 1,
                states.first() == start,
                states.last() == store.entries(),
                forall|k: int|
                    0 <= k < i ==> write_step(
                        #[trigger] states[k],
                        states[k + 1],
                        table,
                        puts(models)[k],
                        values@[k]@,
                    ),
            decreases n - i,
        {
            let mut taken = Kvpair { key: String::new(), value: None };
            pairs.set_and_swap(i, &mut taken);
            let value = match taken.value {
                Some(v) => v,
                None => Value::default(),
            };
            proof {
                assert(taken == given[i as int]);
                assert(models[i as int] == given[i as int]@);
                assert(models.take(i + 1).drop_last() =~= models.take(i as int));
            }
            let ghost held = store.entries();
            let prev = store.set(self.table.as_str(), taken.key, value);
            values.push(slot_value(prev));
            proof {
                let grown = states.push(store.entries());
                assert forall|k: int| 0 <= k < i + 1 implies write_step(
                    #[trigger] grown[k],
                    grown[k + 1],
                    table,
                    puts(models)[k],
                    values@[k]@,
                ) by {
                    if k < i {
                        assert(grown[k] == states[k] && grown[k + 1] == states[k + 1]);
                    } else {
                        assert(grown[k] == held && grown[k + 1] == store.entries());
                    }
                }
                states = grown;
            }
            i = i + 1;
        }
        let res = CommandResponse::from(values);
        proof {
            assert(is_write_run(states, table, puts(models), res@.values)) by {
                assert forall|k: int| 0 <= k < puts(models).len() implies write_step(
                    #[trigger] states[k],
                    states[k + 1],
                    table,
                    puts(models)[k],
                    res@.values[k],
                ) by {
                    assert(res@.values[k] == values@[k]@);
                }
            }
            assert(res@ == ResponseModel::of_values(res@.values));
            if store.reliable() {
                assert(models.take(n as int) =~= models);
                assert(res@.values =~= Seq::new(
                    models.len(),
                    |i: int| or_null(
                        lookup(mset(start, table, models.take(i)), table, models[i].key),
                    ),
                ));
            }
        }
        res
    }
}

impl CommandService for Hdel {
    open spec fn request(&self) -> RequestModel {
        RequestModel::Hdel { table: self.table@, key: self.key@ }
    }

    fn execute<S: Storage>(self, store: &mut S) -> (res: CommandResponse) {
        previous_or_null(store.del(self.table.as_str(), self.key.as_str()))
    }
}

impl CommandService for Hmdel {
    open spec fn request(&self) -> RequestModel {
        RequestModel::Hmdel { table: self.table@, keys: texts(self.keys@) }
    }

    fn execute<S: Storage>(self, store: &mut S) -> (res: CommandResponse) {
        let ghost keys = texts(self.keys@);
        let ghost table = self.table@;
        let ghost start = store.entries();
        let ghost mut states: Seq<Entries> = seq![start];
        let mut values: Vec<Value> = Vec::new();
        let mut i: usize = 0;
        while i < self.keys.len()
            invariant
                0 <= i <= self.keys.len(),
                keys == texts(self.keys@),
                table == self.table@,
                values@.len() == i,
                store.reliable() == old(store).reliable(),
                store.reliable() ==> store.entries() == mdel(start, table, keys.take(i as int)),
                store.reliable() ==> forall|k: int|
                    0 <= k < i ==> (#[trigger] values@[k])@ == or_null(
                        lookup(mdel(start, table, keys.take(k)), table, keys[k]),
                    ),
                states.len() == i + 1,
                states.first() == start,
                states.last() == store.entries(),
                forall|k: int|
                    0 <= k < i ==> write_step(
                        #[trigger] states[k],
                        states[k + 1],
                        table,
                        deletes(keys)[k],
                        values@[k]@,
                    ),
            decreases self.keys.len() - i,
        {
            proof {
                assert(keys.take(i + 1).drop_last() =~= keys.take(i as int));
            }
            let ghost held = store.entries();
            let prev = store.del(self.table.as_str(), self.keys[i].as_str());
            values.push(slot_value(prev));
            proof {
                let grown = states.push(store.entries());
                assert forall|k: int| 0 <= k < i + 1 implies write_step(
                    #[trigger] grown[k],
                    grown[k + 1],
                    table,
                    deletes(keys)[k],
                    values@[k]@,
                ) by {
                    if k < i {
                        assert(grown[k] == states[k] && grown[k + 1] == states[k + 1]);
                    } else {
                        assert(grown[k] == held && grown[k + 1] == store.entries());
                    }
                }
                states = grown;
            }
            i = i + 1;
        }
        let res = CommandResponse::from(values);
        proof {
            assert(is_write_run(states, table, deletes(keys), res@.values)) by {
                assert forall|k: int| 0 <= k < deletes(keys).len() implies write_step(
                    #[trigger] states[k],
                    states[k + 1],
                    table,
                    deletes(keys)[k],
                    res@.values[k],
                ) by {
                    assert(res@.values[k] == values@[k]@);
                }
            }
            assert(res@ == ResponseModel::of_values(res@.values));
            if store.reliable() {
                assert(keys.take(keys.len() as int) =~= keys);
                assert(res@.values =~= Seq::new(
                    keys.len(),
                    |i: int| or_null(lookup(mdel(start, table, keys.take(i)), table, keys[i])),
                ));
            }
        }
        res
    }
}

impl CommandService for Hexist {
    open spec fn request(&self) -> RequestModel {
        RequestModel::Hexist { table: self.table@, key: self.key@ }
    }

    fn execute<S: Storage>(self, store: &mut S) -> (res: CommandResponse) {
        flag_or_error(store.contains(self.table.as_str(), self.key.as_str()))
    }
}

impl CommandService for Hmexist {
    open spec fn request(&self) -> RequestModel {
        RequestModel::Hmexist { table: self.table@, keys: texts(self.keys@) }
    }

    fn execute<S: Storage>(self, store: &mut S) -> (res: CommandResponse) {
        let mut values: Vec<Value> = Vec::new();
        let mut i: usize = 0;
        while i < self.keys.len()
            invariant
                0 <= i <= self.keys.len(),
                values@.len() == i,
                store.reliable() ==> forall|k: int|
                    0 <= k < i ==> (#[trigger] values@[k])@ == ValueModel::Bool(
                        store.entries().contains_key((self.table@, self.keys@[k]@)),
                    ),
                forall|k: int|
                    0 <= k < i ==> (#[trigger] values@[k])@ == ValueModel::Bool(
                        store.entries().contains_key((self.table@, self.keys@[k]@)),
                    ) || values@[k]@ == ValueModel::Null,
            decreases self.keys.len() - i,
        {
            let held = store.contains(self.table.as_str(), self.keys[i].as_str());
            values.push(slot_flag(held));
            i = i + 1;
        }
        let res = CommandResponse::from(values);
        proof {
            let keys = texts(self.keys@);
            if store.reliable() {
                assert(res@.values =~= Seq::new(
                    keys.len(),
                    |i: int| ValueModel::Bool(store.entries().contains_key((self.table@, keys[i]))),
                ));
            }
            assert forall|i: int| 0 <= i < keys.len() implies #[trigger] res@.values[i]
                == ValueModel::Bool(store.entries().contains_key((self.table@, keys[i])))
                || res@.values[i] == ValueModel::Null by {
                assert(res@.values[i] == values@[i]@);
            }
        }
        res
    }
}

} // verus!
