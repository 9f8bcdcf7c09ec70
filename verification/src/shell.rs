//! The commands of the interactive client: from the words of a line to the
//! request they ask for. The first word is the command's name.

use vstd::prelude::*;

use crate::error::KvError;
use crate::pb::abi::{CommandRequest, Kvpair, Value};
use crate::pb::model::{pair_models, texts, value_models, PairModel, RequestModel, ValueModel};

verus! {

/// The error that tells how a command is to be written.
fn usage(text: &str) -> (e: KvError)
    ensures
        e matches KvError::InvalidCommand(why) && why@ == text@,
{
    KvError::InvalidCommand(text.to_owned())
}

/// Whether `r` is the request `cmd` where the line has at least `needed`
/// words, and else the error that shows `text`.
pub open spec fn parsed_or_usage(
    r: Result<CommandRequest, KvError>,
    words: int,
    needed: int,
    cmd: RequestModel,
    text: Seq<char>,
) -> bool {
    if words >= needed {
        r matches Ok(c) && c@ == cmd
    } else {
        r matches Err(KvError::InvalidCommand(why)) && why@ == text
    }
}

/// The words of a line from the `from`th on.
pub open spec fn words_from(args: Seq<String>, from: int) -> Seq<Seq<char>> {
    Seq::new((args.len() - from) as nat, |i: int| args[from + i]@)
}

/// The pairs that the words of a line from the third on make, two words to a
/// pair.
pub open spec fn pairs_from_words(args: Seq<String>) -> Seq<PairModel> {
    Seq::new(
        ((args.len() - 2) / 2) as nat,
        |i: int|
            PairModel {
                key: args[2 + 2 * i]@,
                value: Some(ValueModel::String(args[3 + 2 * i]@)),
            },
    )
}

/// Copies of the words of a line from the third on.
fn rest_of(args: &Vec<String>) -> (rest: Vec<String>)
    requires
        args@.len() >= 2,
    ensures
        texts(rest@) == words_from(args@, 2),
{
    let mut rest: Vec<String> = Vec::new();
    let mut i: usize = 2;
    while i < args.len()
        invariant
            2 <= i <= args@.len(),
            rest@.len() == i - 2,
            forall|k: int| 0 <= k < rest@.len() ==> (#[trigger] rest@[k])@ == args@[2 + k]@,
        decreases args@.len() - i,
    {
        rest.push(args[i].clone());
        i = i + 1;
    }
    proof {
        assert(texts(rest@) =~= words_from(args@, 2));
    }
    rest
}

/// `HSET <table> <key> <value>`
pub fn hset(args: &Vec<String>) -> (r: Result<CommandRequest, KvError>)
    ensures
        parsed_or_usage(
            r,
            args@.len() as int,
            4,
            RequestModel::Hset {
                table: args@[1]@,
                pair: Some(
                    PairModel { key: args@[2]@, value: Some(ValueModel::String(args@[3]@)) },
                ),
            },
            "Usage: HSET <table> <key> <value>"@,
        ),
{
    if args.len() < 4 {
        return Err(usage("Usage: HSET <table> <key> <value>"));
    }
    Ok(CommandRequest::new_hset(args[1].as_str(), args[2].as_str(), Value::from(args[3].clone())))
}

/// `HMSET <table> <key1> <value1> ... <keyN> <valueN>`
pub fn hmset(args: &Vec<String>) -> (r: Result<CommandRequest, KvError>)
    ensures
        args@.len() < 2 ==> (r matches Err(KvError::InvalidCommand(why)) && why@
            == "Usage: HMSET <table> <key1> <value1> ... <keyN> <valueN>"@),
        args@.len() >= 2 && args@.len() % 2 == 1 ==> (r matches Err(KvError::InvalidCommand(why))
            && why@ == "The keys' number doesn't match to the values"@),
        args@.len() >= 2 && args@.len() % 2 == 0 ==> (r matches Ok(c) && c@ == (RequestModel::Hmset {
            table: args@[1]@,
            pairs: pairs_from_words(args@),
        })),
{
    if args.len() < 2 {
        return Err(usage("Usage: HMSET <table> <key1> <value1> ... <keyN> <valueN>"));
    }
    if args.len() % 2 == 1 {
        return Err(usage("The keys' number doesn't match to the values"));
    }
    let mut pairs: Vec<Kvpair> = Vec::new();
    let mut i: usize = 2;
    while i < args.len()
        invariant
            2 <= i <= args@.len(),
            i % 2 == 0,
            args@.len() % 2 == 0,
            pairs@.len() == (i - 2) / 2,
            forall|k: int|
                0 <= k < pairs@.len() ==> (#[trigger] pairs@[k])@ == (PairModel {
                    key: args@[2 + 2 * k]@,
                    value: Some(ValueModel::String(args@[3 + 2 * k]@)),
                }),
        decreases args@.len() - i,
    {
        pairs.push(Kvpair::new(args[i].as_str(), Value::from(args[i + 1].clone())));
        i = i + 2;
    }
    proof {
        assert(pair_models(pairs@) =~= pairs_from_words(args@));
    }
    Ok(CommandRequest::new_hmset(args[1].as_str(), pairs))
}

/// `HGET <table> <key>`
pub fn hget(args: &Vec<String>) -> (r: Result<CommandRequest, KvError>)
    ensures
        parsed_or_usage(
            r,
            args@.len() as int,
            3,
            RequestModel::Hget { table: args@[1]@, key: args@[2]@ },
            "Usage: HGET <table> <key>"@,
        ),
{
    if args.len() < 3 {
        return Err(usage("Usage: HGET <table> <key>"));
    }
    Ok(CommandRequest::new_hget(args[1].as_str(), args[2].as_str()))
}

/// `HMGET <table> <key1> <key2> ... <keyN>`
pub fn hmget(args: &Vec<String>) -> (r: Result<CommandRequest, KvError>)
    ensures
        parsed_or_usage(
            r,
            args@.len() as int,
            2,
            RequestModel::Hmget { table: args@[1]@, keys: words_from(args@, 2) },
            "Usage: HMGET <table> <key1> <key2> ... <keyN>"@,
        ),
{
    if args.len() < 2 {
        return Err(usage("Usage: HMGET <table> <key1> <key2> ... <keyN>"));
    }
    Ok(CommandRequest::new_hmget(args[1].as_str(), rest_of(args)))
}

/// `HGETALL <table>`
pub fn hgetall(args: &Vec<String>) -> (r: Result<CommandRequest, KvError>)
    ensures
        parsed_or_usage(
            r,
            args@.len() as int,
            2,
            RequestModel::Hgetall { table: args@[1]@ },
            "Usage: HGETALL <table>"@,
        ),
{
    if args.len() < 2 {
        return Err(usage("Usage: HGETALL <table>"));
    }
    Ok(CommandRequest::new_hgetall(args[1].as_str()))
}

/// `HDEL <table> <key>`
pub fn hdel(args: &Vec<String>) -> (r: Result<CommandRequest, KvError>)
    ensures
        parsed_or_usage(
            r,
            args@.len() as int,
            3,
            RequestModel::Hdel { table: args@[1]@, key: args@[2]@ },
            "Usage: HDEL <table> <key>"@,
        ),
{
    if args.len() < 3 {
        return Err(usage("Usage: HDEL <table> <key>"));
    }
    Ok(CommandRequest::new_hdel(args[1].as_str(), args[2].as_str()))
}

/// `HMDEL <table> <key1> <key2> ... <keyN>`
pub fn hmdel(args: &Vec<String>) -> (r: Result<CommandRequest, KvError>)
    ensures
        parsed_or_usage(
            r,
            args@.len() as int,
            2,
            RequestModel::Hmdel { table: args@[1]@, keys: words_from(args@, 2) },
            "Usage: HDEL <table> <key>"@,
        ),
{
    if args.len() < 2 {
        return Err(usage("Usage: HDEL <table> <key>"));
    }
    Ok(CommandRequest::new_hmdel(args[1].as_str(), rest_of(args)))
}

/// `HEXIST <table> <key>`
pub fn hexist(args: &Vec<String>) -> (r: Result<CommandRequest, KvError>)
    ensures
        parsed_or_usage(
            r,
            args@.len() as int,
            3,
            RequestModel::Hexist { table: args@[1]@, key: args@[2]@ },
            "Usage: HEXIST <table> <key>"@,
        ),
{
    if args.len() < 3 {
        return Err(usage("Usage: HEXIST <table> <key>"));
    }
    Ok(CommandRequest::new_hexist(args[1].as_str(), args[2].as_str()))
}

/// `HMEXIST <table> <key1> <key2> ... <keyN>`
pub fn hmexist(args: &Vec<String>) -> (r: Result<CommandRequest, KvError>)
    ensures
        parsed_or_usage(
            r,
            args@.len() as int,
            2,
            RequestModel::Hmexist { table: args@[1]@, keys: words_from(args@, 2) },
            "Usage: HMEXIST <table> <key1> <key2> ... <keyN>"@,
        ),
{
    if args.len() < 2 {
        return Err(usage("Usage: HMEXIST <table> <key1> <key2> ... <keyN>"));
    }
    Ok(CommandRequest::new_hmexist(args[1].as_str(), rest_of(args)))
}

/// `SUBSCRIBE <channel>`
pub fn subscribe(args: &Vec<String>) -> (r: Result<CommandRequest, KvError>)
    ensures
        parsed_or_usage(
            r,
            args@.len() as int,
            2,
            RequestModel::Subscribe { topic: args@[1]@ },
            "Usage: SUBSCRIBE <channel> "@,
        ),
{
    if args.len() < 2 {
        return Err(usage("Usage: SUBSCRIBE <channel> "));
    }
    Ok(CommandRequest::new_subscribe(args[1].as_str()))
}

/// `PSUBSCRIBE <pattern>`
pub fn psubscribe(args: &Vec<String>) -> (r: Result<CommandRequest, KvError>)
    ensures
        parsed_or_usage(
            r,
            args@.len() as int,
            2,
            RequestModel::Psubscribe { pattern: args@[1]@ },
            "Usage: PSUBSCRIBE <pattern> "@,
        ),
{
    if args.len() < 2 {
        return Err(usage("Usage: PSUBSCRIBE <pattern> "));
    }
    Ok(CommandRequest::new_psubscribe(args[1].as_str()))
}

/// `PUBLISH <channel> <message>`
pub fn publish(args: &Vec<String>) -> (r: Result<CommandRequest, KvError>)
    ensures
        parsed_or_usage(
            r,
            args@.len() as int,
            3,
            RequestModel::Publish {
                topic: args@[1]@,
                values: seq![ValueModel::String(args@[2]@)],
            },
            "Usage: PUBLISH <channel> <message>"@,
        ),
{
    if args.len() < 3 {
        return Err(usage("Usage: PUBLISH <channel> <message>"));
    }
    let mut values: Vec<Value> = Vec::new();
    values.push(Value::from(args[2].clone()));
    proof {
        assert(value_models(values@) =~= seq![ValueModel::String(args@[2]@)]);
    }
    Ok(CommandRequest::new_publish(args[1].as_str(), values))
}

} // verus!
