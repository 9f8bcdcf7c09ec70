//! The broker commands: what each answers and what it does to the broker.

use vstd::prelude::*;
use vstd::string::StringExecFns;

use super::broker::BrokerModel;
use super::registry::{free_of_separators, glob_compiles};
use super::topic::Topic;
use crate::error::KvError;
use crate::pb::abi::command_request::RequestData;
use crate::pb::abi::{
    CommandRequest, CommandResponse, PSubscribe, PUnsubscribe, Publish, Subscribe, Unsubscribe,
    Value,
};
use crate::pb::model::{value_models, RequestModel, ResponseModel, ValueModel};
use crate::text::decimal;

verus! {

/// What the server is to send back for a command.
pub enum StreamingResponse {
    /// One response; then the stream ends.
    Once(CommandResponse),
    /// A subscription was made. `first` goes out first and carries the id;
    /// after it, every value published to the subscription follows.
    Subscription { id: u32, first: CommandResponse },
    /// A publish was accepted. `reply` goes back to the publisher; `message`
    /// is to be delivered to each of `targets`, then to the subscribers of
    /// the patterns that match `topic`.
    Delivery { reply: CommandResponse, topic: String, message: CommandResponse, targets: Vec<u32> },
}

/// What a [`StreamingResponse`] stands for.
pub enum StreamModel {
    Once(ResponseModel),
    Subscription { id: u32, first: ResponseModel },
    Delivery { reply: ResponseModel, topic: Seq<char>, message: ResponseModel, targets: Seq<u32> },
}

impl View for StreamingResponse {
    type V = StreamModel;

    open spec fn view(&self) -> StreamModel {
        match self {
            StreamingResponse::Once(res) => StreamModel::Once(res@),
            StreamingResponse::Subscription { id, first } => StreamModel::Subscription {
                id: *id,
                first: first@,
            },
            StreamingResponse::Delivery { reply, topic, message, targets } => StreamModel::Delivery {
                reply: reply@,
                topic: topic@,
                message: message@,
                targets: targets@,
            },
        }
    }
}

/// The first response on a new subscription: its id.
pub open spec fn subscribed(id: u32) -> StreamModel {
    StreamModel::Subscription {
        id,
        first: ResponseModel::of_values(seq![ValueModel::Integer(id as i64)]),
    }
}

/// The answer when every subscription id has been handed out.
pub open spec fn exhausted() -> StreamModel {
    StreamModel::Once(
        ResponseModel::of_error(500, "Internal error: "@ + "no subscription id is left"@),
    )
}

/// The answer to a pattern that is no glob pattern.
pub open spec fn bad_pattern(pattern: Seq<char>) -> StreamModel {
    StreamModel::Once(ResponseModel::of_error(400, "Cannot parse command: "@ + pattern))
}

/// The answer to ending a subscription that is not there; `kind` is
/// `"subscription "` or `"pattern "`.
pub open spec fn unknown_id(kind: Seq<char>, id: u32) -> StreamModel {
    StreamModel::Once(ResponseModel::of_error(404, "Not found: "@ + (kind + decimal(id as nat))))
}

/// The answer to a subscription that was ended.
pub open spec fn done() -> StreamModel {
    StreamModel::Once(ResponseModel::of_values(Seq::empty()))
}

/// Whether `out` answers the broker command `cmd`, given the broker before and
/// after it. A pattern command is answered in one of two ways, by whether its
/// pattern is a glob pattern; of a pattern without a path separator it is said
/// which.
pub open spec fn stream_answers(
    cmd: RequestModel,
    before: BrokerModel,
    after: BrokerModel,
    out: StreamModel,
) -> bool {
    match cmd {
        RequestModel::Subscribe { topic } => if before.has_free_id() {
            after == before.subscribe(topic) && out == subscribed(before.next_id)
        } else {
            after == before && out == exhausted()
        },
        RequestModel::Psubscribe { pattern } => if before.has_free_id() {
            &&& {
                ||| after == before.psubscribe(pattern) && out == subscribed(before.next_id)
                ||| after == before && out == bad_pattern(pattern)
            }
            &&& free_of_separators(pattern) ==> (out == bad_pattern(pattern)) == !glob_compiles(
                pattern,
            )
        } else {
            after == before && out == exhausted()
        },
        RequestModel::Unsubscribe { topic, id } => after == before.unsubscribe(topic, id) && out == (
        if before.subscriptions.contains(id) {
            done()
        } else {
            unknown_id("subscription "@, id)
        }),
        RequestModel::Punsubscribe { pattern, id } => {
            &&& {
                ||| after == before.punsubscribe(pattern, id) && out == (
                if before.subscriptions.contains(id) {
                    done()
                } else {
                    unknown_id("pattern "@, id)
                })
                ||| after == before && out == bad_pattern(pattern)
            }
            &&& free_of_separators(pattern) ==> (out == bad_pattern(pattern)) == !glob_compiles(
                pattern,
            )
        },
        RequestModel::Publish { topic, values } => {
            &&& after == before
            &&& out matches StreamModel::Delivery { reply, topic: to, message, targets }
            &&& reply == ResponseModel::of_values(Seq::empty())
            &&& to == topic
            &&& message == ResponseModel::of_values(values)
            &&& targets.no_duplicates()
            &&& targets.to_set() == before.topic_targets(topic)
        },
        _ => false,
    }
}

/// A command that a topic backend serves.
pub trait TopicService: Sized {
    /// The command.
    spec fn request(&self) -> RequestModel;

    /// Runs the command against `topic` and returns what is to be sent back.
    fn execute<T: Topic>(self, topic: &mut T) -> (out: StreamingResponse)
        ensures
            old(topic).inv() ==> final(topic).inv(),
            stream_answers(self.request(), old(topic).model(), final(topic).model(), out@),
    ;
}

/// The response that is an integer value.
fn id_response(id: u32) -> (res: CommandResponse)
    ensures
        res@ == ResponseModel::of_values(seq![ValueModel::Integer(id as i64)]),
{
    CommandResponse::from(Value::from(id as i64))
}

/// The answer when every subscription id has been handed out.
fn exhausted_response() -> (out: StreamingResponse)
    ensures
        out@ == exhausted(),
{
    StreamingResponse::Once(
        CommandResponse::from(KvError::Internal(String::from_str("no subscription id is left"))),
    )
}

impl TopicService for Subscribe {
    open spec fn request(&self) -> RequestModel {
        RequestModel::Subscribe { topic: self.topic@ }
    }

    fn execute<T: Topic>(self, topic: &mut T) -> (out: StreamingResponse) {
        if !topic.has_free_id() {
            return exhausted_response();
        }
        let id = topic.subscribe(self.topic);
        StreamingResponse::Subscription { id, first: id_response(id) }
    }
}

impl TopicService for PSubscribe {
    open spec fn request(&self) -> RequestModel {
        RequestModel::Psubscribe { pattern: self.pattern@ }
    }

    fn execute<T: Topic>(self, topic: &mut T) -> (out: StreamingResponse) {
        if !topic.has_free_id() {
            return exhausted_response();
        }
        match topic.psubscribe(self.pattern.as_str()) {
            Ok(id) => StreamingResponse::Subscription { id, first: id_response(id) },
            Err(e) => StreamingResponse::Once(CommandResponse::from(e)),
        }
    }
}

impl TopicService for Unsubscribe {
    open spec fn request(&self) -> RequestModel {
        RequestModel::Unsubscribe { topic: self.topic@, id: self.id }
    }

    fn execute<T: Topic>(self, topic: &mut T) -> (out: StreamingResponse) {
        let res = match topic.unsubscribe(self.topic, self.id) {
            Ok(_) => CommandResponse::ok(),
            Err(e) => CommandResponse::from(e),
        };
        StreamingResponse::Once(res)
    }
}

impl TopicService for PUnsubscribe {
    open spec fn request(&self) -> RequestModel {
        RequestModel::Punsubscribe { pattern: self.pattern@, id: self.id }
    }

    fn execute<T: Topic>(self, topic: &mut T) -> (out: StreamingResponse) {
        let res = match topic.punsubscribe(self.pattern.as_str(), self.id) {
            Ok(_) => CommandResponse::ok(),
            Err(e) => CommandResponse::from(e),
        };
        StreamingResponse::Once(res)
    }
}

impl TopicService for Publish {
    open spec fn request(&self) -> RequestModel {
        RequestModel::Publish { topic: self.topic@, values: value_models(self.value@) }
    }

    fn execute<T: Topic>(self, topic: &mut T) -> (out: StreamingResponse) {
        let targets = topic.publish(self.topic.as_str());
        StreamingResponse::Delivery {
            reply: CommandResponse::ok(),
            topic: self.topic,
            message: CommandResponse::from(self.value),
            targets,
        }
    }
}

/// The subscription whose channel a command has closed: the id that a command
/// to end a subscription names, where the answer says that it was ended.
pub open spec fn ended(cmd: RequestModel, out: StreamModel) -> Option<u32> {
    match (cmd, out) {
        (RequestModel::Unsubscribe { id, .. }, StreamModel::Once(res)) => if res.status == 200 {
            Some(id)
        } else {
            None
        },
        (RequestModel::Punsubscribe { id, .. }, StreamModel::Once(res)) => if res.status == 200 {
            Some(id)
        } else {
            None
        },
        _ => None,
    }
}

/// The subscription whose channel is to be closed after `cmd` was answered
/// with `out`, if there is one.
pub fn ended_subscription(cmd: &CommandRequest, out: &StreamingResponse) -> (id: Option<u32>)
    ensures
        id == ended(cmd@, out@),
{
    let named = match &cmd.request_data {
        Some(RequestData::Unsubscribe(c)) => Some(c.id),
        Some(RequestData::Punsubscribe(c)) => Some(c.id),
        _ => None,
    };
    match (named, out) {
        (Some(id), StreamingResponse::Once(res)) => if res.status == 200 {
            Some(id)
        } else {
            None
        },
        _ => None,
    }
}

} // verus!
