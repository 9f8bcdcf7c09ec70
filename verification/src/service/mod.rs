//! The service: a store, a broker, and the hooks that run around each command.

use vstd::prelude::*;
use vstd::std_specs::convert::FromSpecImpl;
use vstd::string::StringExecFns;

pub mod broker;
pub mod command_service;
pub mod registry;
pub mod topic;
pub mod topic_service;

use crate::error::KvError;
use crate::pb::abi::command_request::RequestData;
use crate::pb::abi::{CommandRequest, CommandResponse};
use crate::pb::model::ResponseModel;
use crate::storage::Storage;
use broker::BrokerModel;
use command_service::{
    no_data, request_answers, request_effect, request_outcome, request_shape, CommandService,
};
use topic::{Broadcaster, Topic};
use topic_service::{stream_answers, StreamingResponse, TopicService};

verus! {

/// What a response built from `e` stands for.
pub open spec fn error_response(e: KvError) -> ResponseModel {
    ResponseModel::of_error(e.status(), e.message())
}

/// Whether every one of `hooks` can return success on `arg`.
pub open spec fn all_pass<Arg, F: Fn(&Arg) -> Result<(), KvError>>(hooks: Seq<F>, arg: &Arg) -> bool {
    forall|i: int| 0 <= i < hooks.len() ==> call_ensures(#[trigger] hooks[i], (arg,), Ok::<(), KvError>(()))
}

/// Whether one of `hooks` can fail with `e` on `arg` after all hooks before it
/// returned success.
pub open spec fn fails_with<Arg, F: Fn(&Arg) -> Result<(), KvError>>(
    hooks: Seq<F>,
    arg: &Arg,
    e: KvError,
) -> bool {
    exists|i: int|
        0 <= i < hooks.len() && call_ensures(#[trigger] hooks[i], (arg,), Err::<(), KvError>(e))
            && all_pass(hooks.take(i), arg)
}

/// Whether `states` are the values that `hooks` saw and returned, in order:
/// each hook, fed one state, can return the next.
pub open spec fn is_rewriting<Arg, F: Fn(Arg) -> Result<Arg, KvError>>(
    hooks: Seq<F>,
    states: Seq<Arg>,
) -> bool {
    &&& states.len() == hooks.len() + 1
    &&& forall|i: int|
        0 <= i < hooks.len() ==> call_ensures(
            #[trigger] hooks[i],
            (states[i],),
            Ok::<Arg, KvError>(states[i + 1]),
        )
}

/// Whether `hooks`, each fed what the one before returned, can turn `from`
/// into `to`.
pub open spec fn all_rewrite<Arg, F: Fn(Arg) -> Result<Arg, KvError>>(
    hooks: Seq<F>,
    from: Arg,
    to: Arg,
) -> bool {
    exists|states: Seq<Arg>|
        #[trigger] is_rewriting(hooks, states) && states.first() == from && states.last() == to
}

/// Whether one of `hooks` can fail with `e` after the hooks before it rewrote
/// `from`, each fed what the one before returned.
pub open spec fn rewrite_fails_with<Arg, F: Fn(Arg) -> Result<Arg, KvError>>(
    hooks: Seq<F>,
    from: Arg,
    e: KvError,
) -> bool {
    exists|i: int, mid: Arg|
        0 <= i < hooks.len() && #[trigger] all_rewrite(hooks.take(i), from, mid) && call_ensures(
            hooks[i],
            (mid,),
            Err::<Arg, KvError>(e),
        )
}

/// Hooks that look at a value.
pub trait Notify<Arg> {
    /// Whether every hook may be called on `arg`.
    spec fn accepts(&self, arg: &Arg) -> bool;

    /// Whether every hook can return success on `arg`.
    spec fn passes(&self, arg: &Arg) -> bool;

    /// Whether a hook can fail with `e` after all hooks before it passed.
    spec fn rejects(&self, arg: &Arg, e: KvError) -> bool;

    /// Calls the hooks in order. Stops at the first that fails and returns the
    /// response that reports its error.
    fn notify(&self, arg: &Arg) -> (r: Result<(), CommandResponse>)
        requires
            self.accepts(arg),
        ensures
            r is Ok ==> self.passes(arg),
            r matches Err(res) ==> exists|e: KvError|
                #![trigger self.rejects(arg, e)]
                self.rejects(arg, e) && res@ == error_response(e),
    ;
}

/// Hooks that may rewrite a value.
pub trait NotifyMut<Arg> {
    /// Whether every hook may be called on every value.
    spec fn accepts(&self) -> bool;

    /// Whether the hooks, in order, can rewrite `from` into `to`.
    spec fn rewrites(&self, from: Arg, to: Arg) -> bool;

    /// Whether a hook can fail with `e` after the hooks before it rewrote
    /// `from`.
    spec fn rejects(&self, from: Arg, e: KvError) -> bool;

    /// Calls the hooks in order, each on what the one before returned. Stops
    /// at the first that fails and returns the response that reports its
    /// error; what the earlier hooks wrote is then dropped.
    fn notify(&self, arg: Arg) -> (r: Result<Arg, CommandResponse>)
        requires
            self.accepts(),
        ensures
            r matches Ok(to) ==> self.rewrites(arg, to),
            r matches Err(res) ==> exists|e: KvError|
                #![trigger self.rejects(arg, e)]
                self.rejects(arg, e) && res@ == error_response(e),
    ;
}

impl<Arg, F: Fn(&Arg) -> Result<(), KvError>> Notify<Arg> for Vec<F> {
    open spec fn accepts(&self, arg: &Arg) -> bool {
        forall|i: int| 0 <= i < self@.len() ==> call_requires(#[trigger] self@[i], (arg,))
    }

    open spec fn passes(&self, arg: &Arg) -> bool {
        all_pass(self@, arg)
    }

    open spec fn rejects(&self, arg: &Arg, e: KvError) -> bool {
        fails_with(self@, arg, e)
    }

    fn notify(&self, arg: &Arg) -> (r: Result<(), CommandResponse>) {
        let mut i: usize = 0;
        while i < self.len()
            invariant
                0 <= i <= self@.len(),
                forall|k: int| 0 <= k < self@.len() ==> call_requires(#[trigger] self@[k], (arg,)),
                all_pass(self@.take(i as int), arg),
            decreases self@.len() - i,
        {
            let f = &self[i];
            let out = f(arg);
            match out {
                Err(e) => {
                    let ghost err = e;
                    let res = CommandResponse::from(e);
                    proof {
                        assert(call_ensures(self@[i as int], (arg,), Err::<(), KvError>(err)));
                        assert(fails_with(self@, arg, err));
                        assert(self.rejects(arg, err) && res@ == error_response(err));
                    }
                    return Err(res);
                },
                Ok(unit) => {
                    proof {
                        assert(out == Ok::<(), KvError>(()));
                        assert forall|k: int| 0 <= k < i + 1 implies call_ensures(
                            #[trigger] self@.take(i + 1)[k],
                            (arg,),
                            Ok::<(), KvError>(()),
                        ) by {
                            if k < i {
                                assert(self@.take(i as int)[k] == self@.take(i + 1)[k]);
                            }
                        }
                    }
                },
            }
            i = i + 1;
        }
        proof {
            assert(self@.take(i as int) =~= self@);
        }
        Ok(())
    }
}

impl<Arg, F: Fn(Arg) -> Result<Arg, KvError>> NotifyMut<Arg> for Vec<F> {
    open spec fn accepts(&self) -> bool {
        forall|i: int, arg: Arg| 0 <= i < self@.len() ==> #[trigger] call_requires(self@[i], (arg,))
    }

    open spec fn rewrites(&self, from: Arg, to: Arg) -> bool {
        all_rewrite(self@, from, to)
    }

    open spec fn rejects(&self, from: Arg, e: KvError) -> bool {
        rewrite_fails_with(self@, from, e)
    }

    fn notify(&self, arg: Arg) -> (r: Result<Arg, CommandResponse>) {
        let mut i: usize = 0;
        let mut current = arg;
        let ghost mut states: Seq<Arg> = seq![arg];
        while i < self.len()
            invariant
                0 <= i <= self@.len(),
                forall|k: int, a: Arg|
                    0 <= k < self@.len() ==> #[trigger] call_requires(self@[k], (a,)),
                is_rewriting(self@.take(i as int), states),
                states.first() == arg,
                states.last() == current,
            decreases self@.len() - i,
        {
            let f = &self[i];
            let ghost fed = current;
            let out = f(current);
            match out {
                Err(e) => {
                    let ghost err = e;
                    let res = CommandResponse::from(e);
                    proof {
                        assert(call_ensures(self@[i as int], (fed,), Err::<Arg, KvError>(err)));
                        assert(all_rewrite(self@.take(i as int), arg, fed));
                        assert(rewrite_fails_with(self@, arg, err));
                        assert(self.rejects(arg, err) && res@ == error_response(err));
                    }
                    return Err(res);
                },
                Ok(next) => {
                    proof {
                        let grown = self@.take(i + 1);
                        let before = states;
                        states = states.push(next);
                        assert forall|k: int| 0 <= k < grown.len() implies call_ensures(
                            #[trigger] grown[k],
                            (states[k],),
                            Ok::<Arg, KvError>(states[k + 1]),
                        ) by {
                            if k < i {
                                assert(self@.take(i as int)[k] == grown[k]);
                                assert(before[k] == states[k]);
                                assert(before[k + 1] == states[k + 1]);
                            } else {
                                assert(states[k] == fed);
                                assert(states[k + 1] == next);
                            }
                        }
                    }
                    current = next;
                },
            }
            i = i + 1;
        }
        proof {
            assert(self@.take(i as int) =~= self@);
            assert(all_rewrite(self@, arg, current));
        }
        Ok(current)
    }
}

/// Runs a storage command against `store`. A request without a command is
/// answered with status 400; a broker command is not for the store and is
/// answered with the empty response, the store untouched. On a store that may
/// fail, each outcome of the store is answered as
/// [`command_service::request_outcome`] says.
pub fn dispatch<S: Storage>(cmd: CommandRequest, store: &mut S) -> (res: CommandResponse)
    ensures
        final(store).reliable() == old(store).reliable(),
        request_shape(cmd@, res@),
        request_outcome(cmd@, old(store).entries(), final(store).entries(), res@),
        cmd@ is Empty ==> res@ == no_data() && final(store).entries() == old(store).entries(),
        cmd@.is_streaming() ==> res@ == ResponseModel::empty() && final(store).entries() == old(
            store).entries(),
        old(store).reliable() ==> request_answers(cmd@, old(store).entries(), res@) && final(
            store).entries() == request_effect(cmd@, old(store).entries()),
{
    match cmd.request_data {
        Some(RequestData::Hget(v)) => v.execute(store),
        Some(RequestData::Hmget(v)) => v.execute(store),
        Some(RequestData::Hgetall(v)) => v.execute(store),
        Some(RequestData::Hset(v)) => v.execute(store),
        Some(RequestData::Hmset(v)) => v.execute(store),
        Some(RequestData::Hdel(v)) => v.execute(store),
        Some(RequestData::Hmdel(v)) => v.execute(store),
        Some(RequestData::Hexist(v)) => v.execute(store),
        Some(RequestData::Hmexist(v)) => v.execute(store),
        None => CommandResponse::from(
            KvError::InvalidCommand(String::from_str("Request has no data")),
        ),
        _ => CommandResponse::default(),
    }
}

/// Runs a broker command against `topic`.
pub fn dispatch_stream<T: Topic>(cmd: CommandRequest, topic: &mut T) -> (out: StreamingResponse)
    requires
        cmd@.is_streaming(),
    ensures
        old(topic).inv() ==> final(topic).inv(),
        stream_answers(cmd@, old(topic).model(), final(topic).model(), out@),
{
    match cmd.request_data {
        Some(RequestData::Publish(param)) => param.execute(topic),
        Some(RequestData::Subscribe(param)) => param.execute(topic),
        Some(RequestData::Unsubscribe(param)) => param.execute(topic),
        Some(RequestData::Psubscribe(param)) => param.execute(topic),
        Some(RequestData::Punsubscribe(param)) => param.execute(topic),
        _ => {
            assert(false);
            StreamingResponse::Once(CommandResponse::default())
        },
    }
}

/// Whether a hook that looks at a value may be called on every value.
pub open spec fn looks_at_any<Arg, F: Fn(&Arg) -> Result<(), KvError>>(f: F) -> bool {
    forall|arg: &Arg| call_requires(f, (arg,))
}

/// Whether a hook that rewrites a value may be called on every value.
pub open spec fn rewrites_any<Arg, F: Fn(Arg) -> Result<Arg, KvError>>(f: F) -> bool {
    forall|arg: Arg| call_requires(f, (arg,))
}

/// Whether each of `hooks` may be called on every value.
pub open spec fn all_look_at_any<Arg, F: Fn(&Arg) -> Result<(), KvError>>(hooks: Seq<F>) -> bool {
    forall|i: int| 0 <= i < hooks.len() ==> looks_at_any(#[trigger] hooks[i])
}

/// Whether each of `hooks` may be called on every value.
pub open spec fn all_rewrite_any<Arg, F: Fn(Arg) -> Result<Arg, KvError>>(hooks: Seq<F>) -> bool {
    forall|i: int| 0 <= i < hooks.len() ==> rewrites_any(#[trigger] hooks[i])
}

/// Whether each of `hooks` may be called.
pub open spec fn all_callable<F: Fn() -> Result<(), KvError>>(hooks: Seq<F>) -> bool {
    forall|i: int| 0 <= i < hooks.len() ==> call_requires(#[trigger] hooks[i], ())
}

/// Whether `out` is what the hooks after execution make of the dispatcher's
/// answer `rep`: the first error of a hook, as a response, or else `rep` as the
/// last before-send hook returned it.
pub open spec fn pipeline_outcome<
    E: Fn(&CommandResponse) -> Result<(), KvError>,
    B: Fn(CommandResponse) -> Result<CommandResponse, KvError>,
>(executed: Seq<E>, before_send: Seq<B>, rep: CommandResponse, out: StreamingResponse) -> bool {
    ||| exists|e: KvError| #[trigger]
        fails_with(executed, &rep, e) && out@ == topic_service::StreamModel::Once(
            error_response(e),
        )
    ||| all_pass(executed, &rep) && exists|e: KvError| #[trigger]
        rewrite_fails_with(before_send, rep, e) && out@ == topic_service::StreamModel::Once(
            error_response(e),
        )
    ||| all_pass(executed, &rep) && exists|last: CommandResponse| #[trigger]
        all_rewrite(before_send, rep, last) && out == StreamingResponse::Once(last)
}

/// Without hooks behind the execution, the dispatcher's answer goes out as it
/// is.
pub proof fn law_no_hooks_no_change<
    E: Fn(&CommandResponse) -> Result<(), KvError>,
    B: Fn(CommandResponse) -> Result<CommandResponse, KvError>,
>(rep: CommandResponse, out: StreamingResponse)
    requires
        pipeline_outcome(Seq::<E>::empty(), Seq::<B>::empty(), rep, out),
    ensures
        out == StreamingResponse::Once(rep),
{
    let executed = Seq::<E>::empty();
    let before_send = Seq::<B>::empty();
    assert forall|e: KvError| !fails_with(executed, &rep, e) by {}
    assert forall|e: KvError| !rewrite_fails_with(before_send, rep, e) by {}
    let last = choose|last: CommandResponse| #[trigger]
        all_rewrite(before_send, rep, last) && out == StreamingResponse::Once(last);
    let states = choose|states: Seq<CommandResponse>|
        #[trigger] is_rewriting(before_send, states) && states.first() == rep && states.last()
            == last;
    assert(states.len() == 1);
}

/// A store with the hooks that run around each command.
pub struct ServiceInner<Store, R, E, B, A> {
    store: Store,
    on_received: Vec<R>,
    on_executed: Vec<E>,
    on_before_send: Vec<B>,
    on_after_send: Vec<A>,
}

impl<
    Store: Storage,
    R: Fn(&CommandRequest) -> Result<(), KvError>,
    E: Fn(&CommandResponse) -> Result<(), KvError>,
    B: Fn(CommandResponse) -> Result<CommandResponse, KvError>,
    A: Fn() -> Result<(), KvError>,
> ServiceInner<Store, R, E, B, A> {
    /// The store.
    pub closed spec fn store(&self) -> Store {
        self.store
    }

    /// The hooks that see each request, in the order they run.
    pub closed spec fn received_hooks(&self) -> Seq<R> {
        self.on_received@
    }

    /// The hooks that see each answer, in the order they run.
    pub closed spec fn executed_hooks(&self) -> Seq<E> {
        self.on_executed@
    }

    /// The hooks that may rewrite each answer, in the order they run.
    pub closed spec fn before_send_hooks(&self) -> Seq<B> {
        self.on_before_send@
    }

    /// The hooks that run after an answer was sent, in the order they run.
    pub closed spec fn after_send_hooks(&self) -> Seq<A> {
        self.on_after_send@
    }

    /// Whether every hook may be called on every value.
    pub open spec fn wf(&self) -> bool {
        &&& all_look_at_any(self.received_hooks())
        &&& all_look_at_any(self.executed_hooks())
        &&& all_rewrite_any(self.before_send_hooks())
        &&& all_callable(self.after_send_hooks())
    }

    /// A service over `store` with no hooks.
    pub fn new(store: Store) -> (inner: Self)
        ensures
            inner.wf(),
            inner.store() == store,
            inner.received_hooks() == Seq::<R>::empty(),
            inner.executed_hooks() == Seq::<E>::empty(),
            inner.before_send_hooks() == Seq::<B>::empty(),
            inner.after_send_hooks() == Seq::<A>::empty(),
    {
        Self {
            store,
            on_received: Vec::new(),
            on_executed: Vec::new(),
            on_before_send: Vec::new(),
            on_after_send: Vec::new(),
        }
    }

    /// Adds a hook that sees each request before it is executed.
    pub fn fn_received(self, f: R) -> (inner: Self)
        requires
            self.wf(),
            looks_at_any(f),
        ensures
            inner.wf(),
            inner.store() == self.store(),
            inner.received_hooks() == self.received_hooks().push(f),
            inner.executed_hooks() == self.executed_hooks(),
            inner.before_send_hooks() == self.before_send_hooks(),
            inner.after_send_hooks() == self.after_send_hooks(),
    {
        let mut inner = self;
        inner.on_received.push(f);
        inner
    }

    /// Adds a hook that sees each answer after execution.
    pub fn fn_executed(self, f: E) -> (inner: Self)
        requires
            self.wf(),
            looks_at_any(f),
        ensures
            inner.wf(),
            inner.store() == self.store(),
            inner.received_hooks() == self.received_hooks(),
            inner.executed_hooks() == self.executed_hooks().push(f),
            inner.before_send_hooks() == self.before_send_hooks(),
            inner.after_send_hooks() == self.after_send_hooks(),
    {
        let mut inner = self;
        inner.on_executed.push(f);
        inner
    }

    /// Adds a hook that may rewrite each answer before it is sent.
    pub fn fn_before_send(self, f: B) -> (inner: Self)
        requires
            self.wf(),
            rewrites_any(f),
        ensures
            inner.wf(),
            inner.store() == self.store(),
            inner.received_hooks() == self.received_hooks(),
            inner.executed_hooks() == self.executed_hooks(),
            inner.before_send_hooks() == self.before_send_hooks().push(f),
            inner.after_send_hooks() == self.after_send_hooks(),
    {
        let mut inner = self;
        inner.on_before_send.push(f);
        inner
    }

    /// Adds a hook that runs after an answer was sent.
    pub fn fn_after_send(self, f: A) -> (inner: Self)
        requires
            self.wf(),
            call_requires(f, ()),
        ensures
            inner.wf(),
            inner.store() == self.store(),
            inner.received_hooks() == self.received_hooks(),
            inner.executed_hooks() == self.executed_hooks(),
            inner.before_send_hooks() == self.before_send_hooks(),
            inner.after_send_hooks() == self.after_send_hooks().push(f),
    {
        let mut inner = self;
        inner.on_after_send.push(f);
        inner
    }
}

/// The service: a store with its hooks, and a broker.
pub struct Service<Store, R, E, B, A> {
    inner: ServiceInner<Store, R, E, B, A>,
    broadcaster: Broadcaster,
}

impl<
    Store: Storage,
    R: Fn(&CommandRequest) -> Result<(), KvError>,
    E: Fn(&CommandResponse) -> Result<(), KvError>,
    B: Fn(CommandResponse) -> Result<CommandResponse, KvError>,
    A: Fn() -> Result<(), KvError>,
> Service<Store, R, E, B, A> {
    /// The store with its hooks.
    pub closed spec fn inner(&self) -> ServiceInner<Store, R, E, B, A> {
        self.inner
    }

    /// What the broker knows.
    pub closed spec fn broker(&self) -> BrokerModel {
        self.broadcaster@
    }

    /// Whether the service is in a state its operations accept.
    pub open spec fn wf(&self) -> bool {
        self.inner().wf() && self.broker().wf()
    }

    /// A service over `inner` with a broker nobody has subscribed to.
    pub fn new(inner: ServiceInner<Store, R, E, B, A>) -> (service: Self)
        requires
            inner.wf(),
        ensures
            service.wf(),
            service.inner() == inner,
            service.broker() == BrokerModel::initial(),
    {
        Service { inner, broadcaster: Broadcaster::new() }
    }

    /// Handles one command. The request hooks run first; if one fails, its
    /// error is the answer and nothing else happens. A broker command then
    /// goes to the broker. A storage command goes to the store, and its answer
    /// through the hooks after execution and the hooks before sending, the
    /// first error of a hook replacing the answer.
    ///
    /// The outcome is one of three: a request hook turned the command away;
    /// all request hooks passed and the broker answered; all request hooks
    /// passed, the store answered with some `rep`, and the later hooks made
    /// the outcome of `rep`.
    #[verifier::rlimit(50)]
    pub fn execute(&mut self, cmd: CommandRequest) -> (out: StreamingResponse)
        requires
            old(self).wf(),
        ensures
            final(self).wf(),
            final(self).inner().received_hooks() == old(self).inner().received_hooks(),
            final(self).inner().executed_hooks() == old(self).inner().executed_hooks(),
            final(self).inner().before_send_hooks() == old(self).inner().before_send_hooks(),
            final(self).inner().after_send_hooks() == old(self).inner().after_send_hooks(),
            final(self).inner().store().reliable() == old(self).inner().store().reliable(),
            ({
                ||| {
                    &&& exists|e: KvError| #[trigger]
                        fails_with(old(self).inner().received_hooks(), &cmd, e) && out@
                            == topic_service::StreamModel::Once(error_response(e))
                    &&& final(self).broker() == old(self).broker()
                    &&& final(self).inner().store().entries() == old(self).inner().store().entries()
                }
                ||| {
                    &&& all_pass(old(self).inner().received_hooks(), &cmd)
                    &&& cmd@.is_streaming()
                    &&& stream_answers(cmd@, old(self).broker(), final(self).broker(), out@)
                    &&& final(self).inner().store().entries() == old(self).inner().store().entries()
                }
                ||| {
                    &&& all_pass(old(self).inner().received_hooks(), &cmd)
                    &&& !cmd@.is_streaming()
                    &&& final(self).broker() == old(self).broker()
                    &&& exists|rep: CommandResponse|
                        {
                            &&& #[trigger] pipeline_outcome(
                                old(self).inner().executed_hooks(),
                                old(self).inner().before_send_hooks(),
                                rep,
                                out,
                            )
                            &&& request_shape(cmd@, rep@)
                            &&& request_outcome(
                                cmd@,
                                old(self).inner().store().entries(),
                                final(self).inner().store().entries(),
                                rep@,
                            )
                            &&& cmd@ is Empty ==> rep@ == no_data() && final(
                                self).inner().store().entries() == old(
                                self).inner().store().entries()
                            &&& old(self).inner().store().reliable() ==> request_answers(
                                cmd@,
                                old(self).inner().store().entries(),
                                rep@,
                            ) && final(self).inner().store().entries() == request_effect(
                                cmd@,
                                old(self).inner().store().entries(),
                            )
                        }
                }
            }),
    {
        if let Err(e) = self.inner.on_received.notify(&cmd) {
            return StreamingResponse::Once(e);
        }
        if is_streaming(&cmd) {
            return dispatch_stream(cmd, &mut self.broadcaster);
        }
        let res = dispatch(cmd, &mut self.inner.store);
        let ghost rep = res;
        if let Err(e) = self.inner.on_executed.notify(&res) {
            let out = StreamingResponse::Once(e);
            proof {
                assert(pipeline_outcome(
                    old(self).inner().executed_hooks(),
                    old(self).inner().before_send_hooks(),
                    rep,
                    out,
                ));
            }
            return out;
        }
        match self.inner.on_before_send.notify(res) {
            Err(e) => {
                let out = StreamingResponse::Once(e);
                proof {
                    assert(pipeline_outcome(
                        old(self).inner().executed_hooks(),
                        old(self).inner().before_send_hooks(),
                        rep,
                        out,
                    ));
                }
                out
            },
            Ok(last) => {
                let out = StreamingResponse::Once(last);
                proof {
                    assert(all_rewrite(old(self).inner().before_send_hooks(), rep, last));
                    assert(pipeline_outcome(
                        old(self).inner().executed_hooks(),
                        old(self).inner().before_send_hooks(),
                        rep,
                        out,
                    ));
                }
                out
            },
        }
    }

    /// Runs the hooks that follow the sending of an answer, in order, and
    /// stops at the first that fails.
    pub fn sent(&self) -> (r: Result<(), CommandResponse>)
        requires
            self.wf(),
        ensures
            r is Ok ==> forall|i: int|
                0 <= i < self.inner().after_send_hooks().len() ==> call_ensures(
                    #[trigger] self.inner().after_send_hooks()[i],
                    (),
                    Ok::<(), KvError>(()),
                ),
            r matches Err(res) ==> exists|i: int, e: KvError|
                0 <= i < self.inner().after_send_hooks().len() && #[trigger] call_ensures(
                    self.inner().after_send_hooks()[i],
                    (),
                    Err::<(), KvError>(e),
                ) && res@ == error_response(e),
    {
        let hooks = &self.inner.on_after_send;
        let mut i: usize = 0;
        while i < hooks.len()
            invariant
                0 <= i <= hooks@.len(),
                hooks@ == self.inner().after_send_hooks(),
                forall|k: int| 0 <= k < hooks@.len() ==> call_requires(#[trigger] hooks@[k], ()),
                forall|k: int|
                    0 <= k < i ==> call_ensures(#[trigger] hooks@[k], (), Ok::<(), KvError>(())),
            decreases hooks@.len() - i,
        {
            let f = &hooks[i];
            let out = f();
            match out {
                Err(e) => {
                    let ghost err = e;
                    let res = CommandResponse::from(e);
                    proof {
                        assert(call_ensures(hooks@[i as int], (), Err::<(), KvError>(err))
                            && res@ == error_response(err));
                    }
                    return Err(res);
                },
                Ok(unit) => {
                    assert(out == Ok::<(), KvError>(()));
                },
            }
            i = i + 1;
        }
        Ok(())
    }

    /// The broker, for the delivery of published values.
    pub fn broadcaster(&mut self) -> (b: &mut Broadcaster)
        ensures
            b@ == old(self).broker(),
            final(self).broker() == final(b)@,
            final(self).inner() == old(self).inner(),
    {
        &mut self.broadcaster
    }
}

impl<
    Store: Storage,
    R: Fn(&CommandRequest) -> Result<(), KvError>,
    E: Fn(&CommandResponse) -> Result<(), KvError>,
    B: Fn(CommandResponse) -> Result<CommandResponse, KvError>,
    A: Fn() -> Result<(), KvError>,
> From<ServiceInner<Store, R, E, B, A>> for Service<Store, R, E, B, A> {
    /// A service over `inner` with a broker nobody has subscribed to.
    fn from(inner: ServiceInner<Store, R, E, B, A>) -> (service: Self)
        ensures
            inner.wf() ==> service.wf(),
            service.inner() == inner,
            service.broker() == BrokerModel::initial(),
    {
        Service { inner, broadcaster: Broadcaster::new() }
    }
}

impl<
    Store: Storage,
    R: Fn(&CommandRequest) -> Result<(), KvError>,
    E: Fn(&CommandResponse) -> Result<(), KvError>,
    B: Fn(CommandResponse) -> Result<CommandResponse, KvError>,
    A: Fn() -> Result<(), KvError>,
> FromSpecImpl<ServiceInner<Store, R, E, B, A>> for Service<Store, R, E, B, A> {
    open spec fn obeys_from_spec() -> bool {
        false
    }

    open spec fn from_spec(inner: ServiceInner<Store, R, E, B, A>) -> Self {
        arbitrary()
    }
}

/// Whether a command is served by the broker rather than by storage.
pub fn is_streaming(cmd: &CommandRequest) -> (streaming: bool)
    ensures
        streaming == cmd@.is_streaming(),
{
    match &cmd.request_data {
        Some(RequestData::Subscribe(_)) => true,
        Some(RequestData::Unsubscribe(_)) => true,
        Some(RequestData::Publish(_)) => true,
        Some(RequestData::Psubscribe(_)) => true,
        Some(RequestData::Punsubscribe(_)) => true,
        _ => false,
    }
}

} // verus!
