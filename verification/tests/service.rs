use bytes::BytesMut;
use simple_kv::{
    CommandRequest, CommandResponse, FrameCoder, KvError, MemTable, Notify, NotifyMut, Service,
    ServiceInner, StreamingResponse, Topic, Value,
};

type Received = fn(&CommandRequest) -> Result<(), KvError>;
type Executed = fn(&CommandResponse) -> Result<(), KvError>;
type BeforeSend = fn(CommandResponse) -> Result<CommandResponse, KvError>;
type AfterSend = fn() -> Result<(), KvError>;
type Inner = ServiceInner<MemTable, Received, Executed, BeforeSend, AfterSend>;

fn once(out: StreamingResponse) -> CommandResponse {
    match out {
        StreamingResponse::Once(res) => res,
        _ => panic!("a single response was expected"),
    }
}

fn assert_ok(res: &CommandResponse, values: &[Value]) {
    assert_eq!(res.status, 200);
    assert_eq!(res.message, "");
    assert_eq!(res.values, values);
    assert!(res.kvpairs.is_empty());
}

fn assert_error(res: &CommandResponse, code: u32, msg: &str) {
    assert_eq!(res.status, code);
    assert!(res.message.contains(msg));
    assert_eq!(res.values, &[]);
    assert_eq!(res.kvpairs, &[]);
}

fn pass_request(_: &CommandRequest) -> Result<(), KvError> {
    Ok(())
}

fn fail_request(_: &CommandRequest) -> Result<(), KvError> {
    Err(KvError::Internal("Something went wrong".into()))
}

fn never_request(_: &CommandRequest) -> Result<(), KvError> {
    panic!("a hook behind a failed hook was called")
}

fn pass_response(_: &CommandResponse) -> Result<(), KvError> {
    Ok(())
}

fn reject_response(_: &CommandResponse) -> Result<(), KvError> {
    Err(KvError::InvalidCommand("rejected after execution".into()))
}

fn created(mut res: CommandResponse) -> Result<CommandResponse, KvError> {
    res.status = 201;
    Ok(res)
}

fn fail_before_send(_: CommandResponse) -> Result<CommandResponse, KvError> {
    Err(KvError::Internal("Something went wrong".into()))
}

fn back_to_ok(mut res: CommandResponse) -> Result<CommandResponse, KvError> {
    res.status = 200;
    Ok(res)
}

fn add_note(mut res: CommandResponse) -> Result<CommandResponse, KvError> {
    res.message.push_str("seen");
    Ok(res)
}

fn sent_ok() -> Result<(), KvError> {
    Ok(())
}

fn sent_failed() -> Result<(), KvError> {
    Err(KvError::IOError("peer is gone".into()))
}

#[test]
fn service_should_work() {
    let mut service: Service<_, _, _, _, _> = Inner::new(MemTable::default()).into();
    let res = once(service.execute(CommandRequest::new_hset("t1", "k1", "v1".into())));
    assert_ok(&res, &[Value::default()]);
    let res = once(service.execute(CommandRequest::new_hget("t1", "k1")));
    assert_ok(&res, &["v1".into()]);
}

#[test]
fn event_registration_should_work() {
    let inner = Inner::new(MemTable::default())
        .fn_received(pass_request)
        .fn_received(pass_request)
        .fn_executed(pass_response)
        .fn_before_send(created)
        .fn_after_send(sent_ok);
    let mut service = Service::new(inner);

    let data = once(service.execute(CommandRequest::new_hset("t1", "k1", "v1".into())));
    assert_eq!(data.status, 201);
    assert_eq!(data.message, "");
    assert_eq!(data.values, vec![Value::default()]);
    assert!(service.sent().is_ok());
}

#[test]
fn test_pipeline_should_return_early_when_something_went_wrong() {
    let inner = Inner::new(MemTable::default())
        .fn_received(pass_request)
        .fn_received(pass_request)
        .fn_received(fail_request)
        .fn_received(never_request);
    let mut service = Service::new(inner);

    let data = once(service.execute(CommandRequest::new_hset("t1", "k1", "v1".into())));
    assert_error(&data, 500, "Something went wrong");
    // the command was not executed
    let data = once(service.execute(CommandRequest::new_hget("t1", "k1")));
    assert_error(&data, 500, "Something went wrong");
}

#[test]
fn test_pipeline_should_return_early_when_mut_fn_went_wrong() {
    let inner = Inner::new(MemTable::default())
        .fn_received(pass_request)
        .fn_received(pass_request)
        .fn_executed(pass_response)
        .fn_before_send(created)
        .fn_before_send(fail_before_send)
        .fn_before_send(back_to_ok);
    let mut service = Service::new(inner);

    let data = once(service.execute(CommandRequest::new_hset("t1", "k1", "v1".into())));
    assert_error(&data, 500, "Something went wrong");
}

#[test]
fn failed_request_hook_leaves_the_store_untouched() {
    let mut probe = Service::new(Inner::new(MemTable::default()));
    once(probe.execute(CommandRequest::new_hset("t1", "k1", "v1".into())));
    assert_ok(&once(probe.execute(CommandRequest::new_hexist("t1", "k1"))), &[true.into()]);

    let mut guarded = Service::new(Inner::new(MemTable::default()).fn_received(fail_request));
    let res = once(guarded.execute(CommandRequest::new_hset("t1", "k1", "v1".into())));
    assert_eq!(res.status, 500);
    assert_eq!(res.message, "Internal error: Something went wrong");
    // a subscribe is turned away as well, and hands out no id
    let res = once(guarded.execute(CommandRequest::new_subscribe("lobby")));
    assert_eq!(res.status, 500);
}

#[test]
fn before_send_hooks_rewrite_in_order() {
    let inner = Inner::new(MemTable::default())
        .fn_before_send(created)
        .fn_before_send(add_note)
        .fn_before_send(back_to_ok);
    let mut service = Service::new(inner);
    let res = once(service.execute(CommandRequest::new_hget("t1", "k1")));
    assert_eq!(res.status, 200);
    assert_eq!(res.message, "Not found: t1:k1seen");

    let inner = Inner::new(MemTable::default()).fn_before_send(back_to_ok).fn_before_send(created);
    let mut service = Service::new(inner);
    let res = once(service.execute(CommandRequest::new_hget("t1", "k1")));
    assert_eq!(res.status, 201);
}

#[test]
fn executed_hook_error_replaces_the_answer_but_the_command_ran() {
    let inner = Inner::new(MemTable::default()).fn_executed(reject_response).fn_before_send(created);
    let mut service = Service::new(inner);
    let res = once(service.execute(CommandRequest::new_hset("t1", "k1", "v1".into())));
    assert_eq!(res.status, 400);
    assert_eq!(res.message, "Cannot parse command: rejected after execution");
    assert!(res.values.is_empty());
}

#[test]
fn after_send_hooks_stop_at_the_first_error() {
    let inner = Inner::new(MemTable::default()).fn_after_send(sent_ok).fn_after_send(sent_failed);
    let service = Service::new(inner);
    let res = service.sent().unwrap_err();
    assert_eq!(res.status, 500);
    assert_eq!(res.message, "I/O error");
    let none = Service::new(Inner::new(MemTable::default()));
    assert!(none.sent().is_ok());
}

#[test]
fn notify_runs_hooks_until_one_fails() {
    let cmd = CommandRequest::new_hget("t", "k");
    let hooks: Vec<Received> = vec![pass_request, fail_request, never_request];
    let res = hooks.notify(&cmd).unwrap_err();
    assert_eq!(res.status, 500);
    assert_eq!(res.message, "Internal error: Something went wrong");
    let hooks: Vec<Received> = vec![pass_request, pass_request];
    assert!(hooks.notify(&cmd).is_ok());
    let none: Vec<Received> = vec![];
    assert!(none.notify(&cmd).is_ok());

    let rewrite: Vec<BeforeSend> = vec![created, add_note];
    let out = rewrite.notify(CommandResponse::ok()).unwrap();
    assert_eq!((out.status, out.message.as_str()), (201, "seen"));
    let rewrite: Vec<BeforeSend> = vec![created, fail_before_send, add_note];
    let err = rewrite.notify(CommandResponse::ok()).unwrap_err();
    assert_eq!(err.status, 500);
    assert!(err.message.contains("Something went wrong"));
}

#[test]
fn service_routes_broker_commands_to_the_broker() {
    let mut service = Service::new(Inner::new(MemTable::default()).fn_before_send(created));
    let first = match service.execute(CommandRequest::new_subscribe("lobby")) {
        StreamingResponse::Subscription { id, first } => {
            assert_eq!(id, 1);
            first
        }
        _ => panic!("a subscription was expected"),
    };
    // the hooks that follow execution are for storage answers only
    assert_ok(&first, &[1i64.into()]);
    match service.execute(CommandRequest::new_publish("lobby", vec!["hello".into()])) {
        StreamingResponse::Delivery { reply, topic, message, targets } => {
            assert_ok(&reply, &[]);
            assert_eq!(topic, "lobby");
            assert_ok(&message, &["hello".into()]);
            assert_eq!(targets, vec![1]);
        }
        _ => panic!("a delivery was expected"),
    }
    let res = once(service.execute(CommandRequest::new_unsubscribe("lobby", 1)));
    assert_ok(&res, &[]);
    assert!(service.broadcaster().publish("lobby").is_empty());
}

/// One logical stream as the wire sees it: the frames a client wrote, and the
/// frames the server wrote back.
struct Wire {
    to_server: BytesMut,
    to_client: BytesMut,
}

impl Wire {
    fn new() -> Self {
        Wire { to_server: BytesMut::new(), to_client: BytesMut::new() }
    }

    fn ask(&mut self, cmd: &CommandRequest) -> bool {
        let before = self.to_server.len();
        cmd.encode_frame(&mut self.to_server).unwrap();
        self.to_server[before] >> 6 != 0
    }

    fn serve(
        &mut self,
        service: &mut Service<MemTable, Received, Executed, BeforeSend, AfterSend>,
    ) -> bool {
        let cmd = CommandRequest::decode_frame(&mut self.to_server).unwrap();
        let res = match service.execute(cmd) {
            StreamingResponse::Once(res) => res,
            StreamingResponse::Subscription { first, .. } => first,
            StreamingResponse::Delivery { reply, .. } => reply,
        };
        let before = self.to_client.len();
        res.encode_frame(&mut self.to_client).unwrap();
        self.to_client[before] >> 6 != 0
    }

    fn answer(&mut self) -> CommandResponse {
        CommandResponse::decode_frame(&mut self.to_client).unwrap()
    }
}

#[test]
fn client_server_basic_communication_should_work() {
    let mut service = Service::new(Inner::new(MemTable::default()));
    let mut wire = Wire::new();

    let cmd = CommandRequest::new_hset("t1", "k1", "v1".into());
    wire.ask(&cmd);
    wire.serve(&mut service);
    assert_ok(&wire.answer(), &[Value::default()]);

    let cmd = CommandRequest::new_hget("t1", "k1");
    wire.ask(&cmd);
    wire.serve(&mut service);
    assert_ok(&wire.answer(), &["v1".into()]);
}

#[test]
fn client_server_compression_communication_should_work() {
    let mut service = Service::new(Inner::new(MemTable::default()));
    let mut wire = Wire::new();
    let v: Value = vec![0u8; 16384].into();

    assert!(wire.ask(&CommandRequest::new_hset("t1", "k1", v.clone())));
    assert!(!wire.serve(&mut service));
    assert_ok(&wire.answer(), &[Value::default()]);

    assert!(!wire.ask(&CommandRequest::new_hget("t1", "k1")));
    assert!(wire.serve(&mut service));
    let res = wire.answer();
    assert_ok(&res, &[v.clone()]);
    assert_eq!(res.values[0], v);
    assert!(wire.to_server.is_empty() && wire.to_client.is_empty());
}

#[test]
fn two_streams_of_one_service_keep_their_answers_apart() {
    let mut service = Service::new(Inner::new(MemTable::default()));
    let mut storage = Wire::new();
    let mut pubsub = Wire::new();

    storage.ask(&CommandRequest::new_hset("t1", "k1", "v1".into()));
    pubsub.ask(&CommandRequest::new_subscribe("lobby"));
    storage.ask(&CommandRequest::new_hget("t1", "k1"));
    pubsub.ask(&CommandRequest::new_publish("lobby", vec!["hello".into()]));
    storage.ask(&CommandRequest::new_hget("t1", "k2"));

    pubsub.serve(&mut service);
    storage.serve(&mut service);
    pubsub.serve(&mut service);
    storage.serve(&mut service);
    storage.serve(&mut service);

    assert_ok(&storage.answer(), &[Value::default()]);
    assert_ok(&storage.answer(), &["v1".into()]);
    assert_error(&storage.answer(), 404, "Not found: t1:k2");
    assert_ok(&pubsub.answer(), &[1i64.into()]);
    assert_ok(&pubsub.answer(), &[]);
    assert!(storage.to_client.is_empty() && pubsub.to_client.is_empty());
}
