use kv_server::service::is_read;
use kv_server::{
    dispatch, dispatch_read, CommandRequest, CommandResponse, Kvpair, MemTable, Notify,
    NotifyMut, Service, ServiceInner, SledDb, Value,
};
use std::sync::{Arc, Mutex};

fn assert_res_ok(mut res: CommandResponse, values: &[Value], pairs: &[Kvpair]) {
    res.pairs.sort_by(|a, b| a.partial_cmp(b).unwrap());

    assert_eq!(res.status, 200);
    assert_eq!(res.message, "");
    assert_eq!(res.values, values);
    assert_eq!(res.pairs, pairs);
}

struct Silent;

impl Notify<CommandRequest> for Silent {
    fn notify(&self, _: &CommandRequest) {}
}

struct ShowRequest;

impl Notify<CommandRequest> for ShowRequest {
    fn notify(&self, cmd: &CommandRequest) {
        println!("Got {:?}", cmd);
    }
}

struct ShowResponse;

impl Notify<CommandResponse> for ShowResponse {
    fn notify(&self, res: &CommandResponse) {
        println!("{:?}", res);
    }
}

struct Created;

impl NotifyMut<CommandResponse> for Created {
    fn notify(&self, res: &mut CommandResponse) {
        res.status = 201;
    }
}

struct Sent;

impl Notify<()> for Sent {
    fn notify(&self, _: &()) {
        println!("Data is sent.");
    }
}

#[test]
fn service_should_works() {
    let service: Service = ServiceInner::new(MemTable::default()).into();

    let svc = service.clone();

    let res = svc.execute(CommandRequest::new_hset("t1", "k1", "v1".into()));
    assert_res_ok(res, &[Value::default()], &[]);

    let res = service.execute(CommandRequest::new_hget("t1", "k1"));
    assert_res_ok(res, &["v1".into()], &[]);
}

#[test]
fn event_registration_should_work() {
    let service: Service = ServiceInner::new(MemTable::default())
        .fn_received(Box::new(Silent))
        .fn_received(Box::new(ShowRequest))
        .fn_executed(Box::new(ShowResponse))
        .fn_before_send(Box::new(Created))
        .fn_after_send(Box::new(Sent))
        .into();

    let res = service.execute(CommandRequest::new_hset("t1", "k1", "v1".into()));

    assert_eq!(res.status, 201);
    assert_eq!(res.message, "");
    assert_eq!(res.values, vec![Value::default()]);
}

type Log = Arc<Mutex<Vec<String>>>;

struct Note(Log, &'static str);

impl Notify<CommandRequest> for Note {
    fn notify(&self, _: &CommandRequest) {
        self.0.lock().unwrap().push(format!("received {}", self.1));
    }
}

impl Notify<CommandResponse> for Note {
    fn notify(&self, res: &CommandResponse) {
        self.0.lock().unwrap().push(format!("executed {} {}", self.1, res.status));
    }
}

impl NotifyMut<CommandResponse> for Note {
    fn notify(&self, res: &mut CommandResponse) {
        self.0.lock().unwrap().push(format!("before send {} {}", self.1, res.message));
        res.message.push_str(self.1);
        res.status += 1;
    }
}

impl Notify<()> for Note {
    fn notify(&self, _: &()) {
        self.0.lock().unwrap().push(format!("after send {}", self.1));
    }
}

#[test]
fn hooks_run_at_their_point_in_the_order_of_registration() {
    let log: Log = Arc::new(Mutex::new(Vec::new()));
    let mut inner = ServiceInner::new(MemTable::new())
        .fn_after_send(Box::new(Note(log.clone(), "a")))
        .fn_before_send(Box::new(Note(log.clone(), "b")))
        .fn_executed(Box::new(Note(log.clone(), "c")))
        .fn_received(Box::new(Note(log.clone(), "d")))
        .fn_received(Box::new(Note(log.clone(), "e")))
        .fn_executed(Box::new(Note(log.clone(), "f")))
        .fn_before_send(Box::new(Note(log.clone(), "g")))
        .fn_after_send(Box::new(Note(log.clone(), "h")));

    let res = inner.execute(CommandRequest::new_hget("t", "k"));

    assert_eq!(res.status, 406);
    assert_eq!(res.message, "Not found for table: t, key: kbg");
    assert_eq!(
        *log.lock().unwrap(),
        vec![
            "received d",
            "received e",
            "executed c 404",
            "executed f 404",
            "before send b Not found for table: t, key: k",
            "before send g Not found for table: t, key: kb",
            "after send a",
            "after send h",
        ]
    );
}

#[test]
fn service_without_hooks_answers_as_dispatch_does() {
    let mut inner = ServiceInner::new(MemTable::new());
    let res = inner.execute(CommandRequest::new_hset("t", "k", 1.into()));
    assert_eq!(res, CommandResponse::from(Value::default()));
    let res = inner.execute(CommandRequest::new_hset("t", "k", 2.into()));
    assert_eq!(res, CommandResponse::from(Value::from(1)));
    let res = inner.execute(CommandRequest { request_data: None });
    assert_eq!(res.status, 400);
}

#[test]
fn clones_of_a_service_work_on_one_store() {
    let service: Service = ServiceInner::new(MemTable::new()).into();
    let first = service.clone();
    let second = first.clone();

    first.execute(CommandRequest::new_hset("t", "a", 1.into()));
    second.execute(CommandRequest::new_hset("t", "b", 2.into()));
    drop(first);

    let res = service.execute(CommandRequest::new_hmexist(
        "t",
        vec!["a".to_string(), "b".to_string(), "c".to_string()],
    ));
    assert_eq!(
        res.pairs,
        vec![
            Kvpair::new("a", true.into()),
            Kvpair::new("b", true.into()),
            Kvpair::new("c", false.into()),
        ]
    );
}

#[test]
fn service_on_the_persistent_backend() {
    let dir = tempfile::tempdir().unwrap();
    let store = SledDb::new(dir.path().to_str().unwrap()).unwrap();
    let service: Service<SledDb> = ServiceInner::new(store).into();

    let res = service.execute(CommandRequest::new_hset("t1", "k1", "v1".into()));
    assert_eq!(res, CommandResponse::from(Value::default()));
    let res = service.execute(CommandRequest::new_hget("t1", "k1"));
    assert_eq!(res, CommandResponse::from(Value::from("v1")));
    let res = service.execute(CommandRequest::new_hget("a:b", "k1"));
    assert_eq!(res.status, 400);
}

fn shared_between_threads<T: Send + Sync>() {}

#[test]
fn service_can_be_shared_between_threads() {
    shared_between_threads::<Service>();
    shared_between_threads::<Service<SledDb>>();
}

fn reads() -> Vec<CommandRequest> {
    vec![
        CommandRequest::new_hget("t", "k"),
        CommandRequest::new_hget("t", "none"),
        CommandRequest::new_hgetall("t"),
        CommandRequest::new_hmget("t", vec!["k".to_string(), "none".to_string()]),
        CommandRequest::new_hexist("t", "k"),
        CommandRequest::new_hmexist("t", vec!["k".to_string(), "none".to_string()]),
        CommandRequest { request_data: None },
    ]
}

fn writes() -> Vec<CommandRequest> {
    vec![
        CommandRequest::new_hset("t", "k", 2.into()),
        CommandRequest::new_hmset("t", vec![Kvpair::new("k", 3.into())]),
        CommandRequest::new_hdel("t", "k"),
        CommandRequest::new_hmdel("t", vec!["k".to_string()]),
    ]
}

#[test]
fn requests_that_read_are_told_from_requests_that_write() {
    for cmd in reads() {
        assert!(is_read(&cmd));
    }
    for cmd in writes() {
        assert!(!is_read(&cmd));
    }
}

#[test]
fn a_read_is_answered_as_dispatch_answers_it() {
    let mut store = MemTable::new();
    dispatch(CommandRequest::new_hset("t", "k", 1.into()), &mut store);

    for cmd in reads() {
        let answer = dispatch_read(cmd.clone(), &store);
        assert_eq!(answer, Ok(dispatch(cmd, &mut store)));
    }
}

#[test]
fn a_write_is_handed_back_and_changes_nothing() {
    let mut store = MemTable::new();
    dispatch(CommandRequest::new_hset("t", "k", 1.into()), &mut store);

    for cmd in writes() {
        assert_eq!(dispatch_read(cmd.clone(), &store), Err(cmd));
    }
    let res = dispatch(CommandRequest::new_hget("t", "k"), &mut store);
    assert_res_ok(res, &[1.into()], &[]);
}

#[test]
fn hooks_run_around_a_read_as_around_a_write() {
    let log: Log = Arc::new(Mutex::new(Vec::new()));
    let inner = ServiceInner::new(MemTable::new())
        .fn_received(Box::new(Note(log.clone(), "a")))
        .fn_executed(Box::new(Note(log.clone(), "b")))
        .fn_before_send(Box::new(Note(log.clone(), "c")))
        .fn_after_send(Box::new(Note(log.clone(), "d")));

    let back = inner.execute_read(CommandRequest::new_hset("t", "k", 1.into()));
    assert_eq!(back, Err(CommandRequest::new_hset("t", "k", 1.into())));
    assert_eq!(*log.lock().unwrap(), Vec::<String>::new());

    let res = inner.execute_read(CommandRequest::new_hexist("t", "k")).unwrap();
    assert_eq!(res.status, 201);
    assert_eq!(res.message, "c");
    assert_eq!(res.values, vec![Value::from(false)]);
    assert_eq!(
        *log.lock().unwrap(),
        vec!["received a", "executed b 200", "before send c ", "after send d"]
    );

    let service: Service = inner.into();
    let res = service.execute(CommandRequest::new_hset("t", "k", 1.into()));
    assert_eq!(res.status, 201);
    let res = service.execute(CommandRequest::new_hget("t", "k"));
    assert_eq!(res.status, 201);
    assert_eq!(res.values, vec![Value::from(1)]);
    assert_eq!(log.lock().unwrap().len(), 12);
}
