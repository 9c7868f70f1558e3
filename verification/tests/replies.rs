use kv_server::service::command_service::{
    hdel_response, hexist_response, hget_response, hgetall_response, hset_response,
};
use kv_server::{combine_error_messages, CommandResponse, KvError, Kvpair, Value};

fn storage_error() -> KvError {
    KvError::StorageError("get", "t1".to_string(), "k1".to_string(), "disk is gone".to_string())
}

#[test]
fn every_error_has_its_text() {
    assert_eq!(
        KvError::NotFound("t1".into(), "k1".into()).to_string(),
        "Not found for table: t1, key: k1"
    );
    assert_eq!(
        KvError::InvalidCommand("what".into()).to_string(),
        "Cannot parse command: `what`"
    );
    assert_eq!(
        KvError::ConvertError(Value::from(1), "bool").to_string(),
        "Cannot convert value to bool"
    );
    assert_eq!(
        storage_error().to_string(),
        "Cannot process command get with table: t1, key: k1. Error: disk is gone"
    );
    assert_eq!(
        KvError::EncodeError("too long".into()).to_string(),
        "Failed to encode value: too long"
    );
    assert_eq!(
        KvError::DecodeError("unknown tag".into()).to_string(),
        "Failed to decode value: unknown tag"
    );
    assert_eq!(
        KvError::Internal("oops".into()).to_string(),
        "Internal error: oops"
    );
}

#[test]
fn every_error_has_its_status() {
    let status = |e: KvError| CommandResponse::from(e).status;
    assert_eq!(status(KvError::NotFound("t".into(), "k".into())), 404);
    assert_eq!(status(KvError::InvalidCommand("c".into())), 400);
    assert_eq!(status(KvError::ConvertError(Value::default(), "i64")), 500);
    assert_eq!(status(storage_error()), 500);
    assert_eq!(status(KvError::EncodeError("e".into())), 500);
    assert_eq!(status(KvError::DecodeError("d".into())), 500);
    assert_eq!(status(KvError::Internal("i".into())), 500);
}

#[test]
fn error_response_carries_text_and_no_payload() {
    let res = CommandResponse::from(storage_error());
    assert_eq!(
        res,
        CommandResponse {
            status: 500,
            message: "Cannot process command get with table: t1, key: k1. Error: disk is gone"
                .to_string(),
            values: vec![],
            pairs: vec![],
        }
    );
}

#[test]
fn responses_from_values_and_pairs() {
    assert_eq!(
        CommandResponse::from(Value::from("v")),
        CommandResponse {
            status: 200,
            message: String::new(),
            values: vec!["v".into()],
            pairs: vec![],
        }
    );
    assert_eq!(
        CommandResponse::from(true),
        CommandResponse {
            status: 200,
            message: String::new(),
            values: vec![true.into()],
            pairs: vec![],
        }
    );
    assert_eq!(
        CommandResponse::from(Kvpair::new("k", 1.into())),
        CommandResponse {
            status: 200,
            message: String::new(),
            values: vec![],
            pairs: vec![Kvpair::new("k", 1.into())],
        }
    );
    assert_eq!(
        CommandResponse::from(vec![Kvpair::new("a", 1.into()), Kvpair::new("b", 2.into())]),
        CommandResponse {
            status: 200,
            message: String::new(),
            values: vec![],
            pairs: vec![Kvpair::new("a", 1.into()), Kvpair::new("b", 2.into())],
        }
    );
}

#[test]
fn responses_from_batches() {
    let failures = || {
        vec![
            ("k2".to_string(), KvError::NotFound("t".into(), "k2".into())),
            ("k3".to_string(), storage_error()),
        ]
    };
    let text = "request key: k2, message: Not found for table: t, key: k2\n\
                request key: k3, message: Cannot process command get with table: t1, key: k1. \
                Error: disk is gone\n";

    let res = CommandResponse::from((vec![("k1".to_string(), Value::from(1))], failures()));
    assert_eq!(res.status, 200);
    assert_eq!(res.pairs, vec![Kvpair::new("k1", 1.into())]);
    assert_eq!(res.message, text);
    assert_eq!(res.values, vec![]);

    let res = CommandResponse::from((vec![("k1".to_string(), false)], failures()));
    assert_eq!(res.status, 200);
    assert_eq!(res.pairs, vec![Kvpair::new("k1", false.into())]);
    assert_eq!(res.message, text);

    let res = CommandResponse::from((
        vec![Kvpair {
            key: "k1".to_string(),
            value: None,
        }],
        failures(),
    ));
    assert_eq!(res.status, 200);
    assert_eq!(
        res.pairs,
        vec![Kvpair {
            key: "k1".to_string(),
            value: None,
        }]
    );
    assert_eq!(res.message, text);

    let none: Vec<Kvpair> = vec![];
    let res = CommandResponse::from((none, failures()));
    assert_eq!(res.status, 500);
    assert_eq!(res.message, text);
    assert_eq!(res.pairs, vec![]);
}

#[test]
fn error_messages_are_combined_line_by_line() {
    assert_eq!(combine_error_messages(vec![]), "");
    assert_eq!(
        combine_error_messages(vec![
            ("b".to_string(), KvError::Internal("one".into())),
            ("a".to_string(), KvError::InvalidCommand("two".into())),
        ]),
        "request key: b, message: Internal error: one\n\
         request key: a, message: Cannot parse command: `two`\n"
    );
}

#[test]
fn replies_to_results_of_one_key() {
    assert_eq!(hset_response(Ok(None)), CommandResponse::from(Value::default()));
    assert_eq!(hset_response(Ok(Some(1.into()))), CommandResponse::from(Value::from(1)));
    assert_eq!(hset_response(Err(storage_error())).status, 500);

    assert_eq!(
        hget_response("t".into(), "k".into(), Ok(Some("v".into()))),
        CommandResponse::from(Value::from("v"))
    );
    let res = hget_response("t".into(), "k".into(), Ok(None));
    assert_eq!(res.status, 404);
    assert_eq!(res.message, "Not found for table: t, key: k");
    let res = hget_response("t".into(), "k".into(), Err(storage_error()));
    assert_eq!(res, CommandResponse::from(storage_error()));

    assert_eq!(
        hgetall_response(Ok(vec![Kvpair::new("k", 1.into())])),
        CommandResponse::from(vec![Kvpair::new("k", 1.into())])
    );
    assert_eq!(hgetall_response(Err(storage_error())).status, 500);

    assert_eq!(
        hdel_response("k".into(), Ok(Some("gone".into()))).pairs,
        vec![Kvpair::new("k", 1.into())]
    );
    assert_eq!(
        hdel_response("k".into(), Ok(None)).pairs,
        vec![Kvpair {
            key: "k".to_string(),
            value: None,
        }]
    );
    let res = hdel_response("k".into(), Err(KvError::DecodeError("bad".into())));
    assert_eq!(res.status, 500);
    assert_eq!(res.message, "Failed to decode value: bad");
    assert_eq!(res.pairs, vec![]);

    assert_eq!(hexist_response(Ok(true)).values, vec![Value::from(true)]);
    assert_eq!(hexist_response(Ok(false)).values, vec![Value::from(false)]);
    assert_eq!(hexist_response(Err(storage_error())).status, 500);
}

#[test]
fn values_and_pairs_are_built_and_ordered() {
    assert_eq!(Value::default(), Value::Absent);
    assert_eq!(Value::from("a"), Value::Text("a".to_string()));
    assert_eq!(Value::from("a".to_string()), Value::Text("a".to_string()));
    assert_eq!(Value::from(-7), Value::Integer(-7));
    assert_eq!(Value::from(true), Value::Boolean(true));
    assert!(Value::Absent < Value::from(""));
    assert!(Value::from("z") < Value::from(0));
    assert!(Value::from(i64::MAX) < Value::from(false));
    assert!(Kvpair::new("a", 2.into()) < Kvpair::new("b", 1.into()));
    assert_eq!(
        Kvpair::default(),
        Kvpair {
            key: String::new(),
            value: None,
        }
    );
    assert_eq!(
        Kvpair::new("k", "v".into()),
        Kvpair {
            key: "k".to_string(),
            value: Some(Value::Text("v".to_string())),
        }
    );
    let pair = Kvpair::new("k", "v".into());
    assert_eq!(pair.clone(), pair);
    assert_eq!(CommandResponse::default().status, 0);
}
