use kv_server::{dispatch, CommandRequest, CommandResponse, Kvpair, MemTable, Value};

fn assert_res_ok(mut res: CommandResponse, values: &[Value], pairs: &[Kvpair]) {
    res.pairs.sort_by(|a, b| a.partial_cmp(b).unwrap());

    assert_eq!(res.status, 200);
    assert_eq!(res.message, "");
    assert_eq!(res.values, values);
    assert_eq!(res.pairs, pairs);
}

fn assert_res_error(res: CommandResponse, code: u32, msg: &str) {
    assert_eq!(res.status, code);
    assert!(res.message.contains(msg));
    assert_eq!(res.values, &[]);
    assert_eq!(res.pairs, &[]);
}

#[test]
fn hset_should_work() {
    let mut store = MemTable::new();

    let cmd = CommandRequest::new_hset("t1", "k1", "v1".into());
    let res = dispatch(cmd, &mut store);
    assert_res_ok(res, &[Value::default()], &[]);

    let cmd = CommandRequest::new_hset("t1", "k1", "v2".into());
    let res = dispatch(cmd, &mut store);
    assert_res_ok(res, &["v1".into()], &[]);
}

#[test]
fn hget_should_work() {
    let mut store = MemTable::new();

    let cmd = CommandRequest::new_hset("score", "u1", 10.into());
    dispatch(cmd, &mut store);

    let cmd = CommandRequest::new_hget("score", "u1");
    let res = dispatch(cmd, &mut store);
    assert_res_ok(res, &[10.into()], &[]);
}

#[test]
fn hget_with_non_exist_key_should_return_404() {
    let mut store = MemTable::new();

    let cmd = CommandRequest::new_hget("score", "u1");
    let res = dispatch(cmd, &mut store);
    assert_res_error(res, 404, "Not found");
}

#[test]
fn hgetall_should_work() {
    let mut store = MemTable::new();

    let cmds = vec![
        CommandRequest::new_hset("t1", "k1", 1.into()),
        CommandRequest::new_hset("t1", "k2", 2.into()),
        CommandRequest::new_hset("t1", "k3", 3.into()),
        CommandRequest::new_hset("t1", "k4", 4.into()),
    ];

    for cmd in cmds {
        dispatch(cmd, &mut store);
    }

    let cmd = CommandRequest::new_hgetall("t1");
    let res = dispatch(cmd, &mut store);
    assert_res_ok(
        res,
        &[],
        &[
            Kvpair::new("k1", 1.into()),
            Kvpair::new("k2", 2.into()),
            Kvpair::new("k3", 3.into()),
            Kvpair::new("k4", 4.into()),
        ],
    );
}

#[test]
fn hmset_should_work() {
    let mut store = MemTable::new();

    let pairs = vec![
        Kvpair::new("k1", 1.into()),
        Kvpair::new("k2", 2.into()),
        Kvpair::new("k3", 3.into()),
    ];

    let cmd = CommandRequest::new_hmset("t1", pairs);
    dispatch(cmd, &mut store);

    let cmd = CommandRequest::new_hgetall("t1");
    let res = dispatch(cmd, &mut store);
    assert_res_ok(
        res,
        &[],
        &[
            Kvpair::new("k1", 1.into()),
            Kvpair::new("k2", 2.into()),
            Kvpair::new("k3", 3.into()),
        ],
    )
}

#[test]
fn hmget_should_work() {
    let mut store = MemTable::new();

    let pairs = vec![
        Kvpair::new("k1", 1.into()),
        Kvpair::new("k2", 2.into()),
        Kvpair::new("k3", 3.into()),
    ];

    let cmd = CommandRequest::new_hmset("t1", pairs);
    dispatch(cmd, &mut store);

    let keys = vec!["k1".to_string(), "k2".to_string(), "k3".to_string()];
    let cmd = CommandRequest::new_hmget("t1", keys);
    let res = dispatch(cmd, &mut store);
    assert_res_ok(
        res,
        &[],
        &[
            Kvpair::new("k1", 1.into()),
            Kvpair::new("k2", 2.into()),
            Kvpair::new("k3", 3.into()),
        ],
    )
}

#[test]
fn hdel_should_work() {
    let mut store = MemTable::new();

    let cmd = CommandRequest::new_hset("t1", "k1", 1.into());
    dispatch(cmd, &mut store);

    let cmd = CommandRequest::new_hdel("t1", "k1");
    let res = dispatch(cmd, &mut store);

    assert_res_ok(res, &[], &[Kvpair::new("k1", 1.into())]);
    let cmd = CommandRequest::new_hdel("t1", "k1");
    let res = dispatch(cmd, &mut store);

    assert_res_ok(
        res,
        &[],
        &[Kvpair {
            key: "k1".to_string(),
            value: None,
        }],
    );
}

#[test]
fn hmdel_should_work() {
    let mut store = MemTable::new();

    let pairs = vec![
        Kvpair::new("k1", 1.into()),
        Kvpair::new("k2", 2.into()),
        Kvpair::new("k3", 3.into()),
    ];

    let cmd = CommandRequest::new_hmset("t1", pairs);
    dispatch(cmd, &mut store);

    let cmd = CommandRequest::new_hmdel(
        "t1",
        vec!["k1".to_string(), "k2".to_string(), "k4".to_string()],
    );

    let res = dispatch(cmd, &mut store);
    assert_res_ok(
        res,
        &[],
        &[
            Kvpair::new("k1", 1.into()),
            Kvpair::new("k2", 1.into()),
            Kvpair {
                key: "k4".to_string(),
                value: None,
            },
        ],
    );
}

#[test]
fn hexist_should_work() {
    let mut store = MemTable::new();

    let cmd = CommandRequest::new_hset("t1", "k1", 1.into());
    dispatch(cmd, &mut store);

    let cmd = CommandRequest::new_hexist("t1", "k1");
    let res = dispatch(cmd, &mut store);
    assert_res_ok(res, &[true.into()], &[]);

    let cmd = CommandRequest::new_hexist("t1", "k2");
    let res = dispatch(cmd, &mut store);
    assert_res_ok(res, &[false.into()], &[]);
}

#[test]
fn hmexist_should_work() {
    let mut store = MemTable::new();

    let cmd = CommandRequest::new_hset("t1", "k1", 1.into());
    dispatch(cmd, &mut store);

    let cmd = CommandRequest::new_hmexist("t1", vec!["k1".to_string(), "k2".to_string()]);
    let res = dispatch(cmd, &mut store);
    assert_res_ok(
        res,
        &[],
        &[
            Kvpair::new("k1", true.into()),
            Kvpair::new("k2", false.into()),
        ],
    );
}

#[test]
fn hset_then_hget_end_to_end() {
    let mut store = MemTable::new();

    let res = dispatch(CommandRequest::new_hset("t1", "k1", "v1".into()), &mut store);
    assert_eq!(res.status, 200);
    assert_eq!(res.values, vec![Value::default()]);

    let res = dispatch(CommandRequest::new_hset("t1", "k1", "v2".into()), &mut store);
    assert_eq!(res.values, vec![Value::from("v1")]);

    let res = dispatch(CommandRequest::new_hget("t1", "k1"), &mut store);
    assert_eq!(res.status, 200);
    assert_eq!(res.values, vec![Value::from("v2")]);

    let res = dispatch(CommandRequest::new_hget("t1", "k2"), &mut store);
    assert_eq!(res.status, 404);
    assert!(res.message.contains("k2"));
    assert_eq!(res.message, "Not found for table: t1, key: k2");
}

#[test]
fn hmset_then_hdel_end_to_end() {
    let mut store = MemTable::new();

    let pairs = vec![
        Kvpair::new("k1", 1.into()),
        Kvpair::new("k2", 2.into()),
        Kvpair::new("k3", 3.into()),
    ];
    let res = dispatch(CommandRequest::new_hmset("t1", pairs), &mut store);
    assert_eq!(res.status, 200);
    assert_eq!(
        res.pairs,
        vec![
            Kvpair::new("k1", Value::default()),
            Kvpair::new("k2", Value::default()),
            Kvpair::new("k3", Value::default()),
        ]
    );

    let res = dispatch(CommandRequest::new_hdel("t1", "k1"), &mut store);
    assert_eq!(res.pairs, vec![Kvpair::new("k1", 1.into())]);

    let res = dispatch(CommandRequest::new_hdel("t1", "k1"), &mut store);
    assert_eq!(res.status, 200);
    assert_eq!(
        res.pairs,
        vec![Kvpair {
            key: "k1".to_string(),
            value: None,
        }]
    );
}

#[test]
fn hmget_reports_missing_keys_and_keeps_found_ones() {
    let mut store = MemTable::new();
    dispatch(CommandRequest::new_hset("t1", "k1", "v1".into()), &mut store);
    dispatch(CommandRequest::new_hset("t1", "k2", "v2".into()), &mut store);

    let keys = vec!["k1".to_string(), "k2".to_string(), "k4".to_string()];
    let res = dispatch(CommandRequest::new_hmget("t1", keys), &mut store);

    assert_eq!(res.status, 200);
    assert_eq!(
        res.pairs,
        vec![Kvpair::new("k1", "v1".into()), Kvpair::new("k2", "v2".into())]
    );
    assert!(res.message.contains("k4"));
    assert_eq!(
        res.message,
        "request key: k4, message: Not found for table: t1, key: k4\n"
    );
    assert_eq!(res.values, vec![]);
}

#[test]
fn hmget_without_any_found_key_is_500_and_lists_failures_in_order() {
    let mut store = MemTable::new();

    let keys = vec!["b".to_string(), "a".to_string()];
    let res = dispatch(CommandRequest::new_hmget("t1", keys), &mut store);

    assert_eq!(res.status, 500);
    assert_eq!(res.pairs, vec![]);
    assert_eq!(
        res.message,
        "request key: b, message: Not found for table: t1, key: b\n\
         request key: a, message: Not found for table: t1, key: a\n"
    );
}

#[test]
fn hmget_twice_gives_the_same_answer() {
    let mut store = MemTable::new();
    dispatch(CommandRequest::new_hset("t1", "k1", 1.into()), &mut store);

    let keys = vec!["k1".to_string(), "k9".to_string()];
    let first = dispatch(CommandRequest::new_hmget("t1", keys.clone()), &mut store);
    let second = dispatch(CommandRequest::new_hmget("t1", keys), &mut store);
    assert_eq!(first, second);
}

#[test]
fn empty_batches_are_500() {
    let mut store = MemTable::new();

    let res = dispatch(CommandRequest::new_hmset("t1", vec![]), &mut store);
    assert_eq!(res.status, 500);
    assert_eq!(res.message, "");
    let res = dispatch(CommandRequest::new_hmget("t1", vec![]), &mut store);
    assert_eq!(res.status, 500);
    let res = dispatch(CommandRequest::new_hmdel("t1", vec![]), &mut store);
    assert_eq!(res.status, 500);
    let res = dispatch(CommandRequest::new_hmexist("t1", vec![]), &mut store);
    assert_eq!(res.status, 500);
}

#[test]
fn hmset_returns_previous_values_in_order() {
    let mut store = MemTable::new();
    dispatch(CommandRequest::new_hset("t1", "k2", "old".into()), &mut store);

    let pairs = vec![
        Kvpair::new("k1", 1.into()),
        Kvpair::new("k2", 2.into()),
        Kvpair::new("k1", 3.into()),
    ];
    let res = dispatch(CommandRequest::new_hmset("t1", pairs), &mut store);
    assert_eq!(res.status, 200);
    assert_eq!(
        res.pairs,
        vec![
            Kvpair::new("k1", Value::default()),
            Kvpair::new("k2", "old".into()),
            Kvpair::new("k1", 1.into()),
        ]
    );

    let res = dispatch(CommandRequest::new_hget("t1", "k1"), &mut store);
    assert_eq!(res.values, vec![Value::from(3)]);
}

#[test]
fn hset_without_a_pair_answers_with_the_default_value() {
    let mut store = MemTable::new();
    let cmd = CommandRequest {
        request_data: Some(kv_server::RequestData::Hset(kv_server::Hset {
            table: "t1".to_string(),
            pair: None,
        })),
    };
    let res = dispatch(cmd, &mut store);
    assert_res_ok(res, &[Value::default()], &[]);
    let res = dispatch(CommandRequest::new_hgetall("t1"), &mut store);
    assert_res_ok(res, &[], &[]);
}

#[test]
fn hset_of_a_pair_without_value_stores_the_default_value() {
    let mut store = MemTable::new();
    let cmd = CommandRequest {
        request_data: Some(kv_server::RequestData::Hset(kv_server::Hset {
            table: "t1".to_string(),
            pair: Some(Kvpair {
                key: "k1".to_string(),
                value: None,
            }),
        })),
    };
    let res = dispatch(cmd, &mut store);
    assert_res_ok(res, &[Value::default()], &[]);
    let res = dispatch(CommandRequest::new_hget("t1", "k1"), &mut store);
    assert_res_ok(res, &[Value::default()], &[]);
    let res = dispatch(CommandRequest::new_hexist("t1", "k1"), &mut store);
    assert_res_ok(res, &[true.into()], &[]);
}

#[test]
fn hgetall_of_an_unwritten_table_is_empty_and_200() {
    let mut store = MemTable::new();
    let res = dispatch(CommandRequest::new_hgetall("nothing"), &mut store);
    assert_res_ok(res, &[], &[]);
}

#[test]
fn request_without_a_command_is_400() {
    let mut store = MemTable::new();
    let res = dispatch(CommandRequest { request_data: None }, &mut store);
    assert_res_error(res, 400, "Request has not data");
}

#[test]
fn same_key_in_two_tables_is_two_entries() {
    let mut store = MemTable::new();
    dispatch(CommandRequest::new_hset("t1", "k", 1.into()), &mut store);
    dispatch(CommandRequest::new_hset("t2", "k", 2.into()), &mut store);
    dispatch(CommandRequest::new_hdel("t1", "k"), &mut store);

    let res = dispatch(CommandRequest::new_hget("t2", "k"), &mut store);
    assert_res_ok(res, &[2.into()], &[]);
    let res = dispatch(CommandRequest::new_hexist("t1", "k"), &mut store);
    assert_res_ok(res, &[false.into()], &[]);
}
