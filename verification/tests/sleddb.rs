use kv_server::storage::sleddb::{entry_pair, listing, plain_name};
use kv_server::{flip, ivec_to_key, KvError, Kvpair, SledDb, Storage, Value};
use tempfile::tempdir;

#[test]
fn stored_keys_join_table_and_key() {
    assert_eq!(SledDb::get_full_key("t1", "k1"), "t1:k1");
    assert_eq!(SledDb::get_full_key("", ""), ":");
    assert_eq!(SledDb::get_full_key("t", "a:b"), "t:a:b");
    assert_eq!(SledDb::get_table_prefix("t1"), "t1:");
    assert_eq!(SledDb::get_table_prefix(""), ":");
}

#[test]
fn table_names_without_separator_are_plain() {
    assert!(plain_name("t1"));
    assert!(plain_name(""));
    assert!(plain_name("täble"));
    assert!(!plain_name(":"));
    assert!(!plain_name("a:b"));
    assert!(!plain_name("ab:"));
    assert!(!plain_name("é:"));
}

#[test]
fn flip_turns_inside_out() {
    assert_eq!(flip::<i32, String>(None), Ok(None));
    assert_eq!(flip::<i32, String>(Some(Ok(3))), Ok(Some(3)));
    assert_eq!(flip::<i32, String>(Some(Err("no".to_string()))), Err("no".to_string()));
}

#[test]
fn key_is_what_follows_the_first_separator() {
    assert_eq!(ivec_to_key(b"t1:k1"), Ok("k1".to_string()));
    assert_eq!(ivec_to_key(b"t1:"), Ok(String::new()));
    assert_eq!(ivec_to_key(b":k"), Ok("k".to_string()));
    assert_eq!(ivec_to_key(b"t:a:b"), Ok("a:b".to_string()));
    assert_eq!(ivec_to_key("t:ключ".as_bytes()), Ok("ключ".to_string()));
    assert_eq!(ivec_to_key(&[0xFF, b':', b'k']), Ok("k".to_string()));
    assert!(matches!(ivec_to_key(b"no separator"), Err(KvError::DecodeError(_))));
    assert!(matches!(ivec_to_key(b""), Err(KvError::DecodeError(_))));
    assert!(matches!(ivec_to_key(&[b't', b':', 0xFF]), Err(KvError::DecodeError(_))));
}

#[test]
fn stored_entry_becomes_a_pair() {
    assert_eq!(
        entry_pair(b"t:k", &Value::from("v").encode()),
        Ok(Kvpair::new("k", "v".into()))
    );
    assert!(matches!(entry_pair(b"t:k", &[9]), Err(KvError::DecodeError(_))));
    assert!(matches!(
        entry_pair(b"tk", &Value::from("v").encode()),
        Err(KvError::DecodeError(_))
    ));
}

#[test]
fn table_name_with_separator_is_refused() {
    let dir = tempdir().unwrap();
    let mut store = SledDb::new(dir.path().to_str().unwrap()).unwrap();

    assert!(matches!(store.set("a:b", "c".into(), 1.into()), Err(KvError::InvalidCommand(_))));
    assert!(matches!(store.get("a:b", "c"), Err(KvError::InvalidCommand(_))));
    assert!(matches!(store.contains("a:b", "c"), Err(KvError::InvalidCommand(_))));
    assert!(matches!(store.del("a:b", "c"), Err(KvError::InvalidCommand(_))));
    assert!(matches!(store.get_all("a:b"), Err(KvError::InvalidCommand(_))));
    assert!(matches!(store.get_iter("a:b"), Err(KvError::InvalidCommand(_))));

    assert_eq!(store.get("a", "b:c"), Ok(None));
    assert_eq!(store.get_all("a"), Ok(vec![]));
}

#[test]
fn key_with_separator_is_kept_whole() {
    let dir = tempdir().unwrap();
    let mut store = SledDb::new(dir.path().to_str().unwrap()).unwrap();

    assert_eq!(store.set("a", "b:c".into(), 1.into()), Ok(None));
    assert_eq!(store.set("a", "b".into(), 2.into()), Ok(None));
    assert_eq!(store.get("a", "b:c"), Ok(Some(1.into())));
    let mut all = store.get_all("a").unwrap();
    all.sort_by(|x, y| x.partial_cmp(y).unwrap());
    assert_eq!(all, vec![Kvpair::new("b", 2.into()), Kvpair::new("b:c", 1.into())]);
}

#[test]
fn table_whose_name_begins_another_is_apart() {
    let dir = tempdir().unwrap();
    let mut store = SledDb::new(dir.path().to_str().unwrap()).unwrap();

    store.set("t", "k".into(), 1.into()).unwrap();
    store.set("t1", "k".into(), 2.into()).unwrap();
    assert_eq!(store.get_all("t"), Ok(vec![Kvpair::new("k", 1.into())]));
    assert_eq!(store.get_all("t1"), Ok(vec![Kvpair::new("k", 2.into())]));
}

#[test]
fn what_was_stored_is_there_after_reopening() {
    let dir = tempdir().unwrap();
    let path = dir.path().to_str().unwrap();
    {
        let mut store = SledDb::new(path).unwrap();
        store.set("t", "k".into(), "kept".into()).unwrap();
        store.set("t", "gone".into(), 1.into()).unwrap();
        store.del("t", "gone").unwrap();
    }
    let store = SledDb::new(path).unwrap();
    assert_eq!(store.get("t", "k"), Ok(Some("kept".into())));
    assert_eq!(store.contains("t", "gone"), Ok(false));
    assert_eq!(store.get_all("t"), Ok(vec![Kvpair::new("k", "kept".into())]));
}

#[test]
fn stored_bytes_are_table_key_and_encoded_value() {
    let dir = tempdir().unwrap();
    let path = dir.path().to_str().unwrap();
    {
        let mut store = SledDb::new(path).unwrap();
        store.set("t1", "k1".into(), "v".into()).unwrap();
    }
    let db = sled::open(path).unwrap();
    assert_eq!(db.len(), 1);
    assert_eq!(db.get(b"t1:k1").unwrap().unwrap().to_vec(), vec![1, b'v']);
}

#[test]
fn corrupted_entries_are_decode_errors() {
    let dir = tempdir().unwrap();
    let path = dir.path().to_str().unwrap();
    {
        let db = sled::open(path).unwrap();
        db.insert(b"t:bad", vec![9u8, 9, 9]).unwrap();
        db.insert(b"u:good", Value::from(1).encode()).unwrap();
        db.insert(vec![b'w', b':', 0xFF], Value::from(1).encode()).unwrap();
        db.flush().unwrap();
    }
    let mut store = SledDb::new(path).unwrap();
    assert!(matches!(store.get("t", "bad"), Err(KvError::DecodeError(_))));
    assert_eq!(store.contains("t", "bad"), Ok(true));
    assert!(matches!(store.get_all("t"), Err(KvError::DecodeError(_))));
    assert!(matches!(store.get_iter("t"), Err(KvError::DecodeError(_))));
    assert!(matches!(store.get_all("w"), Err(KvError::DecodeError(_))));
    assert_eq!(store.get_all("u"), Ok(vec![Kvpair::new("good", 1.into())]));
    assert!(matches!(store.set("t", "bad".into(), 2.into()), Err(KvError::DecodeError(_))));
    assert_eq!(store.get("t", "bad"), Ok(Some(2.into())));
}

#[test]
fn a_store_that_cannot_be_opened_is_a_storage_error() {
    let dir = tempdir().unwrap();
    let path = dir.path().to_str().unwrap();
    let _first = SledDb::new(path).unwrap();
    let second = SledDb::new(path);
    match second {
        Err(KvError::StorageError(op, table, key, _)) => {
            assert_eq!(op, "open");
            assert_eq!(table, "");
            assert_eq!(key, "");
        }
        other => panic!("{:?}", other),
    }
}

#[test]
fn refusal_of_a_table_name_names_the_table() {
    let dir = tempdir().unwrap();
    let store = SledDb::new(dir.path().to_str().unwrap()).unwrap();
    assert_eq!(
        store.get("a:b", "c"),
        Err(KvError::InvalidCommand("table name holds ':': a:b".to_string()))
    );
    assert_eq!(
        store.contains(":", "c"),
        Err(KvError::InvalidCommand("table name holds ':': :".to_string()))
    );
}

#[test]
fn scanned_entries_become_the_pairs_in_order() {
    assert_eq!(listing(vec![]), Ok(vec![]));
    assert_eq!(
        listing(vec![
            (b"t:b".to_vec(), Value::from(2).encode()),
            (b"t:a".to_vec(), Value::from("one").encode()),
            (b"t:c:d".to_vec(), Value::Absent.encode()),
        ]),
        Ok(vec![
            Kvpair::new("b", 2.into()),
            Kvpair::new("a", "one".into()),
            Kvpair::new("c:d", Value::Absent),
        ])
    );
}

#[test]
fn one_damaged_entry_fails_the_listing() {
    let good = (b"t:a".to_vec(), Value::from(1).encode());
    let bad_value = (b"t:b".to_vec(), vec![9u8]);
    let bad_key = (b"tb".to_vec(), Value::from(1).encode());
    let empty_value = (b"t:c".to_vec(), vec![]);

    assert!(matches!(
        listing(vec![good.clone(), bad_value.clone()]),
        Err(KvError::DecodeError(_))
    ));
    assert!(matches!(
        listing(vec![bad_value, good.clone()]),
        Err(KvError::DecodeError(_))
    ));
    assert!(matches!(
        listing(vec![good.clone(), bad_key, good.clone()]),
        Err(KvError::DecodeError(_))
    ));
    assert!(matches!(listing(vec![empty_value]), Err(KvError::DecodeError(_))));
}

#[test]
fn damaged_bytes_fail_every_call_that_reads_them() {
    let dir = tempdir().unwrap();
    let path = dir.path().to_str().unwrap();
    {
        let db = sled::open(path).unwrap();
        db.insert(b"t:one", vec![7u8]).unwrap();
        db.insert(b"t:two", vec![7u8]).unwrap();
        db.insert(b"t:three", vec![7u8]).unwrap();
        db.flush().unwrap();
    }
    let mut store = SledDb::new(path).unwrap();
    assert!(matches!(store.get("t", "one"), Err(KvError::DecodeError(_))));
    assert!(matches!(store.get_all("t"), Err(KvError::DecodeError(_))));
    assert!(matches!(store.del("t", "two"), Err(KvError::DecodeError(_))));
    assert_eq!(store.contains("t", "two"), Ok(false));
    assert!(matches!(
        store.set("t", "three".into(), "new".into()),
        Err(KvError::DecodeError(_))
    ));
    assert_eq!(store.get("t", "three"), Ok(Some("new".into())));
    assert!(matches!(store.get_all("t"), Err(KvError::DecodeError(_))));
    assert!(matches!(store.del("t", "one"), Err(KvError::DecodeError(_))));
    assert_eq!(store.get_all("t"), Ok(vec![Kvpair::new("three", "new".into())]));
}
