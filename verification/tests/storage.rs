use kv_server::{Kvpair, MemTable, SledDb, Storage};
use tempfile::tempdir;

fn test_basi_interface(store: &mut impl Storage) {
    let v = store.set("t1", "hello".into(), "world".into());
    assert!(v.unwrap().is_none());

    let v = store.set("t1", "hello".into(), "world1".into());
    assert_eq!(v, Ok(Some("world".into())));

    let v = store.get("t1", "hello");
    assert_eq!(v, Ok(Some("world1".into())));

    assert_eq!(Ok(None), store.get("t1", "hello1"));
    assert!(store.get("t2", "hello1").unwrap().is_none());

    assert_eq!(store.contains("t1", "hello"), Ok(true));
    assert_eq!(store.contains("t1", "hello1"), Ok(false));
    assert_eq!(store.contains("t2", "hello"), Ok(false));

    let v = store.del("t1", "hello");
    assert_eq!(v, Ok(Some("world1".into())));

    assert_eq!(Ok(None), store.del("t1", "hello1"));
    assert_eq!(Ok(None), store.del("t2", "hello"));
}

fn test_get_all(store: &mut impl Storage) {
    let _v1 = store.set("t1", "k1".into(), "v1".into());
    let _v2 = store.set("t1", "k2".into(), "v2".into());

    let mut data = store.get_all("t1").unwrap();
    data.sort_by(|a, b| a.partial_cmp(b).unwrap());

    assert_eq!(
        data,
        vec![
            Kvpair::new("k1", "v1".into()),
            Kvpair::new("k2", "v2".into()),
        ]
    )
}

fn test_get_iter(store: &mut impl Storage) {
    let _v1 = store.set("t1", "k1".into(), "v1".into());
    let _v2 = store.set("t1", "k2".into(), "v2".into());

    let mut data: Vec<_> = store.get_iter("t1").unwrap().collect();
    data.sort_by(|a, b| a.partial_cmp(b).unwrap());

    assert_eq!(
        data,
        vec![
            Kvpair::new("k1", "v1".into()),
            Kvpair::new("k2", "v2".into()),
        ]
    )
}

#[test]
fn memory_mem_table_basic_interface_should_work() {
    let mut store = MemTable::new();
    test_basi_interface(&mut store);
}

#[test]
fn memory_mem_table_get_all_should_work() {
    let mut store = MemTable::new();
    test_get_all(&mut store);
}

#[test]
fn memory_mem_table_iter_should_work() {
    let mut store = MemTable::new();
    test_get_iter(&mut store);
}

#[test]
fn mod_mem_table_basic_interface_should_work() {
    let mut store = MemTable::new();
    test_basi_interface(&mut store);
}

#[test]
fn mod_mem_table_get_all_should_work() {
    let mut store = MemTable::new();
    test_get_all(&mut store);
}

#[test]
fn mod_mem_table_iter_should_work() {
    let mut store = MemTable::new();
    test_get_iter(&mut store);
}

#[test]
fn sled_db_basic_interface_should_work() {
    let dir = tempdir().unwrap();
    let mut store = SledDb::new(dir.path().to_str().unwrap()).unwrap();
    test_basi_interface(&mut store);
}

#[test]
fn sled_db_get_all_should_work() {
    let dir = tempdir().unwrap();
    let mut store = SledDb::new(dir.path().to_str().unwrap()).unwrap();
    test_get_all(&mut store);
}

#[test]
fn sled_db_iter_should_work() {
    let dir = tempdir().unwrap();
    let mut store = SledDb::new(dir.path().to_str().unwrap()).unwrap();
    test_get_iter(&mut store);
}

#[test]
fn storage_iter_gives_its_pairs_in_order_once() {
    let data = vec![
        Kvpair::new("b", 2.into()),
        Kvpair::new("a", 1.into()),
        Kvpair::new("c", 3.into()),
    ];
    let mut iter = kv_server::StorageIter::new(data.clone());
    assert_eq!(iter.next(), Some(Kvpair::new("b", 2.into())));
    assert_eq!(
        iter.collect(),
        vec![Kvpair::new("a", 1.into()), Kvpair::new("c", 3.into())]
    );
    assert_eq!(iter.next(), None);
    assert_eq!(iter.collect(), vec![]);

    assert_eq!(kv_server::StorageIter::new(data.clone()).collect(), data);
    assert_eq!(kv_server::StorageIter::new(vec![]).next(), None);
}

#[test]
fn in_memory_store_starts_empty() {
    let store = MemTable::new();
    assert_eq!(store.get_all("t"), Ok(vec![]));
    assert_eq!(store.contains("t", "k"), Ok(false));
    let store = MemTable::default();
    assert_eq!(store.get("t", "k"), Ok(None));
}

#[test]
fn a_cloned_store_is_a_store_of_its_own() {
    let mut store = MemTable::new();
    store.set("t", "a".into(), 1.into()).unwrap();
    store.set("u", "b".into(), "two".into()).unwrap();

    let mut copy = store.clone();
    assert_eq!(copy.get("t", "a"), Ok(Some(1.into())));
    assert_eq!(copy.get_all("u"), Ok(vec![Kvpair::new("b", "two".into())]));

    copy.set("t", "a".into(), 5.into()).unwrap();
    copy.del("u", "b").unwrap();
    store.set("t", "c".into(), 3.into()).unwrap();

    assert_eq!(store.get("t", "a"), Ok(Some(1.into())));
    assert_eq!(store.get("u", "b"), Ok(Some("two".into())));
    assert_eq!(copy.get("t", "a"), Ok(Some(5.into())));
    assert_eq!(copy.get("t", "c"), Ok(None));
    assert_eq!(copy.get("u", "b"), Ok(None));
}
