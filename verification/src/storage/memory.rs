//! The in-memory backend: a map from table names to tables, each table a
//! map from keys to values.

use crate::error::KvError;
use crate::pb::abi::{option_view, pairs_view, Kvpair, Value, ValueView};
use crate::storage::{lists, table_of, Storage, StorageIter, StoreView};
use dashmap::DashMap;
use vstd::prelude::*;

verus! {

/// `dashmap::DashMap`, a concurrent hash map. Nothing is known of a value
/// of it but what the functions below state.
#[verifier::external_type_specification]
#[verifier::external_body]
#[verifier::reject_recursive_types(K)]
#[verifier::reject_recursive_types(V)]
#[verifier::reject_recursive_types(S)]
pub struct ExDashMap<K, V, S>(DashMap<K, V, S>);

/// The tables of a store by name.
pub type Tables = DashMap<String, DashMap<String, Value>>;

/// What a two-level map holds: for each table name, the keys of that table
/// with their values.
pub uninterp spec fn dash_tables(tables: Tables) -> Map<Seq<char>, Map<Seq<char>, ValueView>>;

/// The two-level map that holds no table.
pub open spec fn no_tables() -> Map<Seq<char>, Map<Seq<char>, ValueView>> {
    Map::empty()
}

/// A map without tables.
///
/// Trusted: `DashMap::new` gives an empty map.
#[verifier::external_body]
fn new_tables() -> (tables: Tables)
    ensures
        dash_tables(tables) == no_tables(),
{
    DashMap::new()
}

/// A copy of a two-level map.
///
/// Trusted: `DashMap::clone` copies every shard of the map with its keys
/// and values; a value of the outer map is a table, whose clone is a copy
/// made in the same way, and a value of a table is cloned as a value is.
/// The copy holds what the map holds and shares nothing with it.
#[verifier::external_body]
fn copy_tables(tables: &Tables) -> (copy: Tables)
    ensures
        dash_tables(copy) == dash_tables(*tables),
{
    tables.clone()
}

/// Whether there is a table of that name.
///
/// Trusted: `DashMap::contains_key` says whether the map holds the key.
#[verifier::external_body]
fn has_table(tables: &Tables, name: &str) -> (present: bool)
    ensures
        present == dash_tables(*tables).contains_key(name@),
{
    tables.contains_key(name)
}

/// Makes an empty table of that name unless there is one.
///
/// Trusted: `DashMap::entry` followed by `Entry::or_default` leaves an
/// occupied entry as it is and fills a vacant one with `V::default()`, here
/// an empty inner map; no other entry changes.
#[verifier::external_body]
fn create_table(tables: &mut Tables, name: &str)
    ensures
        dash_tables(*final(tables)) == if dash_tables(*old(tables)).contains_key(name@) {
            dash_tables(*old(tables))
        } else {
            dash_tables(*old(tables)).insert(name@, Map::empty())
        },
{
    tables.entry(name.into()).or_default();
}

/// The value under `key` in the table `name`.
///
/// Trusted: `DashMap::get` on the outer map finds the table, and
/// `DashMap::get` on the table gives a reference to the value under the key
/// or `None`; the value is cloned. Nothing changes.
#[verifier::external_body]
fn table_get(tables: &Tables, name: &str, key: &str) -> (found: Option<Value>)
    requires
        dash_tables(*tables).contains_key(name@),
    ensures
        option_view(found) == if dash_tables(*tables)[name@].contains_key(key@) {
            Some(dash_tables(*tables)[name@][key@])
        } else {
            None
        },
{
    tables.get(name).unwrap().get(key).map(|v| v.value().clone())
}

/// Puts `value` under `key` in the table `name` and returns what was there.
///
/// Trusted: `DashMap::insert` on the table that `DashMap::get` finds
/// returns the old value of the key, if any, and leaves the new one; no
/// other key and no other table changes.
#[verifier::external_body]
fn table_insert(tables: &mut Tables, name: &str, key: String, value: Value) -> (previous: Option<
    Value,
>)
    requires
        dash_tables(*old(tables)).contains_key(name@),
    ensures
        option_view(previous) == if dash_tables(*old(tables))[name@].contains_key(key@) {
            Some(dash_tables(*old(tables))[name@][key@])
        } else {
            None
        },
        dash_tables(*final(tables)) == dash_tables(*old(tables)).insert(
            name@,
            dash_tables(*old(tables))[name@].insert(key@, value@),
        ),
{
    tables.get(name).unwrap().insert(key, value)
}

/// Whether the table `name` holds `key`.
///
/// Trusted: `DashMap::contains_key` on the table that `DashMap::get`
/// finds. Nothing changes.
#[verifier::external_body]
fn table_contains(tables: &Tables, name: &str, key: &str) -> (present: bool)
    requires
        dash_tables(*tables).contains_key(name@),
    ensures
        present == dash_tables(*tables)[name@].contains_key(key@),
{
    tables.get(name).unwrap().contains_key(key)
}

/// Removes `key` from the table `name` and returns what was there.
///
/// Trusted: `DashMap::remove` on the table that `DashMap::get` finds
/// returns the key and its value if the key was there, and removes it; no
/// other key and no other table changes.
#[verifier::external_body]
fn table_remove(tables: &mut Tables, name: &str, key: &str) -> (removed: Option<Value>)
    requires
        dash_tables(*old(tables)).contains_key(name@),
    ensures
        option_view(removed) == if dash_tables(*old(tables))[name@].contains_key(key@) {
            Some(dash_tables(*old(tables))[name@][key@])
        } else {
            None
        },
        dash_tables(*final(tables)) == dash_tables(*old(tables)).insert(
            name@,
            dash_tables(*old(tables))[name@].remove(key@),
        ),
{
    tables.get(name).unwrap().remove(key).map(|(_, v)| v)
}

/// The pairs of the table `name`.
///
/// Trusted: `DashMap::iter` on the table that `DashMap::get` finds visits
/// every entry of the table once, in an order that is not fixed; each
/// becomes a pair of its key and a clone of its value. Nothing changes.
#[verifier::external_body]
fn table_entries(tables: &Tables, name: &str) -> (pairs: Vec<Kvpair>)
    requires
        dash_tables(*tables).contains_key(name@),
    ensures
        lists(pairs_view(pairs@), dash_tables(*tables)[name@]),
{
    tables.get(name).unwrap().iter().map(|e| Kvpair::new(e.key(), e.value().clone())).collect()
}

/// The store that a two-level map stands for.
pub open spec fn flatten(tables: Map<Seq<char>, Map<Seq<char>, ValueView>>) -> StoreView {
    Map::new(
        |at: (Seq<char>, Seq<char>)| tables.contains_key(at.0) && tables[at.0].contains_key(at.1),
        |at: (Seq<char>, Seq<char>)| tables[at.0][at.1],
    )
}

/// The in-memory backend.
#[derive(Debug)]
pub struct MemTable {
    tables: Tables,
}

impl MemTable {
    /// A store that holds nothing.
    pub fn new() -> (store: MemTable)
        ensures
            store.contents() == StoreView::empty(),
    {
        let store = MemTable { tables: new_tables() };
        assert(store.contents() =~= StoreView::empty());
        store
    }

    /// Makes sure that the table `name` exists. What the store holds does
    /// not change by it.
    fn get_or_create(&mut self, name: &str)
        ensures
            dash_tables(final(self).tables).contains_key(name@),
            final(self).contents() == old(self).contents(),
    {
        if !has_table(&self.tables, name) {
            create_table(&mut self.tables, name);
        }
        assert(self.contents() =~= old(self).contents());
    }
}

impl Clone for MemTable {
    /// A store of its own that holds what this one holds.
    fn clone(&self) -> (copy: MemTable)
        ensures
            copy.contents() == self.contents(),
    {
        MemTable { tables: copy_tables(&self.tables) }
    }
}

impl Default for MemTable {
    fn default() -> (store: MemTable)
        ensures
            store.contents() == StoreView::empty(),
    {
        MemTable::new()
    }
}

impl Storage for MemTable {
    closed spec fn contents(&self) -> StoreView {
        flatten(dash_tables(self.tables))
    }

    open spec fn reliable(&self) -> bool {
        true
    }

    fn get(&self, table: &str, key: &str) -> (r: Result<Option<Value>, KvError>) {
        if has_table(&self.tables, table) {
            Ok(table_get(&self.tables, table, key))
        } else {
            Ok(None)
        }
    }

    fn set(&mut self, table: &str, key: String, value: Value) -> (r: Result<
        Option<Value>,
        KvError,
    >) {
        self.get_or_create(table);
        let ghost key_view = key@;
        let previous = table_insert(&mut self.tables, table, key, value);
        assert(self.contents() =~= old(self).contents().insert((table@, key_view), value@));
        Ok(previous)
    }

    fn contains(&self, table: &str, key: &str) -> (r: Result<bool, KvError>) {
        if has_table(&self.tables, table) {
            Ok(table_contains(&self.tables, table, key))
        } else {
            Ok(false)
        }
    }

    fn del(&mut self, table: &str, key: &str) -> (r: Result<Option<Value>, KvError>) {
        if has_table(&self.tables, table) {
            let removed = table_remove(&mut self.tables, table, key);
            assert(self.contents() =~= old(self).contents().remove((table@, key@)));
            Ok(removed)
        } else {
            assert(old(self).contents().remove((table@, key@)) =~= old(self).contents());
            Ok(None)
        }
    }

    fn get_all(&self, table: &str) -> (r: Result<Vec<Kvpair>, KvError>) {
        if has_table(&self.tables, table) {
            let pairs = table_entries(&self.tables, table);
            assert(table_of(self.contents(), table@) =~= dash_tables(self.tables)[table@]);
            Ok(pairs)
        } else {
            let pairs: Vec<Kvpair> = Vec::new();
            assert(pairs_view(pairs@) =~= Seq::empty());
            Ok(pairs)
        }
    }

    fn get_iter(&self, table: &str) -> (r: Result<StorageIter, KvError>) {
        match self.get_all(table) {
            Ok(pairs) => Ok(StorageIter::new(pairs)),
            Err(e) => Err(e),
        }
    }
}

} // verus!
