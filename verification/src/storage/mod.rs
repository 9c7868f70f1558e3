//! The storage interface: what every backend offers, stated over a
//! mathematical model of a store.
//!
//! A store is a map from `(table, key)` to a value. A table that holds no
//! key and a table that was never written are the same thing.

pub mod codec;
pub mod laws;
pub mod memory;
pub mod sleddb;

use crate::error::{KvError, KvErrorView};
use crate::pb::abi::{option_view, pairs_view, Kvpair, KvpairView, Value, ValueView};
use vstd::prelude::*;

verus! {

/// The contents of a store: the value under each `(table, key)`.
pub type StoreView = Map<(Seq<char>, Seq<char>), ValueView>;

/// What an operation that looks a key up returns.
pub type Found = Result<Option<ValueView>, KvErrorView>;

/// The value under `key` in `table`, if there is one.
pub open spec fn lookup(store: StoreView, table: Seq<char>, key: Seq<char>) -> Option<ValueView> {
    if store.contains_key((table, key)) {
        Some(store[(table, key)])
    } else {
        None
    }
}

/// The keys of one table with their values.
pub open spec fn table_of(store: StoreView, table: Seq<char>) -> Map<Seq<char>, ValueView> {
    Map::new(|key: Seq<char>| store.contains_key((table, key)), |key: Seq<char>| store[(table, key)])
}

/// `pairs` holds each key of `table` once, with its value, and nothing
/// else. The order is free.
pub open spec fn lists(pairs: Seq<KvpairView>, table: Map<Seq<char>, ValueView>) -> bool {
    &&& forall|i: int|
        0 <= i < pairs.len() ==> table.contains_key(#[trigger] pairs[i].key) && pairs[i].value
            == Some(table[pairs[i].key])
    &&& forall|i: int, j: int|
        0 <= i < j < pairs.len() ==> #[trigger] pairs[i].key != #[trigger] pairs[j].key
    &&& forall|key: Seq<char>| #[trigger]
        table.contains_key(key) ==> exists|i: int|
            0 <= i < pairs.len() && #[trigger] pairs[i].key == key
}

/// The view of what a lookup returned.
pub open spec fn found_view(r: Result<Option<Value>, KvError>) -> Found {
    match r {
        Ok(found) => Ok(option_view(found)),
        Err(e) => Err(e@),
    }
}

/// The view of what a membership test returned.
pub open spec fn flag_view(r: Result<bool, KvError>) -> Result<bool, KvErrorView> {
    match r {
        Ok(b) => Ok(b),
        Err(e) => Err(e@),
    }
}

/// The view of what a listing returned.
pub open spec fn listing_view(r: Result<Vec<Kvpair>, KvError>) -> Result<
    Seq<KvpairView>,
    KvErrorView,
> {
    match r {
        Ok(pairs) => Ok(pairs_view(pairs@)),
        Err(e) => Err(e@),
    }
}

/// What `get` may return on a store: where it succeeds, the value under the
/// key. On a reliable store it succeeds.
pub open spec fn get_returns(
    store: StoreView,
    reliable: bool,
    table: Seq<char>,
    key: Seq<char>,
    r: Found,
) -> bool {
    &&& r matches Ok(found) ==> found == lookup(store, table, key)
    &&& reliable ==> r is Ok
}

/// What `set` may return and do: where it succeeds, it returns the value
/// that was under the key and leaves the new value there, with every other
/// key as it was. On a reliable store it succeeds.
pub open spec fn set_returns(
    before: StoreView,
    reliable: bool,
    table: Seq<char>,
    key: Seq<char>,
    value: ValueView,
    r: Found,
    after: StoreView,
) -> bool {
    &&& r matches Ok(previous) ==> previous == lookup(before, table, key) && after
        == before.insert((table, key), value)
    &&& reliable ==> r is Ok
}

/// What `contains` may return: where it succeeds, whether the key is
/// there. On a reliable store it succeeds.
pub open spec fn contains_returns(
    store: StoreView,
    reliable: bool,
    table: Seq<char>,
    key: Seq<char>,
    r: Result<bool, KvErrorView>,
) -> bool {
    &&& r matches Ok(present) ==> present == store.contains_key((table, key))
    &&& reliable ==> r is Ok
}

/// What `del` may return and do: where it succeeds, it returns the value
/// that was under the key and leaves the key absent, with every other key
/// as it was. On a reliable store it succeeds.
pub open spec fn del_returns(
    before: StoreView,
    reliable: bool,
    table: Seq<char>,
    key: Seq<char>,
    r: Found,
    after: StoreView,
) -> bool {
    &&& r matches Ok(removed) ==> removed == lookup(before, table, key) && after
        == before.remove((table, key))
    &&& reliable ==> r is Ok
}

/// What `get_all` and `get_iter` may return: where they succeed, the
/// table's keys with their values, in any order. On a reliable store they
/// succeed.
pub open spec fn get_all_returns(
    store: StoreView,
    reliable: bool,
    table: Seq<char>,
    r: Result<Seq<KvpairView>, KvErrorView>,
) -> bool {
    &&& r matches Ok(pairs) ==> lists(pairs, table_of(store, table))
    &&& reliable ==> r is Ok
}

/// The view of what asking for a pass returned: the pairs that the pass
/// will give.
pub open spec fn pass_view(r: Result<StorageIter, KvError>) -> Result<Seq<KvpairView>, KvErrorView> {
    match r {
        Ok(iter) => Ok(pairs_view(iter.remaining())),
        Err(e) => Err(e@),
    }
}

/// A pass over the pairs of a table. It yields each pair once and then
/// ends; it cannot be restarted.
pub struct StorageIter {
    data: Vec<Kvpair>,
    position: usize,
}

impl StorageIter {
    #[verifier::type_invariant]
    spec fn well_formed(&self) -> bool {
        self.position <= self.data.len()
    }

    /// The pairs that are still to come, in the order in which they come.
    pub closed spec fn remaining(&self) -> Seq<Kvpair> {
        self.data@.skip(self.position as int)
    }

    /// A pass that gives `data`, in order.
    pub fn new(data: Vec<Kvpair>) -> (iter: StorageIter)
        ensures
            iter.remaining() == data@,
    {
        StorageIter { data, position: 0 }
    }

    /// The next pair, or `None` when all have been given.
    pub fn next(&mut self) -> (item: Option<Kvpair>)
        ensures
            old(self).remaining().len() == 0 ==> item is None && final(self).remaining()
                == old(self).remaining(),
            old(self).remaining().len() > 0 ==> item == Some(old(self).remaining()[0])
                && final(self).remaining() == old(self).remaining().skip(1),
    {
        proof {
            use_type_invariant(&*self);
        }
        if self.position < self.data.len() {
            let item = self.data[self.position].clone();
            self.position = self.position + 1;
            assert(self.data@.skip(self.position as int) =~= old(self).data@.skip(
                old(self).position as int,
            ).skip(1));
            Some(item)
        } else {
            None
        }
    }

    /// All the pairs that are still to come; the pass is then at its end.
    pub fn collect(&mut self) -> (rest: Vec<Kvpair>)
        ensures
            rest@ == old(self).remaining(),
            final(self).remaining().len() == 0,
    {
        let mut rest: Vec<Kvpair> = Vec::new();
        let ghost start = self.remaining();
        loop
            invariant
                start == rest@ + self.remaining(),
            ensures
                self.remaining().len() == 0,
                start == rest@,
            decreases self.remaining().len(),
        {
            match self.next() {
                Some(pair) => {
                    rest.push(pair);
                },
                None => {
                    break ;
                },
            }
        }
        rest
    }
}

/// A storage backend.
///
/// `contents` is the model of what the backend holds. A backend is
/// `reliable` when none of its operations can fail; any other backend may
/// fail at any call, and after a failed `set` or `del` nothing is known of
/// its contents.
pub trait Storage {
    /// What the backend holds.
    spec fn contents(&self) -> StoreView;

    /// Whether every operation of the backend succeeds.
    spec fn reliable(&self) -> bool;

    /// The value under `key` in `table`, or `None` where there is none. A
    /// table that was never written holds no key.
    fn get(&self, table: &str, key: &str) -> (r: Result<Option<Value>, KvError>)
        ensures
            get_returns(self.contents(), self.reliable(), table@, key@, found_view(r)),
    ;

    /// Puts `value` under `key` in `table` and returns the value that was
    /// there before, or `None` where there was none.
    fn set(&mut self, table: &str, key: String, value: Value) -> (r: Result<Option<Value>, KvError>)
        ensures
            set_returns(
                old(self).contents(),
                old(self).reliable(),
                table@,
                key@,
                value@,
                found_view(r),
                final(self).contents(),
            ),
            final(self).reliable() == old(self).reliable(),
    ;

    /// Whether `table` holds `key`.
    fn contains(&self, table: &str, key: &str) -> (r: Result<bool, KvError>)
        ensures
            contains_returns(self.contents(), self.reliable(), table@, key@, flag_view(r)),
    ;

    /// Removes `key` from `table` and returns the value that was there, or
    /// `None` where there was none.
    fn del(&mut self, table: &str, key: &str) -> (r: Result<Option<Value>, KvError>)
        ensures
            del_returns(
                old(self).contents(),
                old(self).reliable(),
                table@,
                key@,
                found_view(r),
                final(self).contents(),
            ),
            final(self).reliable() == old(self).reliable(),
    ;

    /// The pairs of `table`, in any order.
    fn get_all(&self, table: &str) -> (r: Result<Vec<Kvpair>, KvError>)
        ensures
            get_all_returns(self.contents(), self.reliable(), table@, listing_view(r)),
    ;

    /// A pass over the pairs of `table`, in any order.
    fn get_iter(&self, table: &str) -> (r: Result<StorageIter, KvError>)
        ensures
            get_all_returns(self.contents(), self.reliable(), table@, pass_view(r)),
    ;
}

} // verus!
