//! What each command does to a store and what it answers.
//!
//! Every handler calls the store and turns the results into a response. A
//! store that is not reliable may fail at any call, so a handler's
//! contract says: there are results that the store was allowed to give,
//! and the response is the reply to those results. On a reliable store
//! the results, and with them the response, are fixed.

use crate::error::{KvError, KvErrorView};
use crate::pb::abi::{
    keys_view, option_view, pairs_view, CommandResponse, Hdel, Hexist, Hget, Hgetall, Hmdel, Hmexist, Hmget,
    Hmset, Hset, Kvpair, KvpairView, ResponseView, Value, ValueView,
};
use crate::pb::{
    batch_response, entries_view, error_response, failures_view, flags_view, pairs_response,
    value_response,
};
use crate::service::CommandService;
use crate::storage::{
    contains_returns, del_returns, flag_view, found_view, get_all_returns, get_returns,
    listing_view, set_returns, Found, Storage, StoreView,
};
use vstd::prelude::*;

verus! {

/// The value that a pair asks to store: its own, or the absent value where
/// it has none.
pub open spec fn value_or_absent(value: Option<ValueView>) -> ValueView {
    match value {
        Some(v) => v,
        None => ValueView::Absent,
    }
}

/// The reply to the result of setting a key: the previous value, or the
/// absent value where there was none.
pub open spec fn hset_reply(r: Found) -> ResponseView {
    match r {
        Ok(Some(previous)) => value_response(previous),
        Ok(None) => value_response(ValueView::Absent),
        Err(e) => error_response(e),
    }
}

/// The reply to the result of reading a key: the value, or that it was not
/// found.
pub open spec fn hget_reply(table: Seq<char>, key: Seq<char>, r: Found) -> ResponseView {
    match r {
        Ok(Some(value)) => value_response(value),
        Ok(None) => error_response(KvErrorView::NotFound(table, key)),
        Err(e) => error_response(e),
    }
}

/// The reply to the result of listing a table: its pairs.
pub open spec fn hgetall_reply(r: Result<Seq<KvpairView>, KvErrorView>) -> ResponseView {
    match r {
        Ok(pairs) => pairs_response(pairs),
        Err(e) => error_response(e),
    }
}

/// The pair that reports the deletion of a key: the integer 1 where
/// something was removed, no value where the key was not there.
pub open spec fn deleted_pair(key: Seq<char>, removed: Option<ValueView>) -> KvpairView {
    match removed {
        Some(_) => KvpairView { key, value: Some(ValueView::Integer(1)) },
        None => KvpairView { key, value: None },
    }
}

/// The reply to the result of deleting a key.
pub open spec fn hdel_reply(key: Seq<char>, r: Found) -> ResponseView {
    match r {
        Ok(removed) => pairs_response(seq![deleted_pair(key, removed)]),
        Err(e) => error_response(e),
    }
}

/// The reply to the result of a membership test: the flag.
pub open spec fn hexist_reply(r: Result<bool, KvErrorView>) -> ResponseView {
    match r {
        Ok(present) => value_response(ValueView::Boolean(present)),
        Err(e) => error_response(e),
    }
}

/// The response to the result of setting a key.
pub fn hset_response(r: Result<Option<Value>, KvError>) -> (res: CommandResponse)
    ensures
        res@ == hset_reply(found_view(r)),
{
    match r {
        Ok(Some(v)) => CommandResponse::from(v),
        Ok(None) => CommandResponse::from(Value::default()),
        Err(e) => CommandResponse::from(e),
    }
}

/// The response to the result of reading `key` in `table`.
pub fn hget_response(table: String, key: String, r: Result<Option<Value>, KvError>) -> (res:
    CommandResponse)
    ensures
        res@ == hget_reply(table@, key@, found_view(r)),
{
    match r {
        Ok(Some(v)) => CommandResponse::from(v),
        Ok(None) => CommandResponse::from(KvError::NotFound(table, key)),
        Err(e) => CommandResponse::from(e),
    }
}

/// The response to the result of listing a table.
pub fn hgetall_response(r: Result<Vec<Kvpair>, KvError>) -> (res: CommandResponse)
    ensures
        res@ == hgetall_reply(listing_view(r)),
{
    match r {
        Ok(v) => CommandResponse::from(v),
        Err(e) => CommandResponse::from(e),
    }
}

/// The pair that reports the deletion of `key`.
fn deletion(key: String, removed: Option<Value>) -> (pair: Kvpair)
    ensures
        pair@ == deleted_pair(key@, option_view(removed)),
{
    match removed {
        Some(_) => Kvpair { key, value: Some(Value::from(1i64)) },
        None => Kvpair { key, value: None },
    }
}

/// The response to the result of deleting `key`.
pub fn hdel_response(key: String, r: Result<Option<Value>, KvError>) -> (res: CommandResponse)
    ensures
        res@ == hdel_reply(key@, found_view(r)),
{
    match r {
        Ok(removed) => CommandResponse::from(deletion(key, removed)),
        Err(e) => CommandResponse::from(e),
    }
}

/// The response to the result of a membership test.
pub fn hexist_response(r: Result<bool, KvError>) -> (res: CommandResponse)
    ensures
        res@ == hexist_reply(flag_view(r)),
{
    match r {
        Ok(b) => CommandResponse::from(b),
        Err(e) => CommandResponse::from(e),
    }
}

impl CommandService for Hset {
    open spec fn answers(
        &self,
        before: StoreView,
        reliable: bool,
        res: ResponseView,
        after: StoreView,
    ) -> bool {
        match self.pair {
            None => res == value_response(ValueView::Absent) && after == before,
            Some(pair) => exists|r: Found| #[trigger]
                set_returns(
                    before,
                    reliable,
                    self.table@,
                    pair.key@,
                    value_or_absent(option_view(pair.value)),
                    r,
                    after,
                ) && res == hset_reply(r),
        }
    }

    fn execute<S: Storage + ?Sized>(self, store: &mut S) -> (res: CommandResponse) {
        match self.pair {
            None => CommandResponse::from(Value::default()),
            Some(v) => {
                let value = match v.value {
                    Some(value) => value,
                    None => Value::default(),
                };
                let r = store.set(self.table.as_str(), v.key, value);
                assert(set_returns(
                    old(store).contents(),
                    store.reliable(),
                    self.table@,
                    v.key@,
                    value_or_absent(option_view(v.value)),
                    found_view(r),
                    store.contents(),
                ));
                hset_response(r)
            },
        }
    }
}

impl CommandService for Hget {
    open spec fn answers(
        &self,
        before: StoreView,
        reliable: bool,
        res: ResponseView,
        after: StoreView,
    ) -> bool {
        &&& after == before
        &&& exists|r: Found| #[trigger]
            get_returns(before, reliable, self.table@, self.key@, r) && res
                == hget_reply(self.table@, self.key@, r)
    }

    fn execute<S: Storage + ?Sized>(self, store: &mut S) -> (res: CommandResponse) {
        self.read(&*store)
    }
}

impl Hget {
    /// Reads the key and answers with its value, or that it was not found.
    /// The store is only read.
    pub fn read<S: Storage + ?Sized>(self, store: &S) -> (res: CommandResponse)
        ensures
            self.answers(store.contents(), store.reliable(), res@, store.contents()),
    {
        let r = store.get(self.table.as_str(), self.key.as_str());
        assert(get_returns(
            store.contents(),
            store.reliable(),
            self.table@,
            self.key@,
            found_view(r),
        ));
        hget_response(self.table, self.key, r)
    }
}

impl CommandService for Hgetall {
    open spec fn answers(
        &self,
        before: StoreView,
        reliable: bool,
        res: ResponseView,
        after: StoreView,
    ) -> bool {
        &&& after == before
        &&& exists|r: Result<Seq<KvpairView>, KvErrorView>| #[trigger]
            get_all_returns(before, reliable, self.table@, r) && res
                == hgetall_reply(r)
    }

    fn execute<S: Storage + ?Sized>(self, store: &mut S) -> (res: CommandResponse) {
        self.read(&*store)
    }
}

impl Hgetall {
    /// Lists the table and answers with its pairs. The store is only read.
    pub fn read<S: Storage + ?Sized>(self, store: &S) -> (res: CommandResponse)
        ensures
            self.answers(store.contents(), store.reliable(), res@, store.contents()),
    {
        let r = store.get_all(self.table.as_str());
        assert(get_all_returns(store.contents(), store.reliable(), self.table@, listing_view(r)));
        hgetall_response(r)
    }
}

impl CommandService for Hdel {
    open spec fn answers(
        &self,
        before: StoreView,
        reliable: bool,
        res: ResponseView,
        after: StoreView,
    ) -> bool {
        exists|r: Found| #[trigger]
            del_returns(before, reliable, self.table@, self.key@, r, after) && res
                == hdel_reply(self.key@, r)
    }

    fn execute<S: Storage + ?Sized>(self, store: &mut S) -> (res: CommandResponse) {
        let r = store.del(self.table.as_str(), self.key.as_str());
        assert(del_returns(
            old(store).contents(),
            store.reliable(),
            self.table@,
            self.key@,
            found_view(r),
            store.contents(),
        ));
        hdel_response(self.key, r)
    }
}

impl CommandService for Hexist {
    open spec fn answers(
        &self,
        before: StoreView,
        reliable: bool,
        res: ResponseView,
        after: StoreView,
    ) -> bool {
        &&& after == before
        &&& exists|r: Result<bool, KvErrorView>| #[trigger]
            contains_returns(before, reliable, self.table@, self.key@, r) && res
                == hexist_reply(r)
    }

    fn execute<S: Storage + ?Sized>(self, store: &mut S) -> (res: CommandResponse) {
        self.read(&*store)
    }
}

impl Hexist {
    /// Tests the key and answers with the flag. The store is only read.
    pub fn read<S: Storage + ?Sized>(self, store: &S) -> (res: CommandResponse)
        ensures
            self.answers(store.contents(), store.reliable(), res@, store.contents()),
    {
        let r = store.contains(self.table.as_str(), self.key.as_str());
        assert(contains_returns(
            store.contents(),
            store.reliable(),
            self.table@,
            self.key@,
            flag_view(r),
        ));
        hexist_response(r)
    }
}

/// What one key of a batch comes to: its pair where the key succeeded, the
/// key and the error where it failed.
pub type Slot = Result<KvpairView, (Seq<char>, KvErrorView)>;

/// The pairs of the keys that succeeded, in the order of the keys.
pub open spec fn slot_pairs(slots: Seq<Slot>) -> Seq<KvpairView>
    decreases slots.len(),
{
    if slots.len() == 0 {
        Seq::empty()
    } else {
        match slots.last() {
            Ok(pair) => slot_pairs(slots.drop_last()).push(pair),
            Err(_) => slot_pairs(slots.drop_last()),
        }
    }
}

/// The keys that failed, each with its error, in the order of the keys.
pub open spec fn slot_failures(slots: Seq<Slot>) -> Seq<(Seq<char>, KvErrorView)>
    decreases slots.len(),
{
    if slots.len() == 0 {
        Seq::empty()
    } else {
        match slots.last() {
            Ok(_) => slot_failures(slots.drop_last()),
            Err(failure) => slot_failures(slots.drop_last()).push(failure),
        }
    }
}

/// The reply to a batch: the successes as pairs, a line for each failure,
/// and status 200 exactly if some key succeeded.
pub open spec fn batch_reply(slots: Seq<Slot>) -> ResponseView {
    batch_response(slot_pairs(slots), slot_failures(slots))
}

/// Setting a key succeeds with the previous value, or with the absent
/// value where there was none.
pub open spec fn hmset_slot(key: Seq<char>, r: Found) -> Slot {
    match r {
        Ok(Some(previous)) => Ok(KvpairView { key, value: Some(previous) }),
        Ok(None) => Ok(KvpairView { key, value: Some(ValueView::Absent) }),
        Err(e) => Err((key, e)),
    }
}

/// Reading a key succeeds with its value; a key that is not there fails as
/// not found.
pub open spec fn hmget_slot(table: Seq<char>, key: Seq<char>, r: Found) -> Slot {
    match r {
        Ok(Some(value)) => Ok(KvpairView { key, value: Some(value) }),
        Ok(None) => Err((key, KvErrorView::NotFound(table, key))),
        Err(e) => Err((key, e)),
    }
}

/// Deleting a key succeeds whether or not the key was there.
pub open spec fn hmdel_slot(key: Seq<char>, r: Found) -> Slot {
    match r {
        Ok(removed) => Ok(deleted_pair(key, removed)),
        Err(e) => Err((key, e)),
    }
}

/// A membership test succeeds with the flag.
pub open spec fn hmexist_slot(key: Seq<char>, r: Result<bool, KvErrorView>) -> Slot {
    match r {
        Ok(present) => Ok(KvpairView { key, value: Some(ValueView::Boolean(present)) }),
        Err(e) => Err((key, e)),
    }
}

/// `outcomes` are results that a store may give when the pairs are set one
/// after the other, and `states` are what the store holds before the first
/// call and after each call.
pub open spec fn sets_in_turn(
    reliable: bool,
    table: Seq<char>,
    pairs: Seq<KvpairView>,
    states: Seq<StoreView>,
    outcomes: Seq<Found>,
) -> bool {
    &&& outcomes.len() == pairs.len()
    &&& states.len() == pairs.len() + 1
    &&& forall|i: int|
        0 <= i < pairs.len() ==> set_returns(
            states[i],
            reliable,
            table,
            pairs[i].key,
            value_or_absent(pairs[i].value),
            #[trigger] outcomes[i],
            states[i + 1],
        )
}

/// `outcomes` are results that a store may give when the keys are deleted
/// one after the other, and `states` are what the store holds before the
/// first call and after each call.
pub open spec fn dels_in_turn(
    reliable: bool,
    table: Seq<char>,
    keys: Seq<Seq<char>>,
    states: Seq<StoreView>,
    outcomes: Seq<Found>,
) -> bool {
    &&& outcomes.len() == keys.len()
    &&& states.len() == keys.len() + 1
    &&& forall|i: int|
        0 <= i < keys.len() ==> del_returns(
            states[i],
            reliable,
            table,
            keys[i],
            #[trigger] outcomes[i],
            states[i + 1],
        )
}

/// `outcomes` are results that a store which holds `store` may give when
/// the keys are read one after the other.
pub open spec fn gets_in_turn(
    store: StoreView,
    reliable: bool,
    table: Seq<char>,
    keys: Seq<Seq<char>>,
    outcomes: Seq<Found>,
) -> bool {
    &&& outcomes.len() == keys.len()
    &&& forall|i: int|
        0 <= i < keys.len() ==> get_returns(store, reliable, table, keys[i], #[trigger] outcomes[i])
}

/// `outcomes` are results that a store which holds `store` may give when
/// the keys are tested one after the other.
pub open spec fn tests_in_turn(
    store: StoreView,
    reliable: bool,
    table: Seq<char>,
    keys: Seq<Seq<char>>,
    outcomes: Seq<Result<bool, KvErrorView>>,
) -> bool {
    &&& outcomes.len() == keys.len()
    &&& forall|i: int|
        0 <= i < keys.len() ==> contains_returns(
            store,
            reliable,
            table,
            keys[i],
            #[trigger] outcomes[i],
        )
}

impl CommandService for Hmset {
    open spec fn answers(
        &self,
        before: StoreView,
        reliable: bool,
        res: ResponseView,
        after: StoreView,
    ) -> bool {
        let pairs = pairs_view(self.pairs@);
        exists|states: Seq<StoreView>, outcomes: Seq<Found>| #[trigger]
            sets_in_turn(reliable, self.table@, pairs, states, outcomes) && states[0] == before
                && states.last() == after && res == batch_reply(
                Seq::new(pairs.len(), |i: int| hmset_slot(pairs[i].key, outcomes[i])),
            )
    }

    fn execute<S: Storage + ?Sized>(self, store: &mut S) -> (res: CommandResponse) {
        let mut v1: Vec<(String, Value)> = Vec::new();
        let mut v2: Vec<(String, KvError)> = Vec::new();
        let ghost pairs = pairs_view(self.pairs@);
        let ghost reliable = store.reliable();
        let ghost mut states: Seq<StoreView> = seq![store.contents()];
        let ghost mut outcomes: Seq<Found> = Seq::empty();
        let ghost mut slots: Seq<Slot> = Seq::empty();
        let table = self.table;

        for pair in it: self.pairs.into_iter()
            invariant
                pairs == pairs_view(it.seq()),
                store.reliable() == reliable,
                sets_in_turn(reliable, table@, pairs.take(it.index() as int), states, outcomes),
                states[0] == old(store).contents(),
                states.last() == store.contents(),
                slots =~= Seq::new(
                    it.index() as nat,
                    |i: int| hmset_slot(pairs[i].key, outcomes[i]),
                ),
                entries_view(v1@) == slot_pairs(slots),
                failures_view(v2@) == slot_failures(slots),
        {
            let ghost i = it.index() as int;
            let ghost entries = v1@;
            let ghost failures = v2@;
            let value = match pair.value {
                Some(value) => value,
                None => Value::default(),
            };
            let r = store.set(table.as_str(), pair.key.clone(), value);
            proof {
                let outcome = found_view(r);
                assert(pairs[i] == pair@);
                assert(pairs.take(i + 1) =~= pairs.take(i).push(pairs[i]));
                states = states.push(store.contents());
                outcomes = outcomes.push(outcome);
                let slot = hmset_slot(pair.key@, outcome);
                assert(slots.push(slot).drop_last() =~= slots);
                slots = slots.push(slot);
            }
            match r {
                Ok(Some(v)) => {
                    v1.push((pair.key, v));
                    assert(entries_view(v1@) =~= entries_view(entries).push(
                        KvpairView { key: pair.key@, value: Some(v@) },
                    ));
                },
                Ok(None) => {
                    v1.push((pair.key, Value::default()));
                    assert(entries_view(v1@) =~= entries_view(entries).push(
                        KvpairView { key: pair.key@, value: Some(ValueView::Absent) },
                    ));
                },
                Err(e) => {
                    v2.push((pair.key, e));
                    assert(failures_view(v2@) =~= failures_view(failures).push((pair.key@, e@)));
                },
            }
        }
        proof {
            assert(pairs.take(pairs.len() as int) =~= pairs);
        }
        CommandResponse::from((v1, v2))
    }
}

impl CommandService for Hmget {
    open spec fn answers(
        &self,
        before: StoreView,
        reliable: bool,
        res: ResponseView,
        after: StoreView,
    ) -> bool {
        let keys = keys_view(self.keys@);
        &&& after == before
        &&& exists|outcomes: Seq<Found>| #[trigger]
            gets_in_turn(before, reliable, self.table@, keys, outcomes)
                && res == batch_reply(
                Seq::new(keys.len(), |i: int| hmget_slot(self.table@, keys[i], outcomes[i])),
            )
    }

    fn execute<S: Storage + ?Sized>(self, store: &mut S) -> (res: CommandResponse) {
        self.read(&*store)
    }
}

impl Hmget {
    /// Reads the keys one after the other and answers with a pair for each
    /// key that is there and a failure for each that is not. The store is
    /// only read.
    pub fn read<S: Storage + ?Sized>(self, store: &S) -> (res: CommandResponse)
        ensures
            self.answers(store.contents(), store.reliable(), res@, store.contents()),
    {
        let mut v1: Vec<(String, Value)> = Vec::new();
        let mut v2: Vec<(String, KvError)> = Vec::new();
        let ghost keys = keys_view(self.keys@);
        let ghost mut outcomes: Seq<Found> = Seq::empty();
        let ghost mut slots: Seq<Slot> = Seq::empty();
        let table = self.table;

        for key in it: self.keys.into_iter()
            invariant
                keys == keys_view(it.seq()),
                gets_in_turn(
                    store.contents(),
                    store.reliable(),
                    table@,
                    keys.take(it.index() as int),
                    outcomes,
                ),
                slots =~= Seq::new(
                    it.index() as nat,
                    |i: int| hmget_slot(table@, keys[i], outcomes[i]),
                ),
                entries_view(v1@) == slot_pairs(slots),
                failures_view(v2@) == slot_failures(slots),
        {
            let ghost i = it.index() as int;
            let ghost entries = v1@;
            let ghost failures = v2@;
            let r = store.get(table.as_str(), key.as_str());
            proof {
                let outcome = found_view(r);
                assert(keys[i] == key@);
                assert(keys.take(i + 1) =~= keys.take(i).push(keys[i]));
                outcomes = outcomes.push(outcome);
                let slot = hmget_slot(table@, key@, outcome);
                assert(slots.push(slot).drop_last() =~= slots);
                slots = slots.push(slot);
            }
            match r {
                Ok(Some(v)) => {
                    v1.push((key, v));
                    assert(entries_view(v1@) =~= entries_view(entries).push(
                        KvpairView { key: key@, value: Some(v@) },
                    ));
                },
                Ok(None) => {
                    let e = KvError::NotFound(table.clone(), key.clone());
                    v2.push((key, e));
                    assert(failures_view(v2@) =~= failures_view(failures).push((key@, e@)));
                },
                Err(e) => {
                    v2.push((key, e));
                    assert(failures_view(v2@) =~= failures_view(failures).push((key@, e@)));
                },
            }
        }
        proof {
            assert(keys.take(keys.len() as int) =~= keys);
        }
        CommandResponse::from((v1, v2))
    }
}

impl CommandService for Hmdel {
    open spec fn answers(
        &self,
        before: StoreView,
        reliable: bool,
        res: ResponseView,
        after: StoreView,
    ) -> bool {
        let keys = keys_view(self.keys@);
        exists|states: Seq<StoreView>, outcomes: Seq<Found>| #[trigger]
            dels_in_turn(reliable, self.table@, keys, states, outcomes) && states[0] == before
                && states.last() == after && res == batch_reply(
                Seq::new(keys.len(), |i: int| hmdel_slot(keys[i], outcomes[i])),
            )
    }

    fn execute<S: Storage + ?Sized>(self, store: &mut S) -> (res: CommandResponse) {
        let mut v1: Vec<Kvpair> = Vec::new();
        let mut v2: Vec<(String, KvError)> = Vec::new();
        let ghost keys = keys_view(self.keys@);
        let ghost reliable = store.reliable();
        let ghost mut states: Seq<StoreView> = seq![store.contents()];
        let ghost mut outcomes: Seq<Found> = Seq::empty();
        let ghost mut slots: Seq<Slot> = Seq::empty();
        let table = self.table;

        for key in it: self.keys.into_iter()
            invariant
                keys == keys_view(it.seq()),
                store.reliable() == reliable,
                dels_in_turn(reliable, table@, keys.take(it.index() as int), states, outcomes),
                states[0] == old(store).contents(),
                states.last() == store.contents(),
                slots =~= Seq::new(it.index() as nat, |i: int| hmdel_slot(keys[i], outcomes[i])),
                pairs_view(v1@) == slot_pairs(slots),
                failures_view(v2@) == slot_failures(slots),
        {
            let ghost i = it.index() as int;
            let ghost done = v1@;
            let ghost failures = v2@;
            let r = store.del(table.as_str(), key.as_str());
            proof {
                let outcome = found_view(r);
                assert(keys[i] == key@);
                assert(keys.take(i + 1) =~= keys.take(i).push(keys[i]));
                states = states.push(store.contents());
                outcomes = outcomes.push(outcome);
                let slot = hmdel_slot(key@, outcome);
                assert(slots.push(slot).drop_last() =~= slots);
                slots = slots.push(slot);
            }
            match r {
                Ok(removed) => {
                    let pair = deletion(key, removed);
                    v1.push(pair);
                    assert(pairs_view(v1@) =~= pairs_view(done).push(pair@));
                },
                Err(e) => {
                    v2.push((key, e));
                    assert(failures_view(v2@) =~= failures_view(failures).push((key@, e@)));
                },
            }
        }
        proof {
            assert(keys.take(keys.len() as int) =~= keys);
        }
        CommandResponse::from((v1, v2))
    }
}

impl CommandService for Hmexist {
    open spec fn answers(
        &self,
        before: StoreView,
        reliable: bool,
        res: ResponseView,
        after: StoreView,
    ) -> bool {
        let keys = keys_view(self.keys@);
        &&& after == before
        &&& exists|outcomes: Seq<Result<bool, KvErrorView>>| #[trigger]
            tests_in_turn(before, reliable, self.table@, keys, outcomes)
                && res == batch_reply(
                Seq::new(keys.len(), |i: int| hmexist_slot(keys[i], outcomes[i])),
            )
    }

    fn execute<S: Storage + ?Sized>(self, store: &mut S) -> (res: CommandResponse) {
        self.read(&*store)
    }
}

impl Hmexist {
    /// Tests the keys one after the other and answers with a flag for each.
    /// The store is only read.
    pub fn read<S: Storage + ?Sized>(self, store: &S) -> (res: CommandResponse)
        ensures
            self.answers(store.contents(), store.reliable(), res@, store.contents()),
    {
        let mut v1: Vec<(String, bool)> = Vec::new();
        let mut v2: Vec<(String, KvError)> = Vec::new();
        let ghost keys = keys_view(self.keys@);
        let ghost mut outcomes: Seq<Result<bool, KvErrorView>> = Seq::empty();
        let ghost mut slots: Seq<Slot> = Seq::empty();
        let table = self.table;

        for key in it: self.keys.into_iter()
            invariant
                keys == keys_view(it.seq()),
                tests_in_turn(
                    store.contents(),
                    store.reliable(),
                    table@,
                    keys.take(it.index() as int),
                    outcomes,
                ),
                slots =~= Seq::new(
                    it.index() as nat,
                    |i: int| hmexist_slot(keys[i], outcomes[i]),
                ),
                flags_view(v1@) == slot_pairs(slots),
                failures_view(v2@) == slot_failures(slots),
        {
            let ghost i = it.index() as int;
            let ghost flags = v1@;
            let ghost failures = v2@;
            let r = store.contains(table.as_str(), key.as_str());
            proof {
                let outcome = flag_view(r);
                assert(keys[i] == key@);
                assert(keys.take(i + 1) =~= keys.take(i).push(keys[i]));
                outcomes = outcomes.push(outcome);
                let slot = hmexist_slot(key@, outcome);
                assert(slots.push(slot).drop_last() =~= slots);
                slots = slots.push(slot);
            }
            match r {
                Ok(b) => {
                    v1.push((key, b));
                    assert(flags_view(v1@) =~= flags_view(flags).push(
                        KvpairView { key: key@, value: Some(ValueView::Boolean(b)) },
                    ));
                },
                Err(e) => {
                    v2.push((key, e));
                    assert(failures_view(v2@) =~= failures_view(failures).push((key@, e@)));
                },
            }
        }
        proof {
            assert(keys.take(keys.len() as int) =~= keys);
        }
        CommandResponse::from((v1, v2))
    }
}

} // verus!
