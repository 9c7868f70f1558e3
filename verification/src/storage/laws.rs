//! What holds of every backend, proved from the contracts of the storage
//! interface alone.
//!
//! Each law speaks of results that a backend gave and of what it held before
//! and after. On a reliable backend every call succeeds, and the law fixes
//! every result. On another backend the law fixes each result that is a
//! success, as long as the calls that changed the store before it
//! succeeded.

use crate::error::KvErrorView;
use crate::pb::abi::{KvpairView, ValueView};
use crate::storage::{
    contains_returns, del_returns, get_all_returns, get_returns, lists, lookup, set_returns,
    table_of, Found, StoreView,
};
use vstd::prelude::*;

verus! {

/// Setting a key that was not there returns nothing; setting it again
/// returns the first value; reading it then gives the second value.
pub proof fn law_set_returns_previous(
    reliable: bool,
    s0: StoreView,
    s1: StoreView,
    s2: StoreView,
    table: Seq<char>,
    key: Seq<char>,
    v1: ValueView,
    v2: ValueView,
    r1: Found,
    r2: Found,
    r3: Found,
)
    requires
        !s0.contains_key((table, key)),
        set_returns(s0, reliable, table, key, v1, r1, s1),
        set_returns(s1, reliable, table, key, v2, r2, s2),
        get_returns(s2, reliable, table, key, r3),
    ensures
        r1 is Ok ==> r1 == Found::Ok(None),
        r1 is Ok && r2 is Ok ==> r2 == Found::Ok(Some(v1)),
        r2 is Ok && r3 is Ok ==> r3 == Found::Ok(Some(v2)),
        reliable ==> r1 == Found::Ok(None) && r2 == Found::Ok(Some(v1)) && r3 == Found::Ok(
            Some(v2),
        ),
{
}

/// Reading a key of a table that holds nothing gives no value, and on a
/// reliable backend it is no error.
pub proof fn law_get_unwritten(
    reliable: bool,
    store: StoreView,
    table: Seq<char>,
    key: Seq<char>,
    r: Found,
)
    requires
        forall|k: Seq<char>| !store.contains_key((table, k)),
        get_returns(store, reliable, table, key, r),
    ensures
        r is Ok ==> r == Found::Ok(None),
        reliable ==> r == Found::Ok(None),
{
}

/// Deleting a key that is there returns its value; deleting it again
/// returns nothing. Neither is an error on a reliable backend.
pub proof fn law_del_twice(
    reliable: bool,
    s0: StoreView,
    s1: StoreView,
    s2: StoreView,
    table: Seq<char>,
    key: Seq<char>,
    r1: Found,
    r2: Found,
)
    requires
        s0.contains_key((table, key)),
        del_returns(s0, reliable, table, key, r1, s1),
        del_returns(s1, reliable, table, key, r2, s2),
    ensures
        r1 is Ok ==> r1 == Found::Ok(Some(s0[(table, key)])),
        r1 is Ok && r2 is Ok ==> r2 == Found::Ok(None),
        reliable ==> r1 == Found::Ok(Some(s0[(table, key)])) && r2 == Found::Ok(None),
{
}

/// A key that was not written is not contained.
pub proof fn law_contains_unwritten(
    reliable: bool,
    store: StoreView,
    table: Seq<char>,
    key: Seq<char>,
    r: Result<bool, KvErrorView>,
)
    requires
        !store.contains_key((table, key)),
        contains_returns(store, reliable, table, key, r),
    ensures
        r is Ok ==> r == Ok::<bool, KvErrorView>(false),
        reliable ==> r == Ok::<bool, KvErrorView>(false),
{
}

/// A key is contained as soon as it has been set.
pub proof fn law_contains_after_set(
    reliable: bool,
    s0: StoreView,
    s1: StoreView,
    table: Seq<char>,
    key: Seq<char>,
    value: ValueView,
    r1: Found,
    r2: Result<bool, KvErrorView>,
)
    requires
        set_returns(s0, reliable, table, key, value, r1, s1),
        r1 is Ok,
        contains_returns(s1, reliable, table, key, r2),
    ensures
        r2 is Ok ==> r2 == Ok::<bool, KvErrorView>(true),
        reliable ==> r2 == Ok::<bool, KvErrorView>(true),
{
}

/// Keys of different tables do not see one another: setting or deleting a
/// key leaves every other table, and every other key, as it was.
pub proof fn law_tables_are_apart(
    reliable: bool,
    s0: StoreView,
    s1: StoreView,
    s2: StoreView,
    table: Seq<char>,
    key: Seq<char>,
    value: ValueView,
    r1: Found,
    r2: Found,
    other_table: Seq<char>,
    other_key: Seq<char>,
)
    requires
        set_returns(s0, reliable, table, key, value, r1, s1),
        del_returns(s0, reliable, table, key, r2, s2),
        (other_table, other_key) != (table, key),
    ensures
        r1 is Ok ==> lookup(s1, other_table, other_key) == lookup(s0, other_table, other_key),
        r2 is Ok ==> lookup(s2, other_table, other_key) == lookup(s0, other_table, other_key),
        r1 is Ok && other_table != table ==> table_of(s1, other_table) == table_of(
            s0,
            other_table,
        ),
        r2 is Ok && other_table != table ==> table_of(s2, other_table) == table_of(
            s0,
            other_table,
        ),
{
    if r1 is Ok && other_table != table {
        assert(table_of(s1, other_table) =~= table_of(s0, other_table));
    }
    if r2 is Ok && other_table != table {
        assert(table_of(s2, other_table) =~= table_of(s0, other_table));
    }
}

/// A write to a store.
pub enum Write {
    /// Put a value under a key of a table.
    Put(Seq<char>, Seq<char>, ValueView),
    /// Remove a key of a table.
    Remove(Seq<char>, Seq<char>),
}

/// What a store holds after the writes, made in order on a store that held
/// `start`.
pub open spec fn replay(start: StoreView, writes: Seq<Write>) -> StoreView
    decreases writes.len(),
{
    if writes.len() == 0 {
        start
    } else {
        let before = replay(start, writes.drop_last());
        match writes.last() {
            Write::Put(table, key, value) => before.insert((table, key), value),
            Write::Remove(table, key) => before.remove((table, key)),
        }
    }
}

/// The value that the last write to `key` of `table` left: the value of a
/// set, nothing after a delete, and what `start` held where no write
/// touched the key.
pub open spec fn last_write(
    start: StoreView,
    writes: Seq<Write>,
    table: Seq<char>,
    key: Seq<char>,
) -> Option<ValueView>
    decreases writes.len(),
{
    if writes.len() == 0 {
        lookup(start, table, key)
    } else {
        match writes.last() {
            Write::Put(t, k, value) if t == table && k == key => Some(value),
            Write::Remove(t, k) if t == table && k == key => None,
            _ => last_write(start, writes.drop_last(), table, key),
        }
    }
}

/// `states` are what a backend held before the first write and after each
/// write, and `outcomes` are results that it was allowed to give.
pub open spec fn writes_in_turn(
    reliable: bool,
    writes: Seq<Write>,
    states: Seq<StoreView>,
    outcomes: Seq<Found>,
) -> bool {
    &&& outcomes.len() == writes.len()
    &&& states.len() == writes.len() + 1
    &&& forall|i: int|
        0 <= i < writes.len() ==> match writes[i] {
            Write::Put(table, key, value) => set_returns(
                states[i],
                reliable,
                table,
                key,
                value,
                #[trigger] outcomes[i],
                states[i + 1],
            ),
            Write::Remove(table, key) => del_returns(
                states[i],
                reliable,
                table,
                key,
                #[trigger] outcomes[i],
                states[i + 1],
            ),
        }
}

/// After writes that all succeeded, a backend holds what replaying them
/// gives.
pub proof fn lemma_writes_replay(
    reliable: bool,
    writes: Seq<Write>,
    states: Seq<StoreView>,
    outcomes: Seq<Found>,
)
    requires
        writes_in_turn(reliable, writes, states, outcomes),
        forall|i: int| 0 <= i < outcomes.len() ==> (#[trigger] outcomes[i]) is Ok,
    ensures
        states.last() == replay(states[0], writes),
    decreases writes.len(),
{
    if writes.len() > 0 {
        let n = writes.len() as int - 1;
        let _ = outcomes[n];
        lemma_writes_replay(reliable, writes.drop_last(), states.drop_last(), outcomes.drop_last());
    }
}

/// Replaying writes leaves under each key what the last write to it left.
pub proof fn lemma_replay_last_write(
    start: StoreView,
    writes: Seq<Write>,
    table: Seq<char>,
    key: Seq<char>,
)
    ensures
        lookup(replay(start, writes), table, key) == last_write(start, writes, table, key),
    decreases writes.len(),
{
    if writes.len() > 0 {
        lemma_replay_last_write(start, writes.drop_last(), table, key);
    }
}

/// After any sequence of sets and deletes that succeeded, a listing of a
/// table holds exactly the keys whose last write was a set, each once and
/// with the value of that set, in some order.
pub proof fn law_listing_is_last_writes(
    reliable: bool,
    writes: Seq<Write>,
    states: Seq<StoreView>,
    outcomes: Seq<Found>,
    table: Seq<char>,
    pairs: Seq<KvpairView>,
)
    requires
        writes_in_turn(reliable, writes, states, outcomes),
        forall|i: int| 0 <= i < outcomes.len() ==> (#[trigger] outcomes[i]) is Ok,
        get_all_returns(states.last(), reliable, table, Ok(pairs)),
    ensures
        forall|i: int|
            0 <= i < pairs.len() ==> (#[trigger] pairs[i]).value is Some && pairs[i].value
                == last_write(states[0], writes, table, pairs[i].key),
        forall|key: Seq<char>|
            last_write(states[0], writes, table, key) is Some ==> exists|i: int|
                0 <= i < pairs.len() && #[trigger] pairs[i].key == key,
        forall|i: int, j: int|
            0 <= i < j < pairs.len() ==> #[trigger] pairs[i].key != #[trigger] pairs[j].key,
{
    lemma_writes_replay(reliable, writes, states, outcomes);
    let held = replay(states[0], writes);
    assert forall|i: int| 0 <= i < pairs.len() implies (#[trigger] pairs[i]).value is Some
        && pairs[i].value == last_write(states[0], writes, table, pairs[i].key) by {
        lemma_replay_last_write(states[0], writes, table, pairs[i].key);
    }
    assert forall|key: Seq<char>|
        last_write(states[0], writes, table, key) is Some implies exists|i: int|
        0 <= i < pairs.len() && #[trigger] pairs[i].key == key by {
        lemma_replay_last_write(states[0], writes, table, key);
        assert(table_of(held, table).contains_key(key));
    }
}

/// Two listings of one table hold the same pairs, each once: they differ
/// in order at most. So a pass over a table and an eager listing of it
/// give the same.
pub proof fn law_listings_agree(
    first: Seq<KvpairView>,
    second: Seq<KvpairView>,
    table: Map<Seq<char>, ValueView>,
)
    requires
        lists(first, table),
        lists(second, table),
    ensures
        first.no_duplicates(),
        second.no_duplicates(),
        first.to_set() == second.to_set(),
        first.len() == second.len(),
{
    lemma_listing_is_set(first, table);
    lemma_listing_is_set(second, table);
    assert(first.to_set() =~= second.to_set());
    first.unique_seq_to_set();
    second.unique_seq_to_set();
}

/// A listing has no pair twice, and holds exactly the pairs of the table.
proof fn lemma_listing_is_set(pairs: Seq<KvpairView>, table: Map<Seq<char>, ValueView>)
    requires
        lists(pairs, table),
    ensures
        pairs.no_duplicates(),
        forall|pair: KvpairView|
            pairs.to_set().contains(pair) <==> (table.contains_key(pair.key) && pair.value == Some(
                table[pair.key],
            )),
{
    assert forall|i: int, j: int| 0 <= i < pairs.len() && 0 <= j < pairs.len() && i != j implies pairs[i]
        != pairs[j] by {
        if i < j {
            assert(pairs[i].key != pairs[j].key);
        } else {
            assert(pairs[j].key != pairs[i].key);
        }
    }
    assert forall|pair: KvpairView|
        pairs.to_set().contains(pair) <==> (table.contains_key(pair.key) && pair.value == Some(
            table[pair.key],
        )) by {
        if pairs.to_set().contains(pair) {
            let i = choose|i: int| 0 <= i < pairs.len() && pairs[i] == pair;
            assert(table.contains_key(pairs[i].key));
        }
        if table.contains_key(pair.key) && pair.value == Some(table[pair.key]) {
            let i = choose|i: int| 0 <= i < pairs.len() && #[trigger] pairs[i].key == pair.key;
            assert(pairs[i] == pair);
        }
    }
}

/// Two backends that hold the same answer a lookup alike, where both
/// succeed. The backends may differ in kind: one may be reliable and the
/// other not.
pub proof fn law_backends_agree_on_reads(
    first_reliable: bool,
    second_reliable: bool,
    store: StoreView,
    table: Seq<char>,
    key: Seq<char>,
    first_found: Found,
    second_found: Found,
    first_present: Result<bool, KvErrorView>,
    second_present: Result<bool, KvErrorView>,
    first_pairs: Seq<KvpairView>,
    second_pairs: Seq<KvpairView>,
)
    requires
        get_returns(store, first_reliable, table, key, first_found),
        get_returns(store, second_reliable, table, key, second_found),
        contains_returns(store, first_reliable, table, key, first_present),
        contains_returns(store, second_reliable, table, key, second_present),
        get_all_returns(store, first_reliable, table, Ok(first_pairs)),
        get_all_returns(store, second_reliable, table, Ok(second_pairs)),
    ensures
        first_found is Ok && second_found is Ok ==> first_found == second_found,
        first_present is Ok && second_present is Ok ==> first_present == second_present,
        first_pairs.to_set() == second_pairs.to_set(),
        first_pairs.len() == second_pairs.len(),
{
    law_listings_agree(first_pairs, second_pairs, table_of(store, table));
}

/// Two backends that hold the same and are given the same write return
/// the same and hold the same afterwards, where both succeed.
pub proof fn law_backends_agree_on_writes(
    first_reliable: bool,
    second_reliable: bool,
    before: StoreView,
    write: Write,
    first: Found,
    second: Found,
    first_after: StoreView,
    second_after: StoreView,
)
    requires
        match write {
            Write::Put(table, key, value) => {
                &&& set_returns(before, first_reliable, table, key, value, first, first_after)
                &&& set_returns(before, second_reliable, table, key, value, second, second_after)
            },
            Write::Remove(table, key) => {
                &&& del_returns(before, first_reliable, table, key, first, first_after)
                &&& del_returns(before, second_reliable, table, key, second, second_after)
            },
        },
        first is Ok,
        second is Ok,
    ensures
        first == second,
        first_after == second_after,
{
}

} // verus!
