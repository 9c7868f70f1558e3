//! What holds of the answers to batch commands, proved from the contracts
//! of the handlers.

use crate::error::KvErrorView;
use crate::pb::abi::{
    keys_view, pairs_view, CommandRequest, CommandResponse, Hmdel, Hmget, Hmset, KvpairView,
    ResponseView,
};
use crate::pb::{error_line, error_lines, Status};
use crate::service::command_service::{
    batch_reply, deleted_pair, dels_in_turn, gets_in_turn, hmdel_slot, hmget_slot, hmset_slot,
    sets_in_turn, slot_failures, slot_pairs, value_or_absent, Slot,
};
use crate::service::{dispatched, turned_by, turned_in_turn, CommandService, NotifyMut};
use crate::storage::{lookup, Found, StoreView};
use vstd::prelude::*;

verus! {

/// No key of a batch is dropped: each is reported once, as a pair or as a
/// failure.
pub proof fn law_every_key_is_reported(slots: Seq<Slot>)
    ensures
        slot_pairs(slots).len() + slot_failures(slots).len() == slots.len(),
    decreases slots.len(),
{
    if slots.len() > 0 {
        law_every_key_is_reported(slots.drop_last());
    }
}

/// The status of a batch is 200 if at least one key succeeded and 500
/// otherwise, however many keys failed.
pub proof fn law_batch_status(slots: Seq<Slot>)
    ensures
        batch_reply(slots).status == if exists|i: int| 0 <= i < slots.len() && slots[i] is Ok {
            200u32
        } else {
            500u32
        },
    decreases slots.len(),
{
    if slots.len() > 0 {
        let rest = slots.drop_last();
        law_batch_status(rest);
        if slots.last() is Ok {
            assert(slots[slots.len() - 1] is Ok);
        } else if exists|i: int| 0 <= i < rest.len() && rest[i] is Ok {
            let i = choose|i: int| 0 <= i < rest.len() && rest[i] is Ok;
            assert(slots[i] is Ok);
        } else {
            assert forall|i: int| 0 <= i < slots.len() implies !(slots[i] is Ok) by {
                if i < rest.len() {
                    assert(rest[i] == slots[i]);
                }
            }
        }
    }
}

/// Pairs and failures keep the order of the keys: a slot that comes later
/// is reported later.
pub proof fn law_batch_keeps_order(slots: Seq<Slot>, upto: int)
    requires
        0 <= upto <= slots.len(),
    ensures
        slot_pairs(slots.take(upto)).is_prefix_of(slot_pairs(slots)),
        slot_failures(slots.take(upto)).is_prefix_of(slot_failures(slots)),
    decreases slots.len() - upto,
{
    if upto == slots.len() {
        assert(slots.take(upto) =~= slots);
    } else {
        law_batch_keeps_order(slots, upto + 1);
        let longer = slots.take(upto + 1);
        assert(longer.drop_last() =~= slots.take(upto));
    }
}

/// On a reliable store, reading several keys changes nothing, and the
/// answer is fixed by what the store holds: a pair for each key that is
/// there, a not-found failure for each key that is not.
pub proof fn law_hmget_on_reliable(
    cmd: Hmget,
    before: StoreView,
    res: ResponseView,
    after: StoreView,
)
    requires
        cmd.answers(before, true, res, after),
    ensures
        after == before,
        res == batch_reply(
            Seq::new(
                cmd.keys@.len(),
                |i: int|
                    hmget_slot(
                        cmd.table@,
                        cmd.keys@[i]@,
                        Found::Ok(lookup(before, cmd.table@, cmd.keys@[i]@)),
                    ),
            ),
        ),
{
    let keys = keys_view(cmd.keys@);
    let outcomes = choose|outcomes: Seq<Found>| #[trigger]
        gets_in_turn(before, true, cmd.table@, keys, outcomes) && res == batch_reply(
            Seq::new(keys.len(), |i: int| hmget_slot(cmd.table@, keys[i], outcomes[i])),
        );
    let given = Seq::new(keys.len(), |i: int| hmget_slot(cmd.table@, keys[i], outcomes[i]));
    let fixed = Seq::new(
        cmd.keys@.len(),
        |i: int|
            hmget_slot(
                cmd.table@,
                cmd.keys@[i]@,
                Found::Ok(lookup(before, cmd.table@, cmd.keys@[i]@)),
            ),
    );
    assert forall|i: int| 0 <= i < keys.len() implies given[i] == fixed[i] by {
        let r = outcomes[i];
        assert(r is Ok);
    }
    assert(given =~= fixed);
}

/// On a reliable store, reading several keys a second time gives the same
/// answer as the first time, and the store holds what it held.
pub proof fn law_hmget_is_idempotent(
    cmd: Hmget,
    before: StoreView,
    first: ResponseView,
    between: StoreView,
    second: ResponseView,
    after: StoreView,
)
    requires
        cmd.answers(before, true, first, between),
        cmd.answers(between, true, second, after),
    ensures
        second == first,
        after == before,
{
    law_hmget_on_reliable(cmd, before, first, between);
    law_hmget_on_reliable(cmd, between, second, after);
}

/// Reading three keys of which the first two are there and the third is
/// not, on a reliable store: the pairs of the first two in order, one
/// failure line for the third, and status 200.
pub proof fn law_hmget_partial(
    cmd: Hmget,
    before: StoreView,
    res: ResponseView,
    after: StoreView,
)
    requires
        cmd.keys@.len() == 3,
        before.contains_key((cmd.table@, cmd.keys@[0]@)),
        before.contains_key((cmd.table@, cmd.keys@[1]@)),
        !before.contains_key((cmd.table@, cmd.keys@[2]@)),
        cmd.answers(before, true, res, after),
    ensures
        res.status == 200,
        res.pairs == seq![
            KvpairView { key: cmd.keys@[0]@, value: Some(before[(cmd.table@, cmd.keys@[0]@)]) },
            KvpairView { key: cmd.keys@[1]@, value: Some(before[(cmd.table@, cmd.keys@[1]@)]) },
        ],
        res.message == error_line(
            cmd.keys@[2]@,
            KvErrorView::NotFound(cmd.table@, cmd.keys@[2]@),
        ),
        res.values.len() == 0,
{
    law_hmget_on_reliable(cmd, before, res, after);
    let slots = Seq::new(
        cmd.keys@.len(),
        |i: int|
            hmget_slot(
                cmd.table@,
                cmd.keys@[i]@,
                Found::Ok(lookup(before, cmd.table@, cmd.keys@[i]@)),
            ),
    );
    let two = slots.drop_last();
    let one = two.drop_last();
    let none = one.drop_last();
    assert(none.len() == 0);
    assert(slot_pairs(none) =~= Seq::empty());
    assert(slot_failures(none) =~= Seq::empty());
    assert(slot_pairs(one) =~= seq![
        KvpairView { key: cmd.keys@[0]@, value: Some(before[(cmd.table@, cmd.keys@[0]@)]) },
    ]);
    assert(slot_failures(one) =~= Seq::empty());
    assert(slot_pairs(two) =~= seq![
        KvpairView { key: cmd.keys@[0]@, value: Some(before[(cmd.table@, cmd.keys@[0]@)]) },
        KvpairView { key: cmd.keys@[1]@, value: Some(before[(cmd.table@, cmd.keys@[1]@)]) },
    ]);
    assert(slot_failures(two) =~= Seq::empty());
    assert(slot_pairs(slots) =~= slot_pairs(two));
    let failure = (cmd.keys@[2]@, KvErrorView::NotFound(cmd.table@, cmd.keys@[2]@));
    assert(slot_failures(slots) =~= seq![failure]);
    assert(seq![failure].drop_last() =~= Seq::empty());
    assert(error_lines(seq![failure].drop_last()) =~= Seq::empty());
    assert(error_lines(seq![failure]) =~= error_line(failure.0, failure.1));
}

/// What a store holds after the pairs have been set in turn.
pub open spec fn sets_applied(
    before: StoreView,
    table: Seq<char>,
    pairs: Seq<KvpairView>,
) -> StoreView
    decreases pairs.len(),
{
    if pairs.len() == 0 {
        before
    } else {
        sets_applied(before, table, pairs.drop_last()).insert(
            (table, pairs.last().key),
            value_or_absent(pairs.last().value),
        )
    }
}

/// What a store holds after the keys have been deleted in turn.
pub open spec fn dels_applied(
    before: StoreView,
    table: Seq<char>,
    keys: Seq<Seq<char>>,
) -> StoreView
    decreases keys.len(),
{
    if keys.len() == 0 {
        before
    } else {
        dels_applied(before, table, keys.drop_last()).remove((table, keys.last()))
    }
}

/// After sets that all succeeded the store holds what applying them in
/// turn gives, and each set returned what was under its key just before.
proof fn lemma_sets_applied(
    table: Seq<char>,
    pairs: Seq<KvpairView>,
    states: Seq<StoreView>,
    outcomes: Seq<Found>,
)
    requires
        sets_in_turn(true, table, pairs, states, outcomes),
    ensures
        forall|i: int|
            0 <= i <= pairs.len() ==> #[trigger] states[i] == sets_applied(
                states[0],
                table,
                pairs.take(i),
            ),
        forall|i: int|
            0 <= i < pairs.len() ==> #[trigger] outcomes[i] == Found::Ok(
                lookup(states[i], table, pairs[i].key),
            ),
    decreases pairs.len(),
{
    assert forall|i: int| 0 <= i < pairs.len() implies #[trigger] outcomes[i] == Found::Ok(
        lookup(states[i], table, pairs[i].key),
    ) by {}
    assert forall|i: int| 0 <= i <= pairs.len() implies #[trigger] states[i] == sets_applied(
        states[0],
        table,
        pairs.take(i),
    ) by {
        lemma_sets_prefix(table, pairs, states, outcomes, i);
    }
}

proof fn lemma_sets_prefix(
    table: Seq<char>,
    pairs: Seq<KvpairView>,
    states: Seq<StoreView>,
    outcomes: Seq<Found>,
    upto: int,
)
    requires
        sets_in_turn(true, table, pairs, states, outcomes),
        0 <= upto <= pairs.len(),
    ensures
        states[upto] == sets_applied(states[0], table, pairs.take(upto)),
    decreases upto,
{
    if upto > 0 {
        lemma_sets_prefix(table, pairs, states, outcomes, upto - 1);
        let r = outcomes[upto - 1];
        assert(r is Ok);
        assert(pairs.take(upto).drop_last() =~= pairs.take(upto - 1));
    }
}

proof fn lemma_dels_prefix(
    table: Seq<char>,
    keys: Seq<Seq<char>>,
    states: Seq<StoreView>,
    outcomes: Seq<Found>,
    upto: int,
)
    requires
        dels_in_turn(true, table, keys, states, outcomes),
        0 <= upto <= keys.len(),
    ensures
        states[upto] == dels_applied(states[0], table, keys.take(upto)),
    decreases upto,
{
    if upto > 0 {
        lemma_dels_prefix(table, keys, states, outcomes, upto - 1);
        let r = outcomes[upto - 1];
        assert(r is Ok);
        assert(keys.take(upto).drop_last() =~= keys.take(upto - 1));
    }
}

/// On a reliable store, setting several pairs never fails: the store
/// holds them all afterwards, later pairs over earlier ones, and the
/// answer holds for each pair, in order, the value that was under its key
/// just before it was set, or the absent value.
pub proof fn law_hmset_on_reliable(
    cmd: Hmset,
    before: StoreView,
    res: ResponseView,
    after: StoreView,
)
    requires
        cmd.answers(before, true, res, after),
    ensures
        after == sets_applied(before, cmd.table@, pairs_view(cmd.pairs@)),
        res.status == if cmd.pairs@.len() > 0 {
            200u32
        } else {
            500u32
        },
        res.message.len() == 0,
        res.pairs.len() == cmd.pairs@.len(),
        forall|i: int|
            0 <= i < cmd.pairs@.len() ==> #[trigger] res.pairs[i] == (KvpairView {
                key: cmd.pairs@[i].key@,
                value: Some(
                    value_or_absent(
                        lookup(
                            sets_applied(before, cmd.table@, pairs_view(cmd.pairs@).take(i)),
                            cmd.table@,
                            cmd.pairs@[i].key@,
                        ),
                    ),
                ),
            }),
{
    let pairs = pairs_view(cmd.pairs@);
    let (states, outcomes) = choose|states: Seq<StoreView>, outcomes: Seq<Found>| #[trigger]
        sets_in_turn(true, cmd.table@, pairs, states, outcomes) && states[0] == before
            && states.last() == after && res == batch_reply(
            Seq::new(pairs.len(), |i: int| hmset_slot(pairs[i].key, outcomes[i])),
        );
    let slots = Seq::new(pairs.len(), |i: int| hmset_slot(pairs[i].key, outcomes[i]));
    lemma_sets_applied(cmd.table@, pairs, states, outcomes);
    assert(pairs.take(pairs.len() as int) =~= pairs);
    assert forall|i: int| 0 <= i < slots.len() implies (#[trigger] slots[i]) is Ok by {
        let r = outcomes[i];
        assert(r is Ok);
    }
    lemma_all_succeeded(slots);
    assert forall|i: int| 0 <= i < cmd.pairs@.len() implies #[trigger] res.pairs[i]
        == (KvpairView {
        key: cmd.pairs@[i].key@,
        value: Some(
            value_or_absent(
                lookup(
                    sets_applied(before, cmd.table@, pairs.take(i)),
                    cmd.table@,
                    cmd.pairs@[i].key@,
                ),
            ),
        ),
    }) by {
        let r = outcomes[i];
        let s = states[i];
        assert(r == Found::Ok(lookup(s, cmd.table@, pairs[i].key)));
        assert(slots[i] == hmset_slot(pairs[i].key, r));
    }
}

/// On a reliable store, deleting several keys never fails: none of them
/// is there afterwards, and the answer holds for each key, in order, the
/// integer 1 if it was there just before and no value if it was not.
pub proof fn law_hmdel_on_reliable(
    cmd: Hmdel,
    before: StoreView,
    res: ResponseView,
    after: StoreView,
)
    requires
        cmd.answers(before, true, res, after),
    ensures
        after == dels_applied(before, cmd.table@, keys_view(cmd.keys@)),
        res.status == if cmd.keys@.len() > 0 {
            200u32
        } else {
            500u32
        },
        res.message.len() == 0,
        res.pairs.len() == cmd.keys@.len(),
        forall|i: int|
            0 <= i < cmd.keys@.len() ==> #[trigger] res.pairs[i] == deleted_pair(
                cmd.keys@[i]@,
                lookup(
                    dels_applied(before, cmd.table@, keys_view(cmd.keys@).take(i)),
                    cmd.table@,
                    cmd.keys@[i]@,
                ),
            ),
{
    let keys = keys_view(cmd.keys@);
    let (states, outcomes) = choose|states: Seq<StoreView>, outcomes: Seq<Found>| #[trigger]
        dels_in_turn(true, cmd.table@, keys, states, outcomes) && states[0] == before
            && states.last() == after && res == batch_reply(
            Seq::new(keys.len(), |i: int| hmdel_slot(keys[i], outcomes[i])),
        );
    let slots = Seq::new(keys.len(), |i: int| hmdel_slot(keys[i], outcomes[i]));
    lemma_dels_prefix(cmd.table@, keys, states, outcomes, keys.len() as int);
    assert(keys.take(keys.len() as int) =~= keys);
    assert forall|i: int| 0 <= i < slots.len() implies (#[trigger] slots[i]) is Ok by {
        let r = outcomes[i];
        assert(r is Ok);
    }
    lemma_all_succeeded(slots);
    assert forall|i: int| 0 <= i < cmd.keys@.len() implies #[trigger] res.pairs[i]
        == deleted_pair(
        cmd.keys@[i]@,
        lookup(dels_applied(before, cmd.table@, keys.take(i)), cmd.table@, cmd.keys@[i]@),
    ) by {
        lemma_dels_prefix(cmd.table@, keys, states, outcomes, i);
        let r = outcomes[i];
        assert(r is Ok);
        assert(slots[i] == hmdel_slot(keys[i], r));
    }
}

/// Where every key succeeded, the pairs are the slots' pairs, one for one,
/// and there is no failure.
proof fn lemma_all_succeeded(slots: Seq<Slot>)
    requires
        forall|i: int| 0 <= i < slots.len() ==> (#[trigger] slots[i]) is Ok,
    ensures
        slot_failures(slots).len() == 0,
        error_lines(slot_failures(slots)).len() == 0,
        slot_pairs(slots).len() == slots.len(),
        forall|i: int| 0 <= i < slots.len() ==> Ok::<KvpairView, (Seq<char>, KvErrorView)>(
            #[trigger] slot_pairs(slots)[i],
        ) == slots[i],
        batch_reply(slots).status == batch_status_of(slots.len()),
    decreases slots.len(),
{
    if slots.len() > 0 {
        let rest = slots.drop_last();
        assert forall|i: int| 0 <= i < rest.len() implies (#[trigger] rest[i]) is Ok by {
            assert(rest[i] == slots[i]);
        }
        lemma_all_succeeded(rest);
        assert(slots.last() == slots[slots.len() - 1]);
        assert forall|i: int| 0 <= i < slots.len() implies Ok::<
            KvpairView,
            (Seq<char>, KvErrorView),
        >(#[trigger] slot_pairs(slots)[i]) == slots[i] by {
            if i < rest.len() {
                assert(slot_pairs(slots)[i] == slot_pairs(rest)[i]);
                assert(rest[i] == slots[i]);
            }
        }
    }
}

/// The status of a batch of this many keys that all succeeded.
pub open spec fn batch_status_of(keys: nat) -> u32 {
    if keys > 0 {
        Status::Success.number()
    } else {
        Status::InternalServerError.number()
    }
}

/// Whether a response has one of the shapes that a handler gives: a known
/// status, and values or pairs but never both.
pub open spec fn well_shaped(res: ResponseView) -> bool {
    &&& res.status == 200 || res.status == 400 || res.status == 404 || res.status == 500
    &&& res.values.len() == 0 || res.pairs.len() == 0
    &&& res.status == 400 || res.status == 404 ==> res.values.len() == 0 && res.pairs.len() == 0
}

/// Whatever the request and whatever the store does, the answer is a
/// response of a known shape: a failure is folded into the response, with
/// status 400, 404 or 500.
pub proof fn law_response_is_well_shaped(
    cmd: CommandRequest,
    before: StoreView,
    reliable: bool,
    res: ResponseView,
    after: StoreView,
)
    requires
        dispatched(cmd, before, reliable, res, after),
    ensures
        well_shaped(res),
{
}

/// Without hooks that change a response, a service hands back the
/// handler's answer as it is.
pub proof fn law_no_hook_no_change(made: CommandResponse, res: CommandResponse)
    requires
        turned_by(Seq::<Box<dyn NotifyMut<CommandResponse>>>::empty(), made, res),
    ensures
        res == made,
{
    let steps = choose|steps: Seq<CommandResponse>| #[trigger]
        turned_in_turn(Seq::<Box<dyn NotifyMut<CommandResponse>>>::empty(), steps) && steps[0]
            == made && steps.last() == res;
    assert(steps.len() == 1);
}

} // verus!
