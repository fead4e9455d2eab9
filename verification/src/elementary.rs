//! What each operation does, in terms of sequences, maps and numbers alone.

use crate::contents::{Contents, is_first_match, swap_out};
use crate::epochs::{EAGER_RETRIES, Wait, WaitAction, finished};
use crate::inner::Snapshot;
use crate::operation::Operation;
use crate::read::{gives, lookup};
use crate::state::{State, additions};
use crate::write::teardown::{Stage, TeardownAction, TeardownState};
use vstd::prelude::*;
use vstd::std_specs::cmp::PartialEqSpec;

verus! {

/// Nothing is in empty contents.
pub proof fn law_empty_contents<K, V>()
    ensures
        Contents::<K, V>::empty().order.len() == 0,
        Contents::<K, V>::empty().sets == Map::<K, Seq<V>>::empty(),
        Contents::<K, V>::empty().wf(),
{
}

/// In sound contents each key of the map stands once in the order, which holds no
/// other key: an index counts the keys of the map.
pub proof fn law_order_counts_the_keys<K, V>(contents: Contents<K, V>)
    requires
        contents.wf(),
    ensures
        contents.order.no_duplicates(),
        contents.order.to_set() == contents.sets.dom(),
        contents.order.len() == contents.sets.len(),
{
    contents.order.unique_seq_to_set();
    assert forall|k: K| contents.order.to_set().contains(k) <==> contents.sets.contains_key(k) by {
        assert(contents.order.contains(k) <==> contents.sets.contains_key(k));
    }
    assert(contents.order.to_set() =~= contents.sets.dom());
}

/// The value-set of a key is what the map holds under it, all of it, and has no
/// value where the map lacks the key.
pub proof fn law_value_set_is_whole<K, V>(contents: Contents<K, V>, key: K)
    ensures
        contents.sets.contains_key(key) ==> contents.values(key) == contents.sets[key],
        !contents.sets.contains_key(key) ==> contents.values(key).len() == 0,
{
}

/// Putting a value-set under a key changes that key alone. A new key comes last,
/// and the others stay where they are.
pub proof fn law_put<K, V>(contents: Contents<K, V>, key: K, values: Seq<V>)
    ensures
        contents.put(key, values).sets == contents.sets.insert(key, values),
        contents.sets.contains_key(key) ==> contents.put(key, values).order == contents.order,
        !contents.sets.contains_key(key) ==> contents.put(key, values).order
            == contents.order.push(key),
{
}

/// Adding appends the value to those of its key, however many these are, and gives
/// a new key the value alone. No other key changes.
pub proof fn law_add_appends<K, V: PartialEq>(contents: Contents<K, V>, key: K, value: V)
    ensures
        contents.sets.contains_key(key) ==> contents.apply(Operation::Add(key, value)).sets
            == contents.sets.insert(key, contents.sets[key].push(value)),
        !contents.sets.contains_key(key) ==> contents.apply(Operation::Add(key, value)).sets
            == contents.sets.insert(key, seq![value]),
        contents.apply(Operation::Add(key, value)).order == if contents.sets.contains_key(key) {
            contents.order
        } else {
            contents.order.push(key)
        },
{
    assert(Seq::empty().push(value) =~= seq![value]);
}

/// Replacing leaves the value alone under its key. No other key changes.
pub proof fn law_replace_leaves_one_value<K, V: PartialEq>(
    contents: Contents<K, V>,
    key: K,
    value: V,
)
    ensures
        contents.apply(Operation::Replace(key, value)).sets == contents.sets.insert(
            key,
            seq![value],
        ),
        contents.apply(Operation::Replace(key, value)).order == if contents.sets.contains_key(
            key,
        ) {
            contents.order
        } else {
            contents.order.push(key)
        },
{
}

/// Clearing leaves the key with no value, and makes it a key of the map if it was
/// none. No other key changes.
pub proof fn law_clear_keeps_the_key<K, V: PartialEq>(contents: Contents<K, V>, key: K)
    ensures
        contents.apply(Operation::Clear(key)).sets == contents.sets.insert(key, Seq::empty()),
        contents.apply(Operation::Clear(key)).order == if contents.sets.contains_key(key) {
            contents.order
        } else {
            contents.order.push(key)
        },
{
}

/// Emptying takes the key out of the map, and no other. The last key takes its
/// place in the order.
pub proof fn law_empty_takes_the_key<K, V: PartialEq>(contents: Contents<K, V>, key: K)
    requires
        contents.wf(),
    ensures
        contents.apply(Operation::Empty(key)).sets == contents.sets.remove(key),
        !contents.sets.contains_key(key) ==> contents.apply(Operation::Empty(key)).order
            == contents.order,
        contents.sets.contains_key(key) ==> {
            let after = contents.apply(Operation::Empty(key)).order;
            &&& after.len() == contents.order.len() - 1
            &&& forall|i: int| #![trigger after[i]]
                0 <= i < after.len() ==> after[i] == if contents.order[i] == key {
                    contents.order.last()
                } else {
                    contents.order[i]
                }
        },
{
    if contents.sets.contains_key(key) {
        assert(contents.order.contains(key));
        let at = contents.order.index_of(key);
        assert(0 <= at < contents.order.len() && contents.order[at] == key);
        assert(contents.apply(Operation::Empty(key)).order == swap_out(contents.order, at));
    } else {
        assert(contents.sets.remove(key) =~= contents.sets);
    }
}

/// Emptying an index takes the key at that index out of the map, and no other. The
/// last key takes its place in the order. Beyond the last key nothing happens.
pub proof fn law_empty_random_takes_the_key_at_its_index<K, V: PartialEq>(
    contents: Contents<K, V>,
    index: usize,
)
    ensures
        index >= contents.order.len() ==> contents.apply(Operation::EmptyRandom(index))
            == contents,
        index < contents.order.len() ==> {
            let after = contents.apply(Operation::EmptyRandom(index));
            &&& after.sets == contents.sets.remove(contents.order[index as int])
            &&& after.order.len() == contents.order.len() - 1
            &&& forall|i: int| #![trigger after.order[i]]
                0 <= i < after.order.len() ==> after.order[i] == if i == index {
                    contents.order.last()
                } else {
                    contents.order[i]
                }
        },
{
}

/// Removing takes out one value that equals the given one, the first there is, and
/// nothing else: the last value takes its place, the others stay where they are,
/// and a value that does not equal the given one is there as often as before. Where
/// none is equal, or the key is not there, nothing happens. The key stays, and no
/// other key changes.
pub proof fn law_remove_takes_the_first_equal_value<K, V: PartialEq>(
    contents: Contents<K, V>,
    key: K,
    value: V,
)
    ensures
        !contents.sets.contains_key(key) ==> contents.apply(Operation::Remove(key, value))
            == contents,
        contents.sets.contains_key(key) ==> {
            let before = contents.sets[key];
            let removed = contents.apply(Operation::Remove(key, value));
            let after = removed.sets[key];
            &&& removed.order == contents.order
            &&& removed.sets == contents.sets.insert(key, after)
            &&& (forall|j: int|
                0 <= j < before.len() ==> !(#[trigger] before[j]).eq_spec(&value)) ==> after
                == before
            &&& (exists|j: int| 0 <= j < before.len() && (#[trigger] before[j]).eq_spec(&value))
                ==> exists|i: int|
                {
                    &&& 0 <= i < before.len()
                    &&& (#[trigger] before[i]).eq_spec(&value)
                    &&& forall|j: int| 0 <= j < i ==> !(#[trigger] before[j]).eq_spec(&value)
                    &&& after.len() == before.len() - 1
                    &&& forall|j: int| #![trigger after[j]]
                        0 <= j < after.len() ==> after[j] == if j == i {
                            before.last()
                        } else {
                            before[j]
                        }
                }
            &&& forall|x: V|
                !x.eq_spec(&value) ==> #[trigger] after.to_multiset().count(x)
                    == before.to_multiset().count(x)
        },
{
    if contents.sets.contains_key(key) {
        let before = contents.sets[key];
        let removed = contents.apply(Operation::Remove(key, value));
        let after = removed.sets[key];
        if exists|j: int| 0 <= j < before.len() && (#[trigger] before[j]).eq_spec(&value) {
            let j = choose|j: int| 0 <= j < before.len() && (#[trigger] before[j]).eq_spec(&value);
            crate::laws::lemma_match_exists(before, value, j);
            let i = choose|i: int| is_first_match(before, value, i);
            assert(before[i].eq_spec(&value));
            assert(after == swap_out(before, i));
            crate::laws::lemma_swap_out_multiset(before, i);
            assert forall|x: V| !x.eq_spec(&value) implies #[trigger] after.to_multiset().count(x)
                == before.to_multiset().count(x) by {
                assert(after.to_multiset().insert(before[i]).count(x)
                    == before.to_multiset().count(x));
            }
        } else {
            assert(after =~= before) by {
                if exists|i: int| is_first_match(before, value, i) {
                    let i = choose|i: int| is_first_match(before, value, i);
                    assert(before[i].eq_spec(&value));
                }
            }
        }
    }
}

/// An empty log changes nothing, and a log with one operation more does what the
/// log did and then the operation.
pub proof fn law_replay_goes_op_by_op<K, V: PartialEq>(
    contents: Contents<K, V>,
    ops: Seq<Operation<K, V>>,
    op: Operation<K, V>,
)
    ensures
        contents.replay(Seq::empty()) == contents,
        contents.replay(ops.push(op)) == contents.replay(ops).apply(op),
{
    assert(ops.push(op).drop_last() =~= ops);
}

/// Extending writes one addition for each pair, of its value to its key, in the
/// order of the pairs.
pub proof fn law_additions_are_one_for_one<K, V>(items: Seq<(K, V)>)
    ensures
        additions(items).len() == items.len(),
        forall|i: int|
            0 <= i < items.len() ==> #[trigger] additions(items)[i] == Operation::Add(
                items[i].0,
                items[i].1,
            ),
{
}

/// Extending by one pair more is extending and then inserting that pair.
pub proof fn law_extend_is_repeated_insert<K, V: PartialEq, M>(
    state: State<K, V, M>,
    items: Seq<(K, V)>,
    key: K,
    value: V,
)
    requires
        state.inv(),
    ensures
        state.with_ops(additions(Seq::empty())) == state,
        state.with_ops(additions(items.push((key, value)))) == state.with_ops(
            additions(items),
        ).with_op(Operation::Add(key, value)),
{
    let op = Operation::Add(key, value);
    crate::laws::law_writes_add_up(state, additions(items), op);
    assert(additions(items.push((key, value))) =~= additions(items).push(op));
    assert(additions(Seq::<(K, V)>::empty()) =~= Seq::empty());
}

/// The latest contents are the writer's copy until there has been a refresh. After
/// that they are what readers see, with the operations that they do not see yet
/// applied in order; those are the log from the swap index on.
pub proof fn law_latest_contents<K, V: PartialEq, M>(state: State<K, V, M>)
    requires
        state.inv(),
    ensures
        state.first ==> state.latest() == state.writer,
        !state.first ==> state.latest() == state.visible.contents.replay(state.pending()),
        state.pending().len() == state.oplog.len() - state.swap_index,
        forall|i: int|
            0 <= i < state.pending().len() ==> #[trigger] state.pending()[i]
                == state.oplog[state.swap_index + i],
        state.latest().wf(),
{
    if !state.first {
        crate::laws::law_replay_keeps_order(state.visible.contents, state.pending());
    }
}

/// A write goes to the end of the log, or to the writer's copy while there has been
/// no refresh, and changes nothing else.
pub proof fn law_write_is_logged<K, V: PartialEq, M>(state: State<K, V, M>, op: Operation<K, V>)
    ensures
        state.with_op(op).writer == if state.first {
            state.writer.apply(op)
        } else {
            state.writer
        },
        state.with_op(op).oplog == if state.first {
            state.oplog
        } else {
            state.oplog.push(op)
        },
        state.with_op(op).visible == state.visible,
        state.with_op(op).swap_index == state.swap_index,
        state.with_op(op).meta == state.meta,
        state.with_op(op).first == state.first,
        state.with_op(op).second == state.second,
        state.with_op(op).wait == state.wait,
{
}

/// There is something that readers may not see exactly if an operation is pending,
/// or there has been no refresh and the latest contents have a key.
pub proof fn law_unseen<K, V: PartialEq, M>(state: State<K, V, M>)
    requires
        state.inv(),
    ensures
        state.unseen() <==> state.pending().len() > 0 || state.first && exists|k: K|
            state.latest().sets.contains_key(k),
        !state.unseen() ==> state.visible.contents == state.latest(),
{
    if state.first {
        if state.writer.order.len() > 0 {
            assert(state.writer.order.contains(state.writer.order[0]));
            assert(state.latest().sets.contains_key(state.writer.order[0]));
        } else {
            crate::contents::lemma_no_keys(state.writer);
        }
    }
}

/// Settled copies hold the same keys, with the same values, in the same order, and
/// no operation is in the log.
pub proof fn law_settled<K, V: PartialEq, M>(state: State<K, V, M>)
    requires
        state.settled(),
    ensures
        state.writer.order == state.visible.contents.order,
        state.writer.sets == state.visible.contents.sets,
        state.oplog.len() == 0,
        !state.first,
        !state.second,
{
}

/// A reader of a copy that is ready finds exactly the keys that the map has, each
/// with its whole value-set. A copy that is not ready shows no key, nor does a map
/// that is destroyed.
pub proof fn law_lookup_finds_what_the_map_has<K, V, M>(
    shown: Option<Snapshot<K, V, M>>,
    key: K,
)
    ensures
        shown is None ==> lookup(shown, key) is None,
        shown matches Some(snapshot) ==> {
            &&& lookup(shown, key) == snapshot.lookup(key)
            &&& snapshot.lookup(key) is Some <==> snapshot.ready
                && snapshot.contents.sets.contains_key(key)
            &&& snapshot.ready && snapshot.contents.sets.contains_key(key) ==> snapshot.lookup(key)
                == Some(snapshot.contents.sets[key])
        },
{
}

/// Whatever was written, after a refresh a reader finds exactly the keys of the
/// latest contents, each with its whole value-set.
pub proof fn law_refresh_makes_every_key_found<K, V: PartialEq, M>(
    state: State<K, V, M>,
    meta: M,
    key: K,
)
    requires
        state.inv(),
    ensures
        lookup(Some(state.refreshed(meta).visible), key) is Some
            <==> state.latest().sets.contains_key(key),
        state.latest().sets.contains_key(key) ==> lookup(
            Some(state.refreshed(meta).visible),
            key,
        ) == Some(state.latest().sets[key]),
{
}

/// What a lookup gives is what the function returns on a slice that holds the
/// value-set, element by element.
pub proof fn law_gives_is_a_call<V, U, F: FnOnce(&[V]) -> U>(f: F, values: Seq<V>, result: U)
    requires
        gives(f, values, result),
    ensures
        exists|slice: &[V]|
            {
                &&& slice@.len() == values.len()
                &&& forall|i: int| 0 <= i < values.len() ==> slice@[i] == values[i]
                &&& #[trigger] call_ensures(f, (slice,), result)
            },
{
    let slice = choose|slice: &[V]| slice@ == values && #[trigger] call_ensures(f, (slice,), result);
    assert(call_ensures(f, (slice,), result));
}

/// A refresh shows the latest contents, ready to be read, with the meta information
/// that it is given. The writer gets what readers saw before, and the log keeps what
/// they did not see.
pub proof fn law_refresh_swaps_the_copies<K, V: PartialEq, M>(state: State<K, V, M>, meta: M)
    requires
        state.inv(),
    ensures
        state.refreshed(meta).visible.contents.sets == state.latest().sets,
        state.refreshed(meta).visible.contents.order == state.latest().order,
        state.refreshed(meta).visible.meta == meta,
        state.refreshed(meta).visible.ready,
        state.refreshed(meta).writer == state.visible.contents,
        state.refreshed(meta).oplog == state.oplog.subrange(
            state.swap_index,
            state.oplog.len() as int,
        ),
        state.refreshed(meta).swap_index == state.oplog.len() - state.swap_index,
        state.refreshed(meta).meta == state.meta,
        !state.refreshed(meta).first,
        state.refreshed(meta).second == state.first,
        state.refreshed(meta).wait.due,
        state.refreshed(meta).wait.last == state.wait.last,
{
}

/// An epoch is finished exactly if its highest bit is set.
pub proof fn law_finished_is_the_highest_bit(epoch: usize)
    ensures
        finished(epoch) <==> epoch & (1usize << ((usize::BITS - 1) as u32)) != 0,
{
    let max: usize = usize::MAX;
    assert(max <= !0usize) by (bit_vector);
    assert(epoch & (1usize << ((usize::BITS - 1) as u32)) != 0 <==> epoch > !0usize / 2)
        by (bit_vector);
}

/// A handle that knows of no reader waits for none.
pub proof fn law_no_reader_no_wait()
    ensures
        Wait::none().last.len() == 0,
        Wait::none().next == 0,
        Wait::none().iter == 0,
        !Wait::none().due,
        Wait::none().all_departed(),
        EAGER_RETRIES == 20,
{
}

/// A wait begins with the readers there are: each keeps the epoch that was noted of
/// it, or has the epoch zero if it is new. The first to be looked at is the first
/// whose highest bit was clear.
pub proof fn law_wait_begins_with_the_first_active_reader(wait: Wait, readers: usize)
    ensures
        ({
            let started = wait.started(readers as nat);
            &&& started.last.len() == readers
            &&& forall|i: int|
                0 <= i < readers ==> #[trigger] started.last[i] == if i < wait.last.len() {
                    wait.last[i]
                } else {
                    0
                }
            &&& started.iter == 0
            &&& !started.due
            &&& started.seen == Map::<int, usize>::empty()
            &&& 0 <= started.next <= readers
            &&& forall|i: int|
                0 <= i < started.next ==> #[trigger] started.last[i] > usize::MAX / 2
            &&& started.next < readers ==> started.last[started.next] <= usize::MAX / 2
                && started.waiting() && (started.action() matches WaitAction::Load(i) && i
                == started.next)
            &&& started.next == readers ==> started.action() == WaitAction::Departed
                && started.all_departed()
        }),
{
    crate::epochs::lemma_next_active(wait.started(readers as nat).last, 0);
}

/// A reader whose epoch is loaded as it was noted after the swap, and is neither
/// zero nor has its highest bit set, holds the writer up: it is looked at again, at
/// once for the first 20 times in a wait, and after a yield from then on.
pub proof fn law_unchanged_epoch_holds_the_writer_up(wait: Wait, now: usize)
    requires
        wait.inv(),
        wait.waiting(),
        wait.last.len() <= usize::MAX,
        now == wait.last[wait.next],
        now != 0,
        now <= usize::MAX / 2,
    ensures
        wait.observed(now).next == wait.next,
        wait.observed(now).last == wait.last,
        wait.observed(now).due == wait.due,
        wait.observed(now).seen == wait.seen,
        wait.observed(now).waiting(),
        !wait.observed(now).all_departed(),
        wait.iter < 20 ==> wait.observed(now).iter == wait.iter + 1 && (wait.action_after(
            now,
        ) matches WaitAction::Load(i) && i == wait.next),
        wait.iter >= 20 ==> wait.observed(now).iter == wait.iter && (wait.action_after(
            now,
        ) matches WaitAction::YieldAndLoad(i) && i == wait.next),
{
}

/// A reader whose epoch is loaded as another than was noted after the swap, or as
/// zero, or with its highest bit set, is passed. The next to be looked at is the
/// next whose highest bit was clear, and when there is none the wait is over.
pub proof fn law_changed_epoch_lets_the_writer_pass(wait: Wait, now: usize)
    requires
        wait.inv(),
        wait.waiting(),
        wait.last.len() <= usize::MAX,
        now != wait.last[wait.next] || now == 0 || now > usize::MAX / 2,
    ensures
        ({
            let after = wait.observed(now);
            let action = wait.action_after(now);
            &&& wait.next < after.next <= wait.last.len()
            &&& after.last == wait.last
            &&& after.due == wait.due
            &&& after.iter == wait.iter
            &&& after.seen == wait.seen.insert(wait.next, now)
            &&& forall|i: int|
                wait.next < i < after.next ==> #[trigger] wait.last[i] > usize::MAX / 2
            &&& after.next < wait.last.len() ==> wait.last[after.next] <= usize::MAX / 2 && (
            action matches WaitAction::Load(i) && i == after.next)
            &&& after.next == wait.last.len() ==> action == WaitAction::Departed
                && after.all_departed()
        }),
{
    crate::epochs::lemma_next_active(wait.last, wait.next + 1);
}

/// No reader holds the writer up only if the epochs have been noted since the last
/// swap, and each reader had its highest bit set then, or has been seen since with
/// another epoch, with its highest bit set, or with the epoch zero.
pub proof fn law_departed_means_nobody_is_left(wait: Wait)
    requires
        wait.inv(),
        wait.all_departed(),
    ensures
        !wait.due,
        forall|i: int|
            0 <= i < wait.last.len() && #[trigger] wait.last[i] <= usize::MAX / 2
                ==> wait.seen.contains_key(i) && (wait.seen[i] != wait.last[i] || wait.seen[i]
                > usize::MAX / 2 || wait.seen[i] == 0),
{
}

/// A swap makes what is known of the readers out of date, and noting their epochs
/// begins anew with exactly these.
pub proof fn law_swap_and_record(wait: Wait, epochs: Seq<usize>)
    ensures
        wait.swapped().due,
        wait.swapped().next == 0,
        wait.swapped().iter == 0,
        wait.swapped().last == wait.last,
        wait.swapped().seen == Map::<int, usize>::empty(),
        !wait.swapped().all_departed(),
        !wait.swapped().waiting(),
        !wait.recorded(epochs).due,
        wait.recorded(epochs).next == 0,
        wait.recorded(epochs).iter == 0,
        wait.recorded(epochs).last == epochs,
        wait.recorded(epochs).seen == Map::<int, usize>::empty(),
        wait.recorded(epochs).all_departed() <==> epochs.len() == 0,
{
}

/// What a step of a teardown asks for, and when. A closing map is refreshed while
/// the log holds an operation, and a map that is destroyed as often as its stage
/// says; then the one is done, and the other is withdrawn and then done.
pub proof fn law_teardown_action<K, V: PartialEq, M: Clone>(
    before: TeardownState<K, V, M>,
    after: TeardownState<K, V, M>,
    action: TeardownAction,
)
    requires
        before.inv(),
        before.steps_to(after, action),
    ensures
        before.stage != Stage::Finished,
        before.stage == Stage::Close && before.handle.oplog.len() > 0 ==> action
            == TeardownAction::Publish && after.stage == Stage::Close,
        before.stage == Stage::Close && before.handle.oplog.len() == 0 ==> action
            == TeardownAction::Finished && after.stage == Stage::Finished,
        before.stage == Stage::Destroy(0) ==> action == TeardownAction::Withdraw && after.stage
            == Stage::Withdrawn,
        before.stage == Stage::Destroy(1) ==> action == TeardownAction::Publish && after.stage
            == Stage::Destroy(0),
        before.stage == Stage::Destroy(2) ==> action == TeardownAction::Publish && after.stage
            == Stage::Destroy(1),
        before.stage == Stage::Withdrawn ==> action == TeardownAction::Finished && after.stage
            == Stage::Finished,
{
}

/// What a step of a teardown does to what readers see. Publishing shows the latest
/// contents, ready to be read, with a clone of the meta information. Withdrawing
/// shows nothing, and keeps the copy until readers have left it. The last step
/// leaves what is shown as it is, and lets go of everything else.
pub proof fn law_teardown_step<K, V: PartialEq, M: Clone>(
    before: TeardownState<K, V, M>,
    after: TeardownState<K, V, M>,
    action: TeardownAction,
)
    requires
        before.inv(),
        before.steps_to(after, action),
    ensures
        action == TeardownAction::Publish ==> {
            &&& after.shown matches Some(snapshot) && {
                &&& snapshot.contents.sets == before.handle.latest().sets
                &&& snapshot.contents.order == before.handle.latest().order
                &&& snapshot.ready
                &&& cloned(before.handle.meta, snapshot.meta)
                &&& after.handle.visible == snapshot
            }
            &&& after.handle.latest() == before.handle.latest()
            &&& after.handle.oplog == before.handle.pending()
            &&& after.handle.pending().len() == 0
            &&& after.handle.meta == before.handle.meta
            &&& after.handle.wait.due
            &&& !after.handle.first
            &&& after.retired is None
        },
        action == TeardownAction::Withdraw ==> {
            &&& after.shown is None
            &&& after.retired == before.shown
            &&& after.handle.writer == before.handle.writer
            &&& after.handle.wait.due
        },
        action == TeardownAction::Finished ==> {
            &&& after.shown == before.shown
            &&& after.retired is None
            &&& after.handle.writer.sets == Map::<K, Seq<V>>::empty()
            &&& after.handle.writer.order.len() == 0
            &&& after.handle.oplog.len() == 0
            &&& after.handle.meta == before.handle.meta
        },
{
    if action == TeardownAction::Publish {
        crate::laws::law_refresh_shows_every_write(before.handle, after.handle.visible.meta);
    }
}

/// While a map comes to its end, and until it is withdrawn, readers see what the
/// handle shows. Waiting for them changes nothing of that.
pub proof fn law_teardown_shows_the_map<K, V: PartialEq, M>(
    state: TeardownState<K, V, M>,
    waited: TeardownState<K, V, M>,
)
    requires
        state.inv(),
        state.stage is Close || state.stage is Destroy,
        waited.same_but_wait(state),
    ensures
        state.shown == Some(state.handle.visible),
        waited.shown == state.shown,
        waited.retired == state.retired,
        waited.stage == state.stage,
        waited.handle.visible == state.handle.visible,
        waited.handle.writer == state.handle.writer,
        waited.handle.oplog == state.handle.oplog,
        waited.handle.swap_index == state.handle.swap_index,
        waited.handle.meta == state.handle.meta,
        waited.handle.latest() == state.handle.latest(),
        waited.inv(),
{
}

} // verus!
