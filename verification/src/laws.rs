//! What holds of the map as a whole.

use crate::contents::{Contents, is_first_match, swap_out, without_first};
use crate::epochs::Wait;
use crate::inner::Snapshot;
use crate::operation::Operation;
use crate::state::State;
use crate::write::teardown::{Stage, TeardownAction, TeardownState};
use vstd::prelude::*;
use vstd::std_specs::cmp::PartialEqSpec;

verus! {

/// A key that is swapped out of an order without duplicates is no longer in it,
/// and every other key still is, once.
proof fn lemma_swap_out<K>(order: Seq<K>, i: int)
    requires
        order.no_duplicates(),
        0 <= i < order.len(),
    ensures
        swap_out(order, i).no_duplicates(),
        forall|k: K| #[trigger]
            swap_out(order, i).contains(k) <==> order.contains(k) && k != order[i],
{
    let rest = swap_out(order, i);
    assert forall|k: K| #[trigger] rest.contains(k) <==> order.contains(k) && k != order[i] by {
        if rest.contains(k) {
            let j = choose|j: int| 0 <= j < rest.len() && rest[j] == k;
            assert(order[if j == i { order.len() - 1 } else { j }] == k);
        }
        if order.contains(k) && k != order[i] {
            let j = choose|j: int| 0 <= j < order.len() && order[j] == k;
            assert(rest[if j == order.len() - 1 { i } else { j }] == k);
        }
    }
}

/// Every operation keeps the order in step with the keys.
pub proof fn law_operation_keeps_order<K, V: PartialEq>(
    contents: Contents<K, V>,
    op: Operation<K, V>,
)
    requires
        contents.wf(),
    ensures
        contents.apply(op).wf(),
{
    let after = contents.apply(op);
    match op {
        Operation::Empty(key) => {
            if contents.sets.contains_key(key) {
                assert(contents.order.contains(key));
                let i = contents.order.index_of(key);
                assert(0 <= i < contents.order.len() && contents.order[i] == key);
                lemma_swap_out(contents.order, i);
            }
        },
        Operation::EmptyRandom(index) => {
            if index < contents.order.len() {
                lemma_swap_out(contents.order, index as int);
            }
        },
        Operation::Replace(key, _) | Operation::Add(key, _) | Operation::Clear(key)
        | Operation::Remove(key, _) => {
            let pushed = contents.order.push(key);
            assert forall|k: K| #[trigger] pushed.contains(k) <==> contents.order.contains(k) || k
                == key by {
                if contents.order.contains(k) {
                    let j = choose|j: int|
                        0 <= j < contents.order.len() && contents.order[j] == k;
                    assert(pushed[j] == k);
                }
                assert(pushed[contents.order.len() as int] == key);
            }
            if !contents.sets.contains_key(key) {
                assert(!contents.order.contains(key));
            }
        },
    }
}

/// The key that an operation changes, if there is one.
pub open spec fn key_of<K, V>(contents: Contents<K, V>, op: Operation<K, V>) -> Option<K> {
    match op {
        Operation::Replace(key, _) => Some(key),
        Operation::Add(key, _) => Some(key),
        Operation::Remove(key, _) => Some(key),
        Operation::Empty(key) => Some(key),
        Operation::Clear(key) => Some(key),
        Operation::EmptyRandom(index) => if index < contents.order.len() {
            Some(contents.order[index as int])
        } else {
            None
        },
    }
}

/// An operation leaves every key but its own as it was.
pub proof fn law_operation_changes_one_key<K, V: PartialEq>(
    contents: Contents<K, V>,
    op: Operation<K, V>,
    key: K,
)
    requires
        contents.wf(),
        key_of(contents, op) != Some(key),
    ensures
        contents.apply(op).sets.contains_key(key) == contents.sets.contains_key(key),
        contents.apply(op).values(key) == contents.values(key),
{
    if let Operation::Empty(gone) = op {
        if contents.sets.contains_key(gone) {
            assert(contents.order.contains(gone));
        }
    }
}

/// What each operation leaves under its key: adding appends the value, replacing
/// leaves the value alone, clearing leaves the key with no value, emptying leaves
/// no key, and removing takes out the first equal value of a key that is there.
pub proof fn law_operation_on_its_key<K, V: PartialEq>(contents: Contents<K, V>, key: K, value: V)
    requires
        contents.wf(),
    ensures
        contents.apply(Operation::Add(key, value)).sets == contents.sets.insert(
            key,
            contents.values(key).push(value),
        ),
        contents.apply(Operation::Replace(key, value)).sets == contents.sets.insert(
            key,
            seq![value],
        ),
        contents.apply(Operation::<K, V>::Clear(key)).sets == contents.sets.insert(
            key,
            Seq::empty(),
        ),
        contents.apply(Operation::<K, V>::Empty(key)).sets == contents.sets.remove(key),
        contents.sets.contains_key(key) ==> contents.apply(Operation::Remove(key, value)).sets
            == contents.sets.insert(key, without_first(contents.sets[key], value)),
        !contents.sets.contains_key(key) ==> contents.apply(Operation::Remove(key, value))
            == contents,
{
    if contents.sets.contains_key(key) {
        assert(contents.order.contains(key));
    } else {
        assert(contents.sets.remove(key) =~= contents.sets);
    }
}

/// The values that an operation takes out of the map.
pub open spec fn taken<K, V: PartialEq>(contents: Contents<K, V>, op: Operation<K, V>) -> Seq<V> {
    match op {
        Operation::Replace(key, _) => contents.values(key),
        Operation::Add(_, _) => Seq::empty(),
        Operation::Remove(key, value) => {
            let values = contents.values(key);
            if exists|i: int| is_first_match(values, value, i) {
                seq![values[choose|i: int| is_first_match(values, value, i)]]
            } else {
                Seq::empty()
            }
        },
        Operation::Empty(key) => contents.values(key),
        Operation::Clear(key) => contents.values(key),
        Operation::EmptyRandom(index) => if index < contents.order.len() {
            contents.sets[contents.order[index as int]]
        } else {
            Seq::empty()
        },
    }
}

/// The values that an operation puts into the map.
pub open spec fn given<K, V>(op: Operation<K, V>) -> Seq<V> {
    match op {
        Operation::Replace(_, value) => seq![value],
        Operation::Add(_, value) => seq![value],
        _ => Seq::empty(),
    }
}

/// Swapping an element out takes one occurrence of it away.
pub proof fn lemma_swap_out_multiset<T>(s: Seq<T>, i: int)
    requires
        0 <= i < s.len(),
    ensures
        swap_out(s, i).to_multiset().insert(s[i]) == s.to_multiset(),
{
    let updated = s.update(i, s.last());
    vstd::seq_lib::to_multiset_update(s, i, s.last());
    vstd::seq_lib::to_multiset_build(updated.drop_last(), s.last());
    vstd::seq_lib::to_multiset_contains(s, s[i]);
    assert(updated =~= updated.drop_last().push(s.last()));
    let rest = swap_out(s, i).to_multiset();
    assert(rest.insert(s.last()) == s.to_multiset().insert(s.last()).remove(s[i]));
    assert forall|x: T| #[trigger] rest.insert(s[i]).count(x) == s.to_multiset().count(x) by {
        assert(rest.insert(s.last()).count(x) == s.to_multiset().insert(s.last()).remove(
            s[i],
        ).count(x));
    }
    assert(rest.insert(s[i]) =~= s.to_multiset());
}

/// No value is lost and none appears: what an operation puts in and what was
/// under its key before is what is under the key after and what it takes out.
pub proof fn law_values_are_conserved<K, V: PartialEq>(
    contents: Contents<K, V>,
    op: Operation<K, V>,
    key: K,
)
    requires
        contents.wf(),
        key_of(contents, op) == Some(key),
    ensures
        contents.values(key).to_multiset().add(given(op).to_multiset()) == contents.apply(
            op,
        ).values(key).to_multiset().add(taken(contents, op).to_multiset()),
{
    broadcast use vstd::seq_lib::group_to_multiset_ensures;

    let before = contents.values(key);
    let after = contents.apply(op).values(key);
    match op {
        Operation::Add(_, value) => {
            assert(given(op) =~= Seq::<V>::empty().push(value));
            assert(before.to_multiset().add(given(op).to_multiset()) =~= after.to_multiset().add(
                taken(contents, op).to_multiset(),
            ));
        },
        Operation::Replace(_, value) => {
            assert(after.to_multiset().add(taken(contents, op).to_multiset())
                =~= before.to_multiset().add(given(op).to_multiset()));
        },
        Operation::Remove(_, value) => {
            if exists|i: int| is_first_match(before, value, i) {
                let i = choose|i: int| is_first_match(before, value, i);
                lemma_swap_out_multiset(before, i);
                assert(taken(contents, op) =~= Seq::<V>::empty().push(before[i]));
                assert(after.to_multiset().add(taken(contents, op).to_multiset())
                    =~= before.to_multiset().add(given(op).to_multiset()));
            }
        },
        Operation::Empty(_) => {
            if contents.sets.contains_key(key) {
                assert(contents.order.contains(key));
            }
            assert(after.to_multiset().add(taken(contents, op).to_multiset())
                =~= before.to_multiset().add(given(op).to_multiset()));
        },
        Operation::Clear(_) | Operation::EmptyRandom(_) => {
            assert(after =~= Seq::<V>::empty());
            assert(contents.order.contains(key) || op is Clear);
            assert(after.to_multiset().add(taken(contents, op).to_multiset())
                =~= before.to_multiset().add(given(op).to_multiset()));
        },
    }
}

/// `after` is `before`, in the same order, up to elements that equal `value` and
/// are now `value` itself.
pub open spec fn same_up_to<V: PartialEq>(before: Seq<V>, after: Seq<V>, value: V) -> bool {
    &&& after.len() == before.len()
    &&& forall|i: int| #![trigger after[i]]
        0 <= i < before.len() ==> after[i] == before[i] || after[i] == value && before[i].eq_spec(
            &value,
        )
}

/// Removing the value that was just added leaves the map as it was, in the same
/// order and up to equality, but for a new key, which stays with no value. It asks
/// only that the value equals itself. Where nothing else equals the value, the map
/// is the same.
pub proof fn law_remove_undoes_add<K, V: PartialEq>(contents: Contents<K, V>, key: K, value: V)
    requires
        contents.wf(),
        value.eq_spec(&value),
    ensures
        ({
            let after = contents.apply(Operation::Add(key, value)).apply(
                Operation::Remove(key, value),
            );
            &&& after.order == contents.put(key, contents.values(key)).order
            &&& after.sets == contents.sets.insert(key, after.values(key))
            &&& same_up_to(contents.values(key), after.values(key), value)
            &&& !contents.sets.contains_key(key) ==> after == contents.put(key, Seq::empty())
            &&& (forall|x: V| #[trigger] x.eq_spec(&value) ==> x == value) ==> after
                == contents.put(key, contents.values(key))
        }),
{
    let before = contents.values(key);
    let added = before.push(value);
    lemma_match_exists(added, value, before.len() as int);
    let i = choose|i: int| is_first_match(added, value, i);
    let values = swap_out(added, i);
    if i == before.len() {
        assert(values =~= before);
    } else {
        assert(values =~= before.update(i, value));
        if forall|x: V| #[trigger] x.eq_spec(&value) ==> x == value {
            assert(values =~= before);
        }
    }
    let after = contents.apply(Operation::Add(key, value)).apply(Operation::Remove(key, value));
    assert(after.values(key) == values);
    assert(after.sets =~= contents.sets.insert(key, values));
}

/// Whatever is written before, inserting a value and removing it again has the
/// next refresh show the map that it would have shown without, in the same order
/// and up to equality, but for a new key, which is shown with no value.
pub proof fn law_remove_undoes_insert<K, V: PartialEq, M>(
    state: State<K, V, M>,
    key: K,
    value: V,
    meta: M,
)
    requires
        state.inv(),
        value.eq_spec(&value),
    ensures
        ({
            let without = state.refreshed(meta).visible.contents;
            let with = state.with_op(Operation::Add(key, value)).with_op(
                Operation::Remove(key, value),
            ).refreshed(meta).visible.contents;
            &&& with.sets == without.sets.insert(key, with.values(key))
            &&& same_up_to(without.values(key), with.values(key), value)
            &&& !without.sets.contains_key(key) ==> with.sets == without.sets.insert(
                key,
                Seq::empty(),
            )
            &&& (forall|x: V| #[trigger] x.eq_spec(&value) ==> x == value)
                && without.sets.contains_key(key) ==> with == without
        }),
{
    let add = Operation::Add(key, value);
    law_refresh_shows_every_write(state, meta);
    law_write_is_invisible(state, add);
    law_write_is_invisible(state.with_op(add), Operation::Remove(key, value));
    law_remove_undoes_add(state.latest(), key, value);
    let latest = state.latest();
    if latest.sets.contains_key(key) {
        assert(latest.put(key, latest.values(key)) =~= latest);
    }
}

/// Copies with the same keys and values have the same after an operation on a key,
/// and copies that also agree on the order have the same after any operation: an
/// operation that has been applied to one copy, and is then applied to the other,
/// leaves them equal again.
pub proof fn law_copies_stay_equal<K, V: PartialEq>(
    a: Contents<K, V>,
    b: Contents<K, V>,
    op: Operation<K, V>,
)
    requires
        a.wf(),
        b.wf(),
        a.sets == b.sets,
    ensures
        !(op is EmptyRandom) ==> a.apply(op).sets == b.apply(op).sets,
        a.order == b.order ==> a.apply(op) == b.apply(op),
{
    if let Operation::Empty(key) = op {
        if a.sets.contains_key(key) {
            assert(a.order.contains(key) && b.order.contains(key));
        }
    }
    if a.order == b.order {
        assert(a =~= b);
    }
}

/// Operations on different keys commute: copies with the same keys and values have
/// the same once both operations have been applied, in whichever order.
pub proof fn law_different_keys_commute<K, V: PartialEq>(
    a: Contents<K, V>,
    b: Contents<K, V>,
    p: Operation<K, V>,
    q: Operation<K, V>,
)
    requires
        a.wf(),
        b.wf(),
        a.sets == b.sets,
        !(p is EmptyRandom),
        !(q is EmptyRandom),
        key_of(a, p) != key_of(a, q),
    ensures
        a.apply(p).apply(q).sets == b.apply(q).apply(p).sets,
{
    law_copies_stay_equal(a, b, q);
    law_operation_keeps_order(a, p);
    law_operation_keeps_order(a, q);
    law_operation_keeps_order(b, q);
    law_copies_stay_equal(a.apply(q), b.apply(q), p);
    let pq = a.apply(p).apply(q).sets;
    let qp = a.apply(q).apply(p).sets;
    let p_key = key_of(a, p)->0;
    let q_key = key_of(a, q)->0;
    law_operation_changes_one_key(a, p, q_key);
    law_operation_changes_one_key(a, q, p_key);
    lemma_depends_on_its_key(a, a.apply(p), q, q_key);
    lemma_depends_on_its_key(a, a.apply(q), p, p_key);
    assert forall|k: K| #![trigger pq.contains_key(k)] #![trigger pq[k]]
        pq.contains_key(k) == qp.contains_key(k) && (pq.contains_key(k) ==> pq[k] == qp[k]) by {
        if k != q_key {
            law_operation_changes_one_key(a.apply(p), q, k);
            if k != p_key {
                law_operation_changes_one_key(a, p, k);
                law_operation_changes_one_key(a, q, k);
            }
        }
        if k != p_key {
            law_operation_changes_one_key(a.apply(q), p, k);
        }
    }
    assert(pq =~= qp);
}

/// What an operation leaves under its key depends on that key alone.
proof fn lemma_depends_on_its_key<K, V: PartialEq>(
    a: Contents<K, V>,
    b: Contents<K, V>,
    op: Operation<K, V>,
    key: K,
)
    requires
        a.wf(),
        b.wf(),
        !(op is EmptyRandom),
        key_of(a, op) == Some(key),
        a.sets.contains_key(key) == b.sets.contains_key(key),
        a.values(key) == b.values(key),
    ensures
        a.apply(op).sets.contains_key(key) == b.apply(op).sets.contains_key(key),
        a.apply(op).values(key) == b.apply(op).values(key),
{
    if op is Empty && a.sets.contains_key(key) {
        assert(a.order.contains(key) && b.order.contains(key));
    }
}

/// Where some element equals `value`, one is the first to do so.
pub proof fn lemma_match_exists<V: PartialEq>(values: Seq<V>, value: V, i: int)
    requires
        0 <= i < values.len(),
        values[i].eq_spec(&value),
    ensures
        exists|j: int| is_first_match(values, value, j),
    decreases i,
{
    if exists|j: int| 0 <= j < i && (#[trigger] values[j]).eq_spec(&value) {
        let j = choose|j: int| 0 <= j < i && (#[trigger] values[j]).eq_spec(&value);
        lemma_match_exists(values, value, j);
    } else {
        assert(is_first_match(values, value, i));
    }
}

/// Every operation of a log keeps the order in step with the keys.
pub proof fn law_replay_keeps_order<K, V: PartialEq>(
    contents: Contents<K, V>,
    ops: Seq<Operation<K, V>>,
)
    requires
        contents.wf(),
    ensures
        contents.replay(ops).wf(),
    decreases ops.len(),
{
    if ops.len() > 0 {
        law_replay_keeps_order(contents, ops.drop_last());
        law_operation_keeps_order(contents.replay(ops.drop_last()), ops.last());
    }
}

/// A write leaves what readers see as it was, and takes effect on the latest
/// contents at once.
pub proof fn law_write_is_invisible<K, V: PartialEq, M>(
    state: State<K, V, M>,
    op: Operation<K, V>,
)
    requires
        state.inv(),
    ensures
        state.with_op(op).inv(),
        state.with_op(op).visible == state.visible,
        state.with_op(op).latest() == state.latest().apply(op),
        state.with_op(op).pending() == if state.first {
            Seq::empty()
        } else {
            state.pending().push(op)
        },
{
    let after = state.with_op(op);
    if state.first {
        law_operation_keeps_order(state.writer, op);
    } else {
        assert(after.oplog.take(after.swap_index) =~= state.oplog.take(state.swap_index));
        assert(after.pending() =~= state.pending().push(op));
        assert(after.pending().drop_last() =~= state.pending());
    }
}

/// Once there has been a refresh, a write touches neither copy, so that a reader
/// who is still on the old one sees it unchanged.
pub proof fn law_write_leaves_the_copies_alone<K, V: PartialEq, M>(
    state: State<K, V, M>,
    op: Operation<K, V>,
)
    requires
        state.inv(),
        !state.first,
    ensures
        state.with_op(op).writer == state.writer,
        state.with_op(op).visible == state.visible,
{
}

/// Writing operations together is writing them one after the other.
pub proof fn law_writes_add_up<K, V: PartialEq, M>(
    state: State<K, V, M>,
    ops: Seq<Operation<K, V>>,
    op: Operation<K, V>,
)
    requires
        state.inv(),
    ensures
        state.with_ops(Seq::empty()) == state,
        state.with_ops(ops.push(op)) == state.with_ops(ops).with_op(op),
{
    assert(state.oplog + Seq::<Operation<K, V>>::empty() =~= state.oplog);
    assert((state.oplog + ops).push(op) =~= state.oplog + ops.push(op));
    assert(ops.push(op).drop_last() =~= ops);
}

/// A refresh makes every write visible, all at once, and changes nothing else of
/// what the map holds.
pub proof fn law_refresh_shows_every_write<K, V: PartialEq, M>(state: State<K, V, M>, meta: M)
    requires
        state.inv(),
    ensures
        state.refreshed(meta).inv(),
        state.refreshed(meta).visible == (Snapshot {
            contents: state.latest(),
            meta,
            ready: true,
        }),
        state.refreshed(meta).latest() == state.latest(),
        state.refreshed(meta).pending().len() == 0,
{
    let after = state.refreshed(meta);
    assert(after.oplog.take(after.swap_index) =~= state.pending());
    assert(after.pending() =~= Seq::empty());
    if !state.first {
        law_replay_keeps_order(state.visible.contents, state.pending());
    }
}

/// Two refreshes with no write between them leave both copies the same, and the
/// log empty, whatever was written before.
pub proof fn law_two_refreshes_settle<K, V: PartialEq, M>(
    state: State<K, V, M>,
    first_meta: M,
    second_meta: M,
)
    requires
        state.inv(),
    ensures
        state.refreshed(first_meta).refreshed(second_meta).settled(),
        state.refreshed(first_meta).refreshed(second_meta).visible.contents == state.latest(),
{
    let once = state.refreshed(first_meta);
    law_refresh_shows_every_write(state, first_meta);
    law_refresh_shows_every_write(once, second_meta);
}

/// A handle that has been refreshed, and whose log is empty, shows readers every
/// write.
pub proof fn law_empty_log_shows_every_write<K, V: PartialEq, M>(state: State<K, V, M>)
    requires
        state.inv(),
        !state.first,
        state.pending().len() == 0,
    ensures
        state.visible.contents == state.latest(),
{
}

/// While nothing is pending, the key that readers see at an index is the key that
/// emptying that index takes from them at the next refresh.
pub proof fn law_empty_at_index_names_the_evicted<K, V: PartialEq, M>(
    state: State<K, V, M>,
    index: usize,
    meta: M,
)
    requires
        state.inv(),
        !state.first,
        state.pending().len() == 0,
        index < state.visible.contents.order.len(),
    ensures
        state.with_op(Operation::EmptyRandom(index)).refreshed(meta).visible.contents.sets
            == state.visible.contents.sets.remove(state.visible.contents.order[index as int]),
{
    law_write_is_invisible(state, Operation::EmptyRandom(index));
}

/// The log brings each operation to both copies while they hold the same: what
/// an operation takes out of the second copy is what it took out of the first.
pub proof fn law_both_copies_give_up_the_same<K, V: PartialEq, M>(
    state: State<K, V, M>,
    meta: M,
    i: int,
)
    requires
        state.inv(),
        !state.first,
        0 <= i < state.pending().len(),
    ensures
        ({
            let op = state.pending()[i];
            let first_copy = state.visible.contents.replay(state.pending().take(i));
            let after = state.refreshed(meta);
            let second_copy = after.writer.replay(after.oplog.take(i));
            &&& after.oplog[i] == op
            &&& first_copy == second_copy
            &&& taken(first_copy, op) == taken(second_copy, op)
        }),
{
}

/// Something that happens to a handle.
pub enum Event<K, V, M> {
    /// An operation is written.
    Write(Operation<K, V>),
    /// The meta information is set.
    SetMeta(M),
    /// The map is refreshed, and this clone of the meta information shown.
    Refresh(M),
    /// A wait for this many readers begins.
    Wait(nat),
    /// The epoch of a reader is loaded, if one is waited for.
    Observe(usize),
    /// The epochs of the readers are noted.
    Record(Seq<usize>),
}

/// The state after the events, in order.
pub open spec fn run<K, V: PartialEq, M>(
    state: State<K, V, M>,
    events: Seq<Event<K, V, M>>,
) -> State<K, V, M>
    decreases events.len(),
{
    if events.len() == 0 {
        state
    } else {
        let before = run(state, events.drop_last());
        match events.last() {
            Event::Write(op) => before.with_op(op),
            Event::SetMeta(meta) => State { meta, ..before },
            Event::Refresh(meta) => before.refreshed(meta),
            Event::Wait(readers) => State { wait: before.wait.started(readers), ..before },
            Event::Observe(now) => if before.wait.waiting() {
                State { wait: before.wait.observed(now), ..before }
            } else {
                before
            },
            Event::Record(epochs) => State { wait: before.wait.recorded(epochs), ..before },
        }
    }
}

/// The operations that the events write, in order.
pub open spec fn written<K, V, M>(events: Seq<Event<K, V, M>>) -> Seq<Operation<K, V>>
    decreases events.len(),
{
    if events.len() == 0 {
        Seq::empty()
    } else {
        match events.last() {
            Event::Write(op) => written(events.drop_last()).push(op),
            _ => written(events.drop_last()),
        }
    }
}

/// The events up to the last refresh.
pub open spec fn shown<K, V, M>(events: Seq<Event<K, V, M>>) -> Seq<Event<K, V, M>>
    decreases events.len(),
{
    if events.len() == 0 || events.last() is Refresh {
        events
    } else {
        shown(events.drop_last())
    }
}

/// Readers see the writes that came before the last refresh, all of them, in the
/// order in which they were made, and no other; before the first refresh they
/// see none. This holds whatever the writer does to find out where the readers
/// are.
pub proof fn law_readers_see_writes_up_to_last_refresh<K, V: PartialEq, M>(
    state: State<K, V, M>,
    events: Seq<Event<K, V, M>>,
)
    requires
        state.inv(),
        state.first,
    ensures
        run(state, events).inv(),
        run(state, events).latest() == state.latest().replay(written(events)),
        shown(events).len() > 0 ==> run(state, events).visible.contents == state.latest().replay(
            written(shown(events)),
        ),
        shown(events).len() == 0 ==> run(state, events).visible == state.visible,
        run(state, events).first == (shown(events).len() == 0),
    decreases events.len(),
{
    if events.len() > 0 {
        law_readers_see_writes_up_to_last_refresh(state, events.drop_last());
        let before = run(state, events.drop_last());
        match events.last() {
            Event::Write(op) => {
                law_write_is_invisible(before, op);
                let ops = written(events.drop_last());
                assert(ops.push(op).drop_last() =~= ops);
            },
            Event::SetMeta(meta) => {},
            Event::Refresh(meta) => {
                law_refresh_shows_every_write(before, meta);
            },
            Event::Wait(readers) => {
                let last = crate::epochs::resized(before.wait.last, readers);
                crate::epochs::lemma_next_active(last, 0);
            },
            Event::Observe(now) => {
                if before.wait.waiting() {
                    law_wait_goes_on_once_moved(before.wait, now);
                }
            },
            Event::Record(epochs) => {},
        }
    }
}

/// What is pending are the operations written since the last refresh, in the order
/// in which they were made; before the first refresh nothing is.
pub proof fn law_pending_is_what_was_written_since<K, V: PartialEq, M>(
    state: State<K, V, M>,
    events: Seq<Event<K, V, M>>,
)
    requires
        state.inv(),
        state.first,
    ensures
        shown(events).len() <= events.len(),
        shown(events).len() > 0 ==> run(state, events).pending() == written(
            events.skip(shown(events).len() as int),
        ),
        shown(events).len() == 0 ==> run(state, events).pending().len() == 0,
    decreases events.len(),
{
    law_readers_see_writes_up_to_last_refresh(state, events);
    if events.len() > 0 {
        let earlier = events.drop_last();
        law_pending_is_what_was_written_since(state, earlier);
        law_readers_see_writes_up_to_last_refresh(state, earlier);
        let before = run(state, earlier);
        if let Event::Refresh(meta) = events.last() {
            law_refresh_shows_every_write(before, meta);
            assert(events.skip(events.len() as int) =~= Seq::empty());
        } else {
            let n = shown(events).len() as int;
            assert(events.skip(n).drop_last() =~= earlier.skip(n));
            assert(events.skip(n).last() == events.last());
            if let Event::Write(op) = events.last() {
                law_write_is_invisible(before, op);
            }
        }
    }
}

/// The meta information that was set last, or `meta` where none was.
pub open spec fn last_set<K, V, M>(meta: M, events: Seq<Event<K, V, M>>) -> M
    decreases events.len(),
{
    if events.len() == 0 {
        meta
    } else {
        match events.last() {
            Event::SetMeta(m) => m,
            _ => last_set(meta, events.drop_last()),
        }
    }
}

/// Each refresh shows a clone of the meta information that was set last before it,
/// as `WriteHandle::refresh` does.
pub open spec fn shows_clones<K, V, M: Clone>(meta: M, events: Seq<Event<K, V, M>>) -> bool
    decreases events.len(),
{
    events.len() == 0 || {
        &&& shows_clones(meta, events.drop_last())
        &&& events.last() matches Event::Refresh(m) ==> cloned(
            last_set(meta, events.drop_last()),
            m,
        )
    }
}

/// The meta information of a handle is what was set last, and readers are shown a
/// clone of what had been set last when the map was last refreshed; before the
/// first refresh they are shown what the map began with.
pub proof fn law_readers_see_meta_of_last_refresh<K, V: PartialEq, M: Clone>(
    state: State<K, V, M>,
    events: Seq<Event<K, V, M>>,
)
    requires
        shows_clones(state.meta, events),
    ensures
        run(state, events).meta == last_set(state.meta, events),
        shown(events).len() > 0 ==> cloned(
            last_set(state.meta, shown(events)),
            run(state, events).visible.meta,
        ),
        shown(events).len() == 0 ==> run(state, events).visible.meta == state.visible.meta,
    decreases events.len(),
{
    if events.len() > 0 {
        law_readers_see_meta_of_last_refresh(state, events.drop_last());
    }
}

/// When a wait is over, every reader was not reading right after the swap, or has
/// been seen since to have moved on, to have finished, or never to have read.
pub proof fn law_wait_ends_when_all_have_moved(wait: Wait, i: int)
    requires
        wait.inv(),
        wait.all_departed(),
        0 <= i < wait.last.len(),
    ensures
        crate::epochs::finished(wait.last[i]) || wait.seen.contains_key(i)
            && crate::epochs::has_moved(wait.last[i], wait.seen[i]),
{
}

/// After a swap no reader counts as departed until its epoch has been noted, and
/// a new wait has looked at it.
pub proof fn law_swap_calls_for_a_new_wait(wait: Wait, epochs: Seq<usize>)
    requires
        wait.inv(),
    ensures
        wait.swapped().inv(),
        wait.swapped().due,
        !wait.swapped().all_departed(),
        wait.swapped().recorded(epochs).inv(),
        !wait.swapped().recorded(epochs).due,
        wait.swapped().recorded(epochs).all_departed() <==> epochs.len() == 0,
{
}

/// A reader that came after the swap never holds the writer up.
pub proof fn law_new_reader_never_delays(wait: Wait, now: usize)
    requires
        wait.inv(),
        wait.waiting(),
        wait.last[wait.next] == 0,
    ensures
        wait.observed(now).next > wait.next,
{
    crate::epochs::lemma_next_active(wait.last, wait.next + 1);
}

/// A reader holds the writer up exactly as long as it is not seen to have moved.
pub proof fn law_wait_goes_on_once_moved(wait: Wait, now: usize)
    requires
        wait.inv(),
        wait.waiting(),
    ensures
        wait.observed(now).inv(),
        crate::epochs::has_moved(wait.last[wait.next], now) <==> wait.observed(now).next
            > wait.next,
        !crate::epochs::has_moved(wait.last[wait.next], now) ==> wait.observed(now).next
            == wait.next,
{
    crate::epochs::lemma_next_active(wait.last, wait.next + 1);
}

/// The wait once the epochs `nows` have been loaded, one after the other, for
/// whichever reader was to be looked at, or until there was none.
pub open spec fn watched(wait: Wait, nows: Seq<usize>) -> Wait
    decreases nows.len(),
{
    if nows.len() == 0 || !wait.waiting() {
        wait
    } else {
        watched(wait.observed(nows.first()), nows.drop_first())
    }
}

/// Each of the epochs `nows`, loaded as for `watched`, shows the reader that was
/// looked at to have moved.
pub open spec fn each_has_moved(wait: Wait, nows: Seq<usize>) -> bool
    decreases nows.len(),
{
    nows.len() == 0 || !wait.waiting() || {
        &&& crate::epochs::has_moved(wait.last[wait.next], nows.first())
        &&& each_has_moved(wait.observed(nows.first()), nows.drop_first())
    }
}

/// Where each reader is seen to have moved when it is looked at, the writer looks
/// at each of them once at most.
pub proof fn law_wait_ends_once_readers_move(wait: Wait, nows: Seq<usize>)
    requires
        wait.inv(),
        !wait.due,
        nows.len() >= wait.last.len() - wait.next,
        each_has_moved(wait, nows),
    ensures
        watched(wait, nows).inv(),
        watched(wait, nows).all_departed(),
    decreases nows.len(),
{
    if wait.waiting() {
        let now = nows.first();
        law_wait_goes_on_once_moved(wait, now);
        law_wait_ends_once_readers_move(wait.observed(now), nows.drop_first());
    }
}

/// Readers that are done reading have moved: once they are, the writer looks at
/// each of them once at most.
pub proof fn law_wait_ends_once_readers_finish(wait: Wait, nows: Seq<usize>)
    requires
        wait.inv(),
        !wait.due,
        nows.len() >= wait.last.len() - wait.next,
        forall|i: int| 0 <= i < nows.len() ==> crate::epochs::finished(#[trigger] nows[i]),
    ensures
        watched(wait, nows).all_departed(),
{
    lemma_finished_has_moved(wait, nows);
    law_wait_ends_once_readers_move(wait, nows);
}

/// An epoch that is finished shows any reader to have moved.
proof fn lemma_finished_has_moved(wait: Wait, nows: Seq<usize>)
    requires
        forall|i: int| 0 <= i < nows.len() ==> crate::epochs::finished(#[trigger] nows[i]),
    ensures
        each_has_moved(wait, nows),
    decreases nows.len(),
{
    if nows.len() > 0 && wait.waiting() {
        assert(crate::epochs::finished(nows[0]));
        lemma_finished_has_moved(wait.observed(nows.first()), nows.drop_first());
    }
}

/// The states of a teardown from its start to its end. Between one step and the
/// next the writer may find out more of where the readers are.
pub open spec fn is_teardown<K, V: PartialEq, M: Clone>(
    steps: Seq<TeardownState<K, V, M>>,
    waited: Seq<TeardownState<K, V, M>>,
    actions: Seq<TeardownAction>,
) -> bool {
    &&& steps.len() == actions.len() + 1
    &&& waited.len() == actions.len()
    &&& steps[0].inv()
    &&& steps.last().stage == Stage::Finished
    &&& forall|i: int| #![trigger waited[i]]
        0 <= i < actions.len() ==> waited[i].same_but_wait(steps[i]) && waited[i].steps_to(
            steps[i + 1],
            actions[i],
        )
}

/// Closing a map takes two refreshes at most, whatever the log holds, and leaves it
/// empty: none if the log is empty, one if readers have seen all that it holds, and
/// two otherwise. In the end readers find every key, with its values, if there was a
/// refresh before, and are shown what they were shown, if there was none.
pub proof fn law_close_takes_two_refreshes<K, V: PartialEq, M: Clone>(
    steps: Seq<TeardownState<K, V, M>>,
    waited: Seq<TeardownState<K, V, M>>,
    actions: Seq<TeardownAction>,
)
    requires
        is_teardown(steps, waited, actions),
        steps[0].stage == Stage::Close,
    ensures
        actions.len() == if steps[0].handle.oplog.len() == 0 {
            1int
        } else if steps[0].handle.pending().len() == 0 {
            2
        } else {
            3
        },
        forall|i: int|
            0 <= i < actions.len() - 1 ==> #[trigger] actions[i] == TeardownAction::Publish,
        actions.last() == TeardownAction::Finished,
        steps.last().handle.oplog.len() == 0,
        steps.last().retired is None,
        !steps[0].handle.first ==> {
            &&& steps.last().shown is Some
            &&& steps.last().shown->0.contents == steps[0].handle.latest()
            &&& steps.last().shown->0.ready
            &&& forall|k: K|
                steps[0].handle.latest().sets.contains_key(k) ==> #[trigger] crate::read::lookup(
                    steps.last().shown,
                    k,
                ) == Some(steps[0].handle.latest().sets[k])
        },
        actions.len() > 1 ==> cloned(steps[0].handle.meta, steps.last().shown->0.meta),
        actions.len() == 1 ==> steps.last().shown == steps[0].shown,
        steps[0].handle.first ==> actions.len() == 1,
{
    let start = steps[0].handle;
    assert(waited[0].steps_to(steps[1], actions[0]));
    if start.oplog.len() == 0 {
        assert(start.pending() =~= Seq::empty());
        lemma_ends_with(steps, waited, actions, 1);
    } else {
        law_refresh_shows_every_write(waited[0].handle, steps[1].handle.visible.meta);
        assert(waited[1].steps_to(steps[2], actions[1]));
        if steps[1].handle.oplog.len() == 0 {
            lemma_ends_with(steps, waited, actions, 2);
        } else {
            law_refresh_shows_every_write(waited[1].handle, steps[2].handle.visible.meta);
            assert(waited[2].steps_to(steps[3], actions[2]));
            lemma_ends_with(steps, waited, actions, 3);
        }
    }
}

/// No step follows the end.
proof fn lemma_ends_with<K, V: PartialEq, M: Clone>(
    steps: Seq<TeardownState<K, V, M>>,
    waited: Seq<TeardownState<K, V, M>>,
    actions: Seq<TeardownAction>,
    i: int,
)
    requires
        is_teardown(steps, waited, actions),
        0 <= i < steps.len(),
        steps[i].stage == Stage::Finished,
    ensures
        actions.len() == i,
{
    if i < actions.len() {
        assert(waited[i].steps_to(steps[i + 1], actions[i]));
    }
}

/// Destroying a map takes two refreshes, brings both copies up to date, takes the
/// map away from the readers, and lets go of it: from then on readers are shown
/// nothing.
pub proof fn law_destroy_takes_the_map_away<K, V: PartialEq, M: Clone>(
    steps: Seq<TeardownState<K, V, M>>,
    waited: Seq<TeardownState<K, V, M>>,
    actions: Seq<TeardownAction>,
    key: K,
)
    requires
        is_teardown(steps, waited, actions),
        steps[0].stage == Stage::Destroy(2),
    ensures
        actions == seq![
            TeardownAction::Publish,
            TeardownAction::Publish,
            TeardownAction::Withdraw,
            TeardownAction::Finished,
        ],
        steps[2].handle.settled(),
        steps[2].shown is Some,
        steps[2].shown->0.contents == steps[0].handle.latest(),
        steps[2].shown->0.ready,
        steps[3].shown is None,
        steps[4].shown is None,
        steps[4].retired is None,
        steps[4].handle.writer == Contents::<K, V>::empty(),
        crate::read::lookup(steps[4].shown, key) is None,
{
    assert(waited[0].steps_to(steps[1], actions[0]));
    assert(waited[1].steps_to(steps[2], actions[1]));
    assert(waited[2].steps_to(steps[3], actions[2]));
    assert(waited[3].steps_to(steps[4], actions[3]));
    law_refresh_shows_every_write(waited[0].handle, steps[1].handle.visible.meta);
    law_refresh_shows_every_write(waited[1].handle, steps[2].handle.visible.meta);
    lemma_ends_with(steps, waited, actions, 4);
}

} // verus!
