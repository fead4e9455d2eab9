//! The handle through which the map is changed.

use crate::contents::Contents;
use crate::epochs::{EpochTracker, Wait, WaitAction};
use crate::inner::{Inner, Snapshot};
use crate::operation::Operation;
use crate::read::ReadHandle;
use crate::shallow_copy::ShallowCopy;
use crate::slot::Slot;
use crate::state::State;
use crate::write::teardown::{Stage, Teardown, TeardownState};
use std::collections::hash_map::RandomState;
use std::hash::{BuildHasher, Hash};
use vstd::prelude::*;
use vstd::std_specs::cmp::PartialEqSpec;

pub mod teardown;

verus! {

/// The types of keys and values, and the hasher, do what the map asks of them.
pub open spec fn lawful<K: Eq + Hash + Clone, V: Eq, S: BuildHasher>() -> bool {
    &&& crate::data::lawful_keys::<K, S>()
    &&& V::obeys_eq_spec()
}

/// A handle that may be used to modify the eventually consistent map.
///
/// Note that any changes made to the map will not be made visible to readers
/// until `refresh()` is called.
#[verifier::reject_recursive_types(K)]
#[verifier::reject_recursive_types(V)]
#[verifier::reject_recursive_types(S)]
pub struct WriteHandle<K, V, M = (), S = RandomState> {
    w_handle: Slot<Inner<K, V, M, S>>,
    oplog: Vec<Operation<K, V>>,
    swap_index: usize,
    r_handle: ReadHandle<K, V, M, S>,
    epochs: EpochTracker,
    meta: M,
    first: bool,
    second: bool,
}

impl<K, V, M, S> View for WriteHandle<K, V, M, S> {
    type V = State<K, V, M>;

    closed spec fn view(&self) -> State<K, V, M> {
        State {
            writer: self.w_handle@.data@,
            visible: self.r_handle@->0,
            oplog: self.oplog@,
            swap_index: self.swap_index as int,
            meta: self.meta,
            first: self.first,
            second: self.second,
            wait: self.epochs@,
        }
    }
}

/// The index of the first element of `values` that equals `value`.
fn first_match<V: Eq>(values: &Vec<V>, value: &V) -> (index: Option<usize>)
    requires
        V::obeys_eq_spec(),
    ensures
        match index {
            Some(i) => crate::contents::is_first_match(values@, *value, i as int),
            None => forall|i: int| 0 <= i < values@.len() ==> !(#[trigger] values@[i]).eq_spec(value),
        },
{
    for i in 0..values.len()
        invariant
            V::obeys_eq_spec(),
            forall|j: int| 0 <= j < i ==> !(#[trigger] values@[j]).eq_spec(value),
    {
        if values[i] == *value {
            return Some(i);
        }
    }
    None
}

/// Takes the first element that equals `value` out of `values`.
fn remove_first<V: Eq>(values: &mut Vec<V>, value: &V)
    requires
        V::obeys_eq_spec(),
    ensures
        final(values)@ == crate::contents::without_first(old(values)@, *value),
{
    if let Some(i) = first_match(values, value) {
        proof {
            let j = choose|j: int| crate::contents::is_first_match(values@, *value, j);
            crate::contents::lemma_first_match_unique(values@, *value, i as int, j);
        }
        values.swap_remove(i);
    }
}

impl<K, V, M, S> WriteHandle<K, V, M, S>
where
    K: Eq + Hash + Clone,
    S: BuildHasher + Clone,
    V: Eq + ShallowCopy,
    M: 'static + Clone,
{
    /// The stores behind both copies are sound.
    pub closed spec fn stores_wf(self) -> bool {
        &&& lawful::<K, V, S>()
        &&& self.w_handle.wf()
        &&& self.w_handle@.data.wf()
        &&& self.r_handle.wf()
        &&& self.r_handle@ is Some
    }

    /// The handle is sound.
    pub open spec fn wf(self) -> bool {
        self.stores_wf() && self@.inv()
    }

    /// Applies an operation that the other copy has yet to see: what it puts in is copied.
    pub fn apply_first(inner: &mut Inner<K, V, M, S>, op: &Operation<K, V>)
        requires
            lawful::<K, V, S>(),
            old(inner).data.wf(),
        ensures
            final(inner).data.wf(),
            final(inner)@ == (Snapshot {
                contents: old(inner)@.contents.apply(*op),
                ..old(inner)@
            }),
    {
        match op {
            Operation::Replace(key, value) => {
                let vs = inner.data.entry(key.clone());
                vs.clear();
                vs.push(value.shallow_copy());
                assert(vs@ =~= seq![*value]);
            },
            Operation::Clear(key) => {
                inner.data.entry(key.clone()).clear();
            },
            Operation::Add(key, value) => {
                inner.data.entry(key.clone()).push(value.shallow_copy());
            },
            Operation::Empty(key) => {
                inner.data.remove(key);
            },
            Operation::EmptyRandom(index) => {
                inner.data.remove_at_index(*index);
            },
            Operation::Remove(key, value) => {
                if let Some(vs) = inner.data.get_mut(key) {
                    remove_first(vs, value);
                }
            },
        }
    }

    /// Applies an operation that the other copy has seen already, or never will: what it puts in
    /// is moved. Copies that were equal are equal again once an operation has been applied to the
    /// one by `apply_first` and to the other by this.
    pub fn apply_second(inner: &mut Inner<K, V, M, S>, op: Operation<K, V>)
        requires
            lawful::<K, V, S>(),
            old(inner).data.wf(),
        ensures
            final(inner).data.wf(),
            final(inner)@ == (Snapshot {
                contents: old(inner)@.contents.apply(op),
                ..old(inner)@
            }),
    {
        match op {
            Operation::Replace(key, value) => {
                let vs = inner.data.entry(key);
                vs.clear();
                vs.push(value);
                assert(vs@ =~= seq![value]);
            },
            Operation::Clear(key) => {
                inner.data.entry(key).clear();
            },
            Operation::Add(key, value) => {
                inner.data.entry(key).push(value);
            },
            Operation::Empty(key) => {
                inner.data.remove(&key);
            },
            Operation::EmptyRandom(index) => {
                inner.data.remove_at_index(index);
            },
            Operation::Remove(key, value) => {
                if let Some(vs) = inner.data.get_mut(&key) {
                    remove_first(vs, &value);
                }
            },
        }
    }

    /// Applies `ops`, in order, to a copy that is the first to see them.
    fn replay_first(inner: &mut Inner<K, V, M, S>, ops: &Vec<Operation<K, V>>)
        requires
            lawful::<K, V, S>(),
            old(inner).data.wf(),
        ensures
            final(inner).data.wf(),
            final(inner)@ == (Snapshot {
                contents: old(inner)@.contents.replay(ops@),
                ..old(inner)@
            }),
    {
        for i in 0..ops.len()
            invariant
                lawful::<K, V, S>(),
                inner.data.wf(),
                inner@ == (Snapshot {
                    contents: old(inner)@.contents.replay(ops@.take(i as int)),
                    ..old(inner)@
                }),
        {
            Self::apply_first(inner, &ops[i]);
            assert(ops@.take(i + 1).drop_last() =~= ops@.take(i as int));
        }
        assert(ops@.take(ops@.len() as int) =~= ops@);
    }

    /// Applies `ops`, in order, to a copy that is the last to see them.
    fn replay_second(inner: &mut Inner<K, V, M, S>, ops: Vec<Operation<K, V>>)
        requires
            lawful::<K, V, S>(),
            old(inner).data.wf(),
        ensures
            final(inner).data.wf(),
            final(inner)@ == (Snapshot {
                contents: old(inner)@.contents.replay(ops@),
                ..old(inner)@
            }),
    {
        let ghost all = ops@;
        for op in it: ops
            invariant
                lawful::<K, V, S>(),
                inner.data.wf(),
                it.seq() == all,
                inner@ == (Snapshot {
                    contents: old(inner)@.contents.replay(all.take(it.index() as int)),
                    ..old(inner)@
                }),
        {
            Self::apply_second(inner, op);
            assert(all.take(it.index() + 1).drop_last() =~= all.take(it.index() as int));
        }
        assert(all.take(all.len() as int) =~= all);
    }

    /// Begins to wait until no reader is left on the copy that the last swap
    /// took away from them, and says what to do first. `readers` is the number
    /// of readers there are.
    ///
    /// A reader that came after the swap has never seen the old copy.
    pub fn wait(&mut self, readers: usize) -> (action: WaitAction)
        requires
            old(self).wf(),
            !old(self)@.wait.due,
        ensures
            final(self).wf(),
            final(self)@ == (State { wait: old(self)@.wait.started(readers as nat), ..old(self)@ }),
            action == final(self)@.wait.action(),
    {
        self.epochs.wait(readers)
    }

    /// Goes on waiting, now that the epoch of the reader that the last action
    /// named was loaded as `now`, and says what to do next.
    pub fn observe(&mut self, now: usize) -> (action: WaitAction)
        requires
            old(self).wf(),
            old(self)@.wait.waiting(),
        ensures
            final(self).wf(),
            final(self)@ == (State { wait: old(self)@.wait.observed(now), ..old(self)@ }),
            action == old(self)@.wait.action_after(now),
    {
        self.epochs.observe(now)
    }

    /// Refresh the handle used by readers so that pending writes are made visible.
    ///
    /// This replays the operational log onto the stale map copy the readers used to use, which
    /// all of them must have left (see `wait`), and then swaps the two copies. The epochs of the
    /// readers have to be noted next, once they are led to the new copy (see `record_epochs`).
    pub fn refresh(&mut self)
        requires
            old(self).wf(),
            old(self)@.wait.all_departed(),
        ensures
            final(self).wf(),
            cloned(old(self)@.meta, final(self)@.visible.meta),
            final(self)@ == old(self)@.refreshed(final(self)@.visible.meta),
            final(self)@.visible.contents == old(self)@.latest(),
            final(self)@.visible.ready,
            final(self)@.writer == old(self)@.visible.contents,
            final(self)@.meta == old(self)@.meta,
            !final(self)@.first,
            final(self)@.wait.due,
            final(self)@.pending().len() == 0,
            final(self)@.latest() == old(self)@.latest(),
    {
        let ghost start = self@;
        let ghost base = if start.second { start.visible.contents } else { start.writer };
        if self.second {
            // before the first refresh, all writes went directly to the writer's copy. then that
            // copy was swapped for the readers' empty one, and none of those writes are in the
            // log. so the state of the readers' copy has to be carried over before the log, which
            // holds the writes after the first refresh, is replayed.
            if let Some(inner) = self.r_handle.inner() {
                self.w_handle.get_mut().data.extend_from(&inner.data);
            }
        }
        assert(self.w_handle@.data@ == base);

        // the writer's copy has not seen any of the writes in the log.
        // the readers' copy has not seen any of the writes from swap_index on.
        let mut done = self.oplog.split_off(self.swap_index);
        std::mem::swap(&mut self.oplog, &mut done);
        assert(done@ =~= start.oplog.take(start.swap_index));
        assert(self.oplog@ =~= start.pending());
        Self::replay_second(self.w_handle.get_mut(), done);
        // the rest have to be copied because they will also be needed by the other copy
        Self::replay_first(self.w_handle.get_mut(), &self.oplog);
        // the writer's copy is about to become the readers', and can ignore the log
        self.swap_index = self.oplog.len();
        let fresh = self.w_handle.get_mut();
        fresh.meta = self.meta.clone();
        fresh.mark_ready();
        proof {
            self.w_handle@.data.lemma_view_wf();
        }

        // swap in the writer's copy, and get the stale one in return
        if let Some(inner) = self.r_handle.take() {
            let mut stale = inner;
            std::mem::swap(&mut self.w_handle, &mut stale);
            self.r_handle.swap(stale);
        }
        self.epochs.swapped();
        self.second = self.first;
        self.first = false;
        assert(self@.oplog.take(self@.swap_index) =~= start.pending());
    }

    /// Notes the epoch of every reader there is, as loaded after readers were led to the copy
    /// that the last swap made theirs. A reader that comes later has never seen the other copy.
    pub fn record_epochs(&mut self, epochs: &[usize])
        requires
            old(self).wf(),
        ensures
            final(self).wf(),
            final(self)@ == (State { wait: old(self)@.wait.recorded(epochs@), ..old(self)@ }),
    {
        self.epochs.record(epochs);
    }

    /// Drop this map without preserving one side for reads.
    ///
    /// Normally, the maps are not deallocated until all readers have also gone away.
    /// When this method is called, the map is immediately (but safely) taken away from all
    /// readers, causing all future lookups to return `None`.
    pub fn destroy(self) -> (teardown: Teardown<K, V, M, S>)
        requires
            self.wf(),
        ensures
            teardown.wf(),
            teardown@ == (TeardownState {
                handle: self@,
                shown: Some(self@.visible),
                retired: None,
                stage: Stage::Destroy(2),
            }),
    {
        Teardown::begin(self, Stage::Destroy(2))
    }

    /// Drop this handle and leave the map to the readers, with every logged write made visible.
    pub fn close(self) -> (teardown: Teardown<K, V, M, S>)
        requires
            self.wf(),
        ensures
            teardown.wf(),
            teardown@ == (TeardownState {
                handle: self@,
                shown: Some(self@.visible),
                retired: None,
                stage: Stage::Close,
            }),
    {
        Teardown::begin(self, Stage::Close)
    }

    /// Gives the sequence of operations that have not yet been applied.
    ///
    /// Note that until the *first* call to `refresh`, the sequence of operations is always empty.
    pub fn pending(&self) -> (ops: &[Operation<K, V>])
        requires
            self.wf(),
        ensures
            ops@ == self@.pending(),
            self@.first ==> ops@.len() == 0,
    {
        let ops = &self.oplog.as_slice()[self.swap_index..self.oplog.len()];
        assert(ops@ =~= self@.pending());
        ops
    }

    /// Whether there are operations that readers may not see yet.
    ///
    /// Before the first refresh these are not in the log, but in the writer's copy.
    pub fn has_unseen(&self) -> (unseen: bool)
        requires
            self.wf(),
        ensures
            unseen == self@.unseen(),
            unseen <==> self@.pending().len() > 0 || self@.first && exists|k: K|
                self@.latest().sets.contains_key(k),
    {
        proof {
            crate::elementary::law_unseen(self@);
        }
        self.pending().len() > 0 || self.first && self.w_handle.get().data.len() > 0
    }

    /// Refresh as necessary to ensure that all operations are visible to readers.
    ///
    /// `WriteHandle::refresh` will *always* swap the maps. This method will only do so if there
    /// are operations that readers may not see yet, those before the first refresh included, and
    /// only then do readers have to have left the stale copy. Says whether the maps were swapped.
    pub fn flush(&mut self) -> (swapped: bool)
        requires
            old(self).wf(),
            old(self)@.unseen() ==> old(self)@.wait.all_departed(),
        ensures
            final(self).wf(),
            swapped == old(self)@.unseen(),
            swapped <==> old(self)@.pending().len() > 0 || old(self)@.first && exists|k: K|
                old(self)@.latest().sets.contains_key(k),
            swapped ==> final(self)@.visible.ready,
            final(self)@.meta == old(self)@.meta,
            swapped ==> cloned(old(self)@.meta, final(self)@.visible.meta) && final(self)@ == old(
                self,
            )@.refreshed(final(self)@.visible.meta),
            !swapped ==> final(self)@ == old(self)@,
            final(self)@.visible.contents == old(self)@.latest(),
            final(self)@.visible.ready || old(self)@.latest() == Contents::<K, V>::empty(),
            final(self)@.pending().len() == 0,
            final(self)@.latest() == old(self)@.latest(),
    {
        if !self.has_unseen() {
            proof {
                if self.first {
                    crate::contents::lemma_no_keys(self@.writer);
                }
            }
            return false;
        }
        self.refresh();
        true
    }

    /// Set the metadata, and get back what was set before.
    ///
    /// Will only be visible to readers after the next call to `refresh()`.
    pub fn set_meta(&mut self, meta: M) -> (previous: M)
        requires
            old(self).wf(),
        ensures
            final(self).wf(),
            final(self)@ == (State { meta, ..old(self)@ }),
            previous == old(self)@.meta,
    {
        let mut meta = meta;
        std::mem::swap(&mut self.meta, &mut meta);
        meta
    }

    /// Writes an operation: to the log, or straight to the writer's copy while no reader has
    /// ever been shown anything.
    fn add_op(&mut self, op: Operation<K, V>)
        requires
            old(self).wf(),
        ensures
            final(self).wf(),
            final(self)@ == old(self)@.with_op(op),
            final(self)@.latest() == old(self)@.latest().apply(op),
            old(self)@.latest().wf(),
            final(self)@.visible == old(self)@.visible,
            final(self)@.meta == old(self)@.meta,
            final(self)@.first == old(self)@.first,
            final(self)@.wait == old(self)@.wait,
            final(self)@.pending() == if old(self)@.first {
                Seq::empty()
            } else {
                old(self)@.pending().push(op)
            },
    {
        proof {
            crate::elementary::law_latest_contents(self@);
        }
        if !self.first {
            self.oplog.push(op);
            proof {
                let before = old(self)@;
                assert(self@.oplog.take(self@.swap_index) =~= before.oplog.take(before.swap_index));
                assert(self@.pending() =~= before.pending().push(op));
                assert(self@.pending().drop_last() =~= before.pending());
            }
        } else {
            // NOTE: since this is not recorded in the log, the second refresh *must* carry over
            // the whole copy
            Self::apply_second(self.w_handle.get_mut(), op);
            proof {
                self.w_handle@.data.lemma_view_wf();
                assert(self@.pending() =~= Seq::empty());
            }
        }
    }

    /// Add the given value to the value-set of the given key.
    ///
    /// The updated value-set will only be visible to readers after the next call to `refresh()`.
    pub fn insert(&mut self, k: K, v: V)
        requires
            old(self).wf(),
        ensures
            final(self).wf(),
            final(self)@ == old(self)@.with_op(Operation::Add(k, v)),
            final(self)@.latest() == old(self)@.latest().apply(Operation::Add(k, v)),
            final(self)@.latest().sets == old(self)@.latest().sets.insert(
                k,
                if old(self)@.latest().sets.contains_key(k) {
                    old(self)@.latest().sets[k].push(v)
                } else {
                    seq![v]
                },
            ),
            final(self)@.visible == old(self)@.visible,
            final(self)@.meta == old(self)@.meta,
            final(self)@.first == old(self)@.first,
            final(self)@.wait == old(self)@.wait,
            final(self)@.pending() == if old(self)@.first {
                Seq::empty()
            } else {
                old(self)@.pending().push(Operation::Add(k, v))
            },
    {
        proof {
            crate::elementary::law_latest_contents(self@);
            crate::elementary::law_add_appends(self@.latest(), k, v);
        }
        self.add_op(Operation::Add(k, v));
    }

    /// Replace the value-set of the given key with the given value.
    ///
    /// The new value will only be visible to readers after the next call to `refresh()`.
    pub fn update(&mut self, k: K, v: V)
        requires
            old(self).wf(),
        ensures
            final(self).wf(),
            final(self)@ == old(self)@.with_op(Operation::Replace(k, v)),
            final(self)@.latest() == old(self)@.latest().apply(Operation::Replace(k, v)),
            final(self)@.latest().sets == old(self)@.latest().sets.insert(k, seq![v]),
            final(self)@.visible == old(self)@.visible,
            final(self)@.meta == old(self)@.meta,
            final(self)@.first == old(self)@.first,
            final(self)@.wait == old(self)@.wait,
            final(self)@.pending() == if old(self)@.first {
                Seq::empty()
            } else {
                old(self)@.pending().push(Operation::Replace(k, v))
            },
    {
        proof {
            crate::elementary::law_latest_contents(self@);
            crate::elementary::law_replace_leaves_one_value(self@.latest(), k, v);
        }
        self.add_op(Operation::Replace(k, v));
    }

    /// Clear the value-set of the given key, without removing it.
    ///
    /// This will allocate an empty value-set for the key if it does not already exist.
    /// The new value will only be visible to readers after the next call to `refresh()`.
    pub fn clear(&mut self, k: K)
        requires
            old(self).wf(),
        ensures
            final(self).wf(),
            final(self)@ == old(self)@.with_op(Operation::Clear(k)),
            final(self)@.latest() == old(self)@.latest().apply(Operation::Clear(k)),
            final(self)@.latest().sets == old(self)@.latest().sets.insert(k, Seq::empty()),
            final(self)@.visible == old(self)@.visible,
            final(self)@.meta == old(self)@.meta,
            final(self)@.first == old(self)@.first,
            final(self)@.wait == old(self)@.wait,
            final(self)@.pending() == if old(self)@.first {
                Seq::empty()
            } else {
                old(self)@.pending().push(Operation::Clear(k))
            },
    {
        proof {
            crate::elementary::law_latest_contents(self@);
            crate::elementary::law_clear_keeps_the_key(self@.latest(), k);
        }
        self.add_op(Operation::Clear(k));
    }

    /// Remove the given value from the value-set of the given key.
    ///
    /// The updated value-set will only be visible to readers after the next call to `refresh()`.
    pub fn remove(&mut self, k: K, v: V)
        requires
            old(self).wf(),
        ensures
            final(self).wf(),
            final(self)@ == old(self)@.with_op(Operation::Remove(k, v)),
            final(self)@.latest() == old(self)@.latest().apply(Operation::Remove(k, v)),
            !old(self)@.latest().sets.contains_key(k) ==> final(self)@.latest() == old(
                self,
            )@.latest(),
            old(self)@.latest().sets.contains_key(k) ==> final(self)@.latest().sets == old(
                self,
            )@.latest().sets.insert(k, final(self)@.latest().sets[k]),
            final(self)@.visible == old(self)@.visible,
            final(self)@.meta == old(self)@.meta,
            final(self)@.first == old(self)@.first,
            final(self)@.wait == old(self)@.wait,
            final(self)@.pending() == if old(self)@.first {
                Seq::empty()
            } else {
                old(self)@.pending().push(Operation::Remove(k, v))
            },
    {
        proof {
            crate::elementary::law_latest_contents(self@);
            crate::elementary::law_remove_takes_the_first_equal_value(self@.latest(), k, v);
        }
        self.add_op(Operation::Remove(k, v));
    }

    /// Remove the value-set for the given key.
    ///
    /// The value-set will only disappear from readers after the next call to `refresh()`.
    pub fn empty(&mut self, k: K)
        requires
            old(self).wf(),
        ensures
            final(self).wf(),
            final(self)@ == old(self)@.with_op(Operation::Empty(k)),
            final(self)@.latest() == old(self)@.latest().apply(Operation::Empty(k)),
            final(self)@.latest().sets == old(self)@.latest().sets.remove(k),
            final(self)@.visible == old(self)@.visible,
            final(self)@.meta == old(self)@.meta,
            final(self)@.first == old(self)@.first,
            final(self)@.wait == old(self)@.wait,
            final(self)@.pending() == if old(self)@.first {
                Seq::empty()
            } else {
                old(self)@.pending().push(Operation::Empty(k))
            },
    {
        proof {
            crate::elementary::law_latest_contents(self@);
            crate::elementary::law_empty_takes_the_key(self@.latest(), k);
        }
        self.add_op(Operation::Empty(k));
    }

    /// Remove the value-set for a key at a specified index.
    ///
    /// This is effectively random removal.
    /// The value-set will only disappear from readers after the next call to `refresh()`. What
    /// is returned stands at that index of the map that readers see now.
    pub fn empty_at_index(&mut self, index: usize) -> (entry: Option<(&K, &Vec<V>)>)
        requires
            old(self).wf(),
        ensures
            final(self).wf(),
            final(self)@ == old(self)@.with_op(Operation::EmptyRandom(index)),
            final(self)@.latest() == old(self)@.latest().apply(Operation::EmptyRandom(index)),
            index < old(self)@.latest().order.len() ==> final(self)@.latest().sets == old(
                self,
            )@.latest().sets.remove(old(self)@.latest().order[index as int]),
            index >= old(self)@.latest().order.len() ==> final(self)@.latest() == old(
                self,
            )@.latest(),
            final(self)@.visible == old(self)@.visible,
            final(self)@.meta == old(self)@.meta,
            final(self)@.first == old(self)@.first,
            final(self)@.wait == old(self)@.wait,
            final(self)@.pending() == if old(self)@.first {
                Seq::empty()
            } else {
                old(self)@.pending().push(Operation::EmptyRandom(index))
            },
            entry is Some <==> index < old(self)@.visible.contents.order.len(),
            entry matches Some((key, values)) ==> {
                &&& *key == old(self)@.visible.contents.order[index as int]
                &&& values@ == old(self)@.visible.contents.sets[*key]
            },
    {
        proof {
            crate::elementary::law_latest_contents(self@);
            crate::elementary::law_empty_random_takes_the_key_at_its_index(self@.latest(), index);
        }
        self.add_op(Operation::EmptyRandom(index));
        // NOTE: it is **NOT** okay to use the writer's copy here, since that does not have all
        // operations applied to it yet. Specifically, there may be an *eviction* that already has
        // been applied to the readers' copy, but not to the writer's.
        match self.r_handle.inner() {
            Some(inner) => inner.data.at_index(index),
            None => None,
        }
    }

    /// Add each of the given values to the value-set of its key.
    pub fn extend(&mut self, items: Vec<(K, V)>)
        requires
            old(self).wf(),
        ensures
            final(self).wf(),
            final(self)@ == old(self)@.with_ops(crate::state::additions(items@)),
            final(self)@.latest() == old(self)@.latest().replay(crate::state::additions(items@)),
            final(self)@.visible == old(self)@.visible,
            final(self)@.meta == old(self)@.meta,
            !old(self)@.first ==> final(self)@.pending().len() == old(self)@.pending().len()
                + items@.len(),
            !old(self)@.first ==> forall|i: int|
                0 <= i < items@.len() ==> #[trigger] final(self)@.pending()[old(
                    self,
                )@.pending().len() + i] == Operation::Add(items@[i].0, items@[i].1),
    {
        let ghost all = items@;
        let ghost ops = crate::state::additions(all);
        for item in it: items
            invariant
                self.wf(),
                it.seq() == all,
                ops == crate::state::additions(all),
                self@ == old(self)@.with_ops(ops.take(it.index() as int)),
                self@.latest() == old(self)@.latest().replay(ops.take(it.index() as int)),
        {
            let (k, v) = item;
            self.insert(k, v);
            assert(ops.take(it.index() + 1).drop_last() =~= ops.take(it.index() as int));
            assert(ops.take(it.index() + 1) =~= ops.take(it.index() as int).push(
                Operation::Add(k, v),
            ));
        }
        assert(ops.take(ops.len() as int) =~= ops);
    }
}

/// Allow using the write handle for reads.
impl<K, V, M, S> std::ops::Deref for WriteHandle<K, V, M, S>
where
    K: Eq + Hash + Clone,
    S: BuildHasher + Clone,
    V: Eq + ShallowCopy,
    M: 'static + Clone,
{
    type Target = ReadHandle<K, V, M, S>;

    fn deref(&self) -> (reader: &ReadHandle<K, V, M, S>)
        ensures
            self.wf() ==> reader.wf() && reader@ == Some(self@.visible),
    {
        &self.r_handle
    }
}

/// A handle on a map whose two copies are `w_handle` and what `r_handle` shows.
pub fn new<K, V, M, S>(w_handle: Inner<K, V, M, S>, r_handle: ReadHandle<K, V, M, S>) -> (handle:
    WriteHandle<K, V, M, S>)
where
    K: Eq + Hash + Clone,
    S: BuildHasher + Clone,
    V: Eq + ShallowCopy,
    M: 'static + Clone,

    requires
        lawful::<K, V, S>(),
        w_handle.data.wf(),
        r_handle.wf(),
        r_handle@ is Some,
        r_handle@->0.contents == Contents::<K, V>::empty(),
        !r_handle@->0.ready,
    ensures
        handle.wf(),
        cloned(w_handle.meta, handle@.meta),
        handle@ == (State {
            writer: w_handle@.contents,
            visible: r_handle@->0,
            oplog: Seq::empty(),
            swap_index: 0,
            meta: handle@.meta,
            first: true,
            second: false,
            wait: Wait::none(),
        }),
{
    let meta = w_handle.meta.clone();
    proof {
        w_handle.data.lemma_view_wf();
    }
    WriteHandle {
        w_handle: Slot::new(w_handle),
        oplog: Vec::new(),
        swap_index: 0,
        r_handle,
        epochs: EpochTracker::new(),
        meta,
        first: true,
        second: false,
    }
}

/// A handle on an empty map with this meta information, whose keys are hashed
/// with `hash_builder`.
pub fn create<K, V, M, S>(meta: M, hash_builder: S) -> (handle: WriteHandle<K, V, M, S>)
where
    K: Eq + Hash + Clone,
    S: BuildHasher + Clone,
    V: Eq + ShallowCopy,
    M: 'static + Clone,

    requires
        lawful::<K, V, S>(),
    ensures
        handle.wf(),
        handle@.first,
        handle@.latest() == Contents::<K, V>::empty(),
        handle@.latest().sets == Map::<K, Seq<V>>::empty(),
        handle@.visible.contents.sets == Map::<K, Seq<V>>::empty(),
        !handle@.visible.ready,
        handle@.pending().len() == 0,
        handle@.wait == Wait::none(),
        cloned(meta, handle@.visible.meta),
        cloned(meta, handle@.meta),
{
    let r_handle = ReadHandle::new(Inner::with_hasher(meta.clone(), hash_builder.clone()));
    let w_handle = Inner::with_hasher(meta, hash_builder);
    new(w_handle, r_handle)
}

} // verus!
