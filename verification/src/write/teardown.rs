//! The end of a map, one step at a time: between the steps readers are led
//! elsewhere, and the writer waits for them to arrive there.

use crate::contents::Contents;
use crate::epochs::WaitAction;
use crate::inner::{Inner, Snapshot};
use crate::read::ReadHandle;
use crate::shallow_copy::ShallowCopy;
use crate::slot::Slot;
use crate::state::State;
use crate::write::WriteHandle;
use std::hash::{BuildHasher, Hash};
use vstd::prelude::*;

verus! {

/// How far the end of a map has come.
#[derive(Clone, Copy, Debug, PartialEq, Eq)]
pub enum Stage {
    /// The writer goes away, and the readers keep the map: the log has to run
    /// empty.
    Close,
    /// The map goes away: this many refreshes bring both copies up to date.
    Destroy(usize),
    /// The readers have been led to nothing.
    Withdrawn,
    /// All is done.
    Finished,
}

/// What follows a step.
#[derive(Clone, Copy, Debug, PartialEq, Eq)]
pub enum TeardownAction {
    /// Lead readers to the copy that is shown now, then note their epochs.
    Publish,
    /// Lead readers to nothing, then note their epochs.
    Withdraw,
    /// Nothing is left to do.
    Finished,
}

/// A map that is coming to its end.
#[verifier::reject_recursive_types(K)]
#[verifier::reject_recursive_types(V)]
#[verifier::reject_recursive_types(S)]
pub struct Teardown<K, V, M, S> {
    handle: WriteHandle<K, V, M, S>,
    retired: Option<Slot<Inner<K, V, M, S>>>,
    stage: Stage,
}

/// A map that is coming to its end, as a mathematical value.
#[verifier::ext_equal]
#[verifier::reject_recursive_types(K)]
#[verifier::reject_recursive_types(V)]
pub struct TeardownState<K, V, M> {
    /// The state of the write handle. Once the copy that readers see has been
    /// withdrawn, what it says of that copy has no meaning.
    pub handle: State<K, V, M>,
    /// What readers see.
    pub shown: Option<Snapshot<K, V, M>>,
    /// The copy that was withdrawn, and that readers may still be on.
    pub retired: Option<Snapshot<K, V, M>>,
    pub stage: Stage,
}

impl<K, V, M, S> View for Teardown<K, V, M, S> {
    type V = TeardownState<K, V, M>;

    closed spec fn view(&self) -> TeardownState<K, V, M> {
        TeardownState {
            handle: self.handle@,
            shown: self.handle.r_handle@,
            retired: match self.retired {
                Some(inner) => Some(inner@@),
                None => None,
            },
            stage: self.stage,
        }
    }
}

impl<K, V: PartialEq, M> TeardownState<K, V, M> {
    /// While readers see a copy, the handle is sound. A map that is destroyed
    /// is up to date in both copies before it is withdrawn.
    pub open spec fn inv(self) -> bool {
        &&& self.handle.wait.inv()
        &&& match self.stage {
            Stage::Close => self.live(),
            Stage::Destroy(left) => {
                &&& self.live()
                &&& left <= 2
                &&& left < 2 ==> !self.handle.first && self.handle.pending().len() == 0
                &&& left < 1 ==> self.handle.settled()
            },
            Stage::Withdrawn => {
                &&& self.shown is None
                &&& self.retired is Some
                &&& self.retired->0.contents == self.handle.writer
                &&& self.handle.oplog.len() == 0
            },
            Stage::Finished => {
                &&& self.retired is None
                &&& self.handle.writer == Contents::<K, V>::empty()
                &&& self.handle.oplog.len() == 0
            },
        }
    }

    /// The map and its stage are the same; more or less may be known of where
    /// the readers are.
    pub open spec fn same_but_wait(self, other: Self) -> bool {
        &&& self.handle.wait.inv()
        &&& self == TeardownState {
            handle: State { wait: self.handle.wait, ..other.handle },
            ..other
        }
    }

    /// Only what readers see is left.
    pub open spec fn finished(self) -> Self {
        TeardownState {
            handle: State { writer: Contents::empty(), ..self.handle },
            retired: None,
            stage: Stage::Finished,
            ..self
        }
    }

    /// Readers see what the handle shows.
    pub open spec fn live(self) -> bool {
        &&& self.handle.inv()
        &&& self.shown == Some(self.handle.visible)
        &&& self.retired is None
    }
}

impl<K, V: PartialEq, M: Clone> TeardownState<K, V, M> {
    /// `after` comes from `self` by a refresh, and is at `stage`.
    pub open spec fn refreshes_to(self, after: Self, stage: Stage) -> bool {
        let meta = after.handle.visible.meta;
        &&& cloned(self.handle.meta, meta)
        &&& after == TeardownState {
            handle: self.handle.refreshed(meta),
            shown: Some(self.handle.refreshed(meta).visible),
            stage,
            ..self
        }
    }

    /// `after` comes from `self` by one step, which `action` has to follow.
    ///
    /// A map that is closed is refreshed as long as the log holds anything. A
    /// map that is destroyed is refreshed as often as its stage says, then it is
    /// withdrawn, and then both copies go.
    pub open spec fn steps_to(self, after: Self, action: TeardownAction) -> bool {
        match self.stage {
            Stage::Close => if self.handle.oplog.len() > 0 {
                &&& action == TeardownAction::Publish
                &&& self.refreshes_to(after, Stage::Close)
            } else {
                &&& action == TeardownAction::Finished
                &&& after == self.finished()
            },
            Stage::Destroy(left) => if left > 0 {
                &&& action == TeardownAction::Publish
                &&& self.refreshes_to(after, Stage::Destroy((left - 1) as usize))
            } else {
                &&& action == TeardownAction::Withdraw
                &&& after == TeardownState {
                    handle: State {
                        visible: after.handle.visible,
                        wait: self.handle.wait.swapped(),
                        ..self.handle
                    },
                    shown: None,
                    retired: self.shown,
                    stage: Stage::Withdrawn,
                }
            },
            Stage::Withdrawn => {
                &&& action == TeardownAction::Finished
                &&& after == self.finished()
            },
            Stage::Finished => false,
        }
    }
}

impl<K, V, M, S> Teardown<K, V, M, S>
where
    K: Eq + Hash + Clone,
    S: BuildHasher + Clone,
    V: Eq + ShallowCopy,
    M: 'static + Clone,
{
    /// The stores behind the copies are sound.
    pub closed spec fn stores_wf(self) -> bool {
        &&& crate::write::lawful::<K, V, S>()
        &&& self.handle.w_handle.wf()
        &&& self.handle.w_handle@.data.wf()
        &&& self.handle.r_handle.wf()
    }

    /// The teardown is sound.
    pub open spec fn wf(self) -> bool {
        self.stores_wf() && self@.inv()
    }

    /// Begins the end of the map of `handle`.
    pub(crate) fn begin(handle: WriteHandle<K, V, M, S>, stage: Stage) -> (teardown: Self)
        requires
            handle.wf(),
            stage == Stage::Close || stage == Stage::Destroy(2),
        ensures
            teardown.wf(),
            teardown@ == (TeardownState {
                handle: handle@,
                shown: Some(handle@.visible),
                retired: None,
                stage,
            }),
    {
        Teardown { handle, retired: None, stage }
    }

    /// What readers see.
    pub fn reader(&self) -> (reader: &ReadHandle<K, V, M, S>)
        requires
            self.wf(),
        ensures
            reader.wf(),
            reader@ == self@.shown,
    {
        &self.handle.r_handle
    }

    /// Begins to wait for the readers, as `WriteHandle::wait` does.
    pub fn wait(&mut self, readers: usize) -> (action: WaitAction)
        requires
            old(self).wf(),
            !old(self)@.handle.wait.due,
        ensures
            final(self).wf(),
            final(self)@ == (TeardownState {
                handle: State {
                    wait: old(self)@.handle.wait.started(readers as nat),
                    ..old(self)@.handle
                },
                ..old(self)@
            }),
            action == final(self)@.handle.wait.action(),
    {
        self.handle.epochs.wait(readers)
    }

    /// Goes on waiting, as `WriteHandle::observe` does.
    pub fn observe(&mut self, now: usize) -> (action: WaitAction)
        requires
            old(self).wf(),
            old(self)@.handle.wait.waiting(),
        ensures
            final(self).wf(),
            final(self)@ == (TeardownState {
                handle: State {
                    wait: old(self)@.handle.wait.observed(now),
                    ..old(self)@.handle
                },
                ..old(self)@
            }),
            action == old(self)@.handle.wait.action_after(now),
    {
        self.handle.epochs.observe(now)
    }

    /// Notes the epochs of the readers, as `WriteHandle::record_epochs` does.
    pub fn record_epochs(&mut self, epochs: &[usize])
        requires
            old(self).wf(),
        ensures
            final(self).wf(),
            final(self)@ == (TeardownState {
                handle: State {
                    wait: old(self)@.handle.wait.recorded(epochs@),
                    ..old(self)@.handle
                },
                ..old(self)@
            }),
    {
        self.handle.epochs.record(epochs);
    }

    /// Takes the next step, for which every reader must have left the copy that
    /// is not shown, and says what has to follow.
    pub fn advance(&mut self) -> (action: TeardownAction)
        requires
            old(self).wf(),
            old(self)@.handle.wait.all_departed(),
            old(self)@.stage != Stage::Finished,
        ensures
            final(self).wf(),
            old(self)@.steps_to(final(self)@, action),
    {
        match self.stage {
            Stage::Close => {
                if self.handle.oplog.len() > 0 {
                    self.handle.refresh();
                    TeardownAction::Publish
                } else {
                    self.finish()
                }
            },
            Stage::Destroy(left) => {
                if left > 0 {
                    self.handle.refresh();
                    self.stage = Stage::Destroy(left - 1);
                    TeardownAction::Publish
                } else {
                    self.retired = self.handle.r_handle.take();
                    self.handle.epochs.swapped();
                    self.stage = Stage::Withdrawn;
                    TeardownAction::Withdraw
                }
            },
            _ => self.finish(),
        }
    }

    /// Lets go of the copies that readers do not see.
    fn finish(&mut self) -> (action: TeardownAction)
        requires
            old(self).stores_wf(),
            old(self)@.handle.wait.inv(),
            old(self)@.handle.oplog.len() == 0,
        ensures
            final(self).wf(),
            action == TeardownAction::Finished,
            final(self)@ == old(self)@.finished(),
    {
        self.handle.w_handle.get_mut().data.clear();
        self.retired = None;
        self.stage = Stage::Finished;
        TeardownAction::Finished
    }
}

} // verus!
