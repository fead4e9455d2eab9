//! The state of a write handle, as a mathematical value.

use crate::contents::Contents;
use crate::epochs::Wait;
use crate::inner::Snapshot;
use crate::operation::Operation;
use vstd::prelude::*;

verus! {

/// The two copies of the map, and the log of the writes that have not reached
/// both of them.
#[verifier::ext_equal]
#[verifier::reject_recursive_types(K)]
#[verifier::reject_recursive_types(V)]
pub struct State<K, V, M> {
    /// The copy that only the writer sees.
    pub writer: Contents<K, V>,
    /// The copy that readers see.
    pub visible: Snapshot<K, V, M>,
    /// The operations that at least one copy lacks.
    pub oplog: Seq<Operation<K, V>>,
    /// The readers' copy has the operations before this index.
    pub swap_index: int,
    /// The meta information that the next refresh makes visible.
    pub meta: M,
    /// There has been no refresh.
    pub first: bool,
    /// There has been one refresh.
    pub second: bool,
    /// What is known of where the readers are.
    pub wait: Wait,
}

impl<K, V: PartialEq, M> State<K, V, M> {
    /// Before the first refresh writes go straight to the writer's copy. Then
    /// that copy is the visible one, and the other is empty until the second
    /// refresh. From then on the visible copy is ahead of the writer's by the
    /// operations before the swap index.
    pub open spec fn inv(self) -> bool {
        &&& self.writer.wf()
        &&& self.visible.contents.wf()
        &&& self.wait.inv()
        &&& 0 <= self.swap_index <= self.oplog.len()
        &&& self.visible.ready == !self.first
        &&& self.first ==> !self.second && self.oplog.len() == 0 && self.visible.contents
            == Contents::<K, V>::empty()
        &&& self.second ==> self.swap_index == 0 && self.writer == Contents::<K, V>::empty()
        &&& !self.first && !self.second ==> self.visible.contents == self.writer.replay(
            self.oplog.take(self.swap_index),
        )
    }

    /// The operations that readers do not see yet.
    pub open spec fn pending(self) -> Seq<Operation<K, V>> {
        self.oplog.skip(self.swap_index)
    }

    /// What the map holds once every write has taken effect.
    pub open spec fn latest(self) -> Contents<K, V> {
        if self.first {
            self.writer
        } else {
            self.visible.contents.replay(self.pending())
        }
    }

    /// Some write may not be visible to readers: it waits in the log, or went
    /// straight to the writer's copy before there was any refresh.
    pub open spec fn unseen(self) -> bool {
        self.pending().len() > 0 || self.first && self.writer.order.len() > 0
    }

    /// Both copies hold the same, and no write is on its way to either.
    pub open spec fn settled(self) -> bool {
        &&& !self.first
        &&& !self.second
        &&& self.oplog.len() == 0
        &&& self.writer == self.visible.contents
    }

    /// The state once `op` has been written.
    pub open spec fn with_op(self, op: Operation<K, V>) -> Self {
        if self.first {
            State { writer: self.writer.apply(op), ..self }
        } else {
            State { oplog: self.oplog.push(op), ..self }
        }
    }

    /// The state once `ops` have been written, in order.
    pub open spec fn with_ops(self, ops: Seq<Operation<K, V>>) -> Self {
        if self.first {
            State { writer: self.writer.replay(ops), ..self }
        } else {
            State { oplog: self.oplog + ops, ..self }
        }
    }

    /// The state after a refresh that shows `meta` to the readers: they see
    /// every write, and the writer gets the copy that they saw before.
    pub open spec fn refreshed(self, meta: M) -> Self {
        State {
            writer: self.visible.contents,
            visible: Snapshot { contents: self.latest(), meta, ready: true },
            oplog: self.pending(),
            swap_index: self.pending().len() as int,
            meta: self.meta,
            first: false,
            second: self.first,
            wait: self.wait.swapped(),
        }
    }
}

/// The operations that add each pair of `items`.
pub open spec fn additions<K, V>(items: Seq<(K, V)>) -> Seq<Operation<K, V>> {
    items.map_values(|item: (K, V)| Operation::Add(item.0, item.1))
}

} // verus!
