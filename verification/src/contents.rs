//! What one copy of the map holds, as a mathematical value, and what each
//! operation does to it.

use crate::operation::Operation;
use vstd::prelude::*;
use vstd::std_specs::cmp::PartialEqSpec;

verus! {

/// `s` with the element at `i` taken out and the last element put in its place.
pub open spec fn swap_out<T>(s: Seq<T>, i: int) -> Seq<T> {
    s.update(i, s.last()).drop_last()
}

/// `values[i]` is the first element that equals `value`.
pub open spec fn is_first_match<V: PartialEq>(values: Seq<V>, value: V, i: int) -> bool {
    &&& 0 <= i < values.len()
    &&& values[i].eq_spec(&value)
    &&& forall|j: int| 0 <= j < i ==> !(#[trigger] values[j]).eq_spec(&value)
}

/// `values` without its first element that equals `value`, if there is one.
pub open spec fn without_first<V: PartialEq>(values: Seq<V>, value: V) -> Seq<V> {
    if exists|i: int| is_first_match(values, value, i) {
        swap_out(values, choose|i: int| is_first_match(values, value, i))
    } else {
        values
    }
}

/// The keys of the map with their value-sets, and the order in which an index
/// counts the keys. A value-set is a sequence: it may hold a value repeatedly.
#[verifier::ext_equal]
#[verifier::reject_recursive_types(K)]
#[verifier::reject_recursive_types(V)]
pub struct Contents<K, V> {
    pub order: Seq<K>,
    pub sets: Map<K, Seq<V>>,
}

impl<K, V> Contents<K, V> {
    pub open spec fn empty() -> Self {
        Contents { order: Seq::empty(), sets: Map::empty() }
    }

    /// The order counts each key of the map once, and no other.
    pub open spec fn wf(self) -> bool {
        &&& self.order.no_duplicates()
        &&& forall|k: K| #[trigger] self.order.contains(k) <==> self.sets.contains_key(k)
    }

    /// The value-set of `key`, which is empty where the map lacks the key.
    pub open spec fn values(self, key: K) -> Seq<V> {
        if self.sets.contains_key(key) {
            self.sets[key]
        } else {
            Seq::empty()
        }
    }

    /// `values` becomes the value-set of `key`; a new key comes last in the order.
    pub open spec fn put(self, key: K, values: Seq<V>) -> Self {
        Contents {
            order: if self.sets.contains_key(key) {
                self.order
            } else {
                self.order.push(key)
            },
            sets: self.sets.insert(key, values),
        }
    }

    /// The key at `index` goes, and the last key takes its place in the order.
    pub open spec fn remove_at(self, index: int) -> Self {
        if 0 <= index < self.order.len() {
            Contents {
                order: swap_out(self.order, index),
                sets: self.sets.remove(self.order[index]),
            }
        } else {
            self
        }
    }

    /// `key` goes, and the last key takes its place in the order.
    pub open spec fn remove(self, key: K) -> Self {
        if self.sets.contains_key(key) {
            self.remove_at(self.order.index_of(key))
        } else {
            self
        }
    }
}

impl<K, V: PartialEq> Contents<K, V> {
    /// The contents once `op` has been applied to them.
    pub open spec fn apply(self, op: Operation<K, V>) -> Self {
        match op {
            Operation::Replace(key, value) => self.put(key, seq![value]),
            Operation::Add(key, value) => self.put(key, self.values(key).push(value)),
            Operation::Remove(key, value) => if self.sets.contains_key(key) {
                self.put(key, without_first(self.sets[key], value))
            } else {
                self
            },
            Operation::Empty(key) => self.remove(key),
            Operation::Clear(key) => self.put(key, Seq::empty()),
            Operation::EmptyRandom(index) => self.remove_at(index as int),
        }
    }

    /// The contents once every operation of `ops` has been applied, in order.
    pub open spec fn replay(self, ops: Seq<Operation<K, V>>) -> Self
        decreases ops.len(),
    {
        if ops.len() == 0 {
            self
        } else {
            self.replay(ops.drop_last()).apply(ops.last())
        }
    }
}

/// There is only one first match.
pub proof fn lemma_first_match_unique<V: PartialEq>(values: Seq<V>, value: V, i: int, j: int)
    requires
        is_first_match(values, value, i),
        is_first_match(values, value, j),
    ensures
        i == j,
{
    if i < j {
        assert(!values[i].eq_spec(&value));
    } else if j < i {
        assert(!values[j].eq_spec(&value));
    }
}

/// In an order without duplicates a key stands at one index only.
pub proof fn lemma_index_of<K>(order: Seq<K>, i: int)
    requires
        order.no_duplicates(),
        0 <= i < order.len(),
    ensures
        order.index_of(order[i]) == i,
{
    let j = order.index_of(order[i]);
    assert(0 <= j < order.len() && order[j] == order[i]);
}

/// Contents whose order counts no key are empty.
pub proof fn lemma_no_keys<K, V>(contents: Contents<K, V>)
    requires
        contents.wf(),
        contents.order.len() == 0,
    ensures
        contents == Contents::<K, V>::empty(),
{
    assert forall|k: K| !contents.sets.contains_key(k) by {
        assert(!contents.order.contains(k));
    }
    assert(contents =~= Contents::<K, V>::empty());
}

} // verus!
