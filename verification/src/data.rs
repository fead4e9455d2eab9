//! The keyed, indexable store of one copy of the map.

use crate::contents::Contents;
use crate::shallow_copy::ShallowCopy;
use std::collections::HashMap;
use std::hash::{BuildHasher, Hash};
use vstd::prelude::*;

verus! {

/// `HashMap::with_hasher` gives an empty map.
pub assume_specification<K, V, S>[ std::collections::HashMap::<K, V, S>::with_hasher ](hash_builder: S) -> (map: HashMap<K, V, S>)
    ensures
        map@ == (Map::<K, V>::empty()),
;

/// The type of keys and the hasher do what a hash map asks of them: equal keys
/// are the same and hash alike, and a clone of a key is that key.
pub open spec fn lawful_keys<K: Eq + Hash + Clone, S: BuildHasher>() -> bool {
    &&& vstd::std_specs::hash::obeys_key_model::<K>()
    &&& vstd::std_specs::hash::builds_valid_hashers::<S>()
    &&& forall|a: K, b: K| #[trigger] call_ensures(K::clone, (&a,), b) ==> a == b
}

/// A key with its value-set.
pub struct Entry<K, V> {
    key: K,
    values: Vec<V>,
}

/// A map from keys to value-sets whose keys can also be reached by index.
/// The entries stand in a vector, and a hash map finds the entry of a key.
#[verifier::reject_recursive_types(K)]
#[verifier::reject_recursive_types(V)]
#[verifier::reject_recursive_types(S)]
pub struct DataMap<K, V, S> {
    slots: HashMap<K, usize, S>,
    entries: Vec<Entry<K, V>>,
}

impl<K, V, S> View for DataMap<K, V, S> {
    type V = Contents<K, V>;

    closed spec fn view(&self) -> Contents<K, V> {
        Contents {
            order: self.entries@.map_values(|e: Entry<K, V>| e.key),
            sets: Map::new(
                |k: K| self.slots@.contains_key(k),
                |k: K| self.entries@[self.slots@[k] as int].values@,
            ),
        }
    }
}

impl<K: Eq + Hash + Clone, V, S: BuildHasher> DataMap<K, V, S> {
    /// The hash map holds the index of each entry under the key of that entry.
    pub closed spec fn wf(self) -> bool {
        &&& lawful_keys::<K, S>()
        &&& forall|k: K| #[trigger]
            self.slots@.contains_key(k) ==> self.slots@[k] < self.entries@.len()
                && self.entries@[self.slots@[k] as int].key == k
        &&& forall|i: int|
            0 <= i < self.entries@.len() ==> self.slots@.contains_key(
                (#[trigger] self.entries@[i]).key,
            ) && self.slots@[self.entries@[i].key] == i
    }

    /// An empty map that hashes its keys with `hash_builder`.
    pub fn with_hasher(hash_builder: S) -> (map: Self)
        requires
            lawful_keys::<K, S>(),
        ensures
            map.wf(),
            map@ == Contents::<K, V>::empty(),
    {
        let map = DataMap { slots: HashMap::with_hasher(hash_builder), entries: Vec::new() };
        assert(map@ =~= Contents::<K, V>::empty());
        map
    }

    /// The order of a well-formed map counts each key once.
    pub proof fn lemma_view_wf(self)
        requires
            self.wf(),
        ensures
            self@.wf(),
    {
        let order = self@.order;
        assert forall|k: K| #[trigger] order.contains(k) <==> self@.sets.contains_key(k) by {
            if order.contains(k) {
                let i = choose|i: int| 0 <= i < order.len() && order[i] == k;
                assert(self.entries@[i].key == k);
            }
            if self@.sets.contains_key(k) {
                assert(order[self.slots@[k] as int] == k);
            }
        }
        assert forall|i: int, j: int|
            0 <= i < order.len() && 0 <= j < order.len() && i != j implies order[i] != order[j] by {
            assert(self.slots@[self.entries@[i].key] == i);
            assert(self.slots@[self.entries@[j].key] == j);
        }
    }

    /// The number of keys.
    pub fn len(&self) -> (n: usize)
        requires
            self.wf(),
        ensures
            n == self@.order.len(),
            n == self@.sets.len(),
    {
        proof {
            self.lemma_view_wf();
            crate::elementary::law_order_counts_the_keys(self@);
        }
        self.entries.len()
    }

    /// The value-set of `key`.
    pub fn get(&self, key: &K) -> (values: Option<&Vec<V>>)
        requires
            self.wf(),
        ensures
            values is Some <==> self@.sets.contains_key(*key),
            values matches Some(vs) ==> vs@ == self@.sets[*key],
    {
        match self.slots.get(key) {
            Some(slot) => Some(&self.entries[*slot].values),
            None => None,
        }
    }

    /// The key at `index`, with its value-set.
    pub fn at_index(&self, index: usize) -> (entry: Option<(&K, &Vec<V>)>)
        requires
            self.wf(),
        ensures
            entry is Some <==> index < self@.order.len(),
            entry matches Some((key, values)) ==> *key == self@.order[index as int] && values@
                == self@.sets[*key],
    {
        if index < self.entries.len() {
            let entry = &self.entries[index];
            Some((&entry.key, &entry.values))
        } else {
            None
        }
    }

    /// The value-set of `key`, to be changed in place. A key that the map lacks
    /// is added first, with an empty value-set.
    pub fn entry(&mut self, key: K) -> (values: &mut Vec<V>)
        requires
            old(self).wf(),
        ensures
            values@ == old(self)@.values(key),
            final(self).wf(),
            final(self)@ == old(self)@.put(key, final(values)@),
    {
        let slot: usize = match self.slots.get(&key) {
            Some(slot) => *slot,
            None => {
                let slot: usize = self.entries.len();
                self.slots.insert(key.clone(), slot);
                self.entries.push(Entry { key, values: Vec::new() });
                slot
            },
        };
        &mut self.entries[slot].values
    }

    /// The value-set of a key that the map has, to be changed in place.
    pub fn get_mut(&mut self, key: &K) -> (values: Option<&mut Vec<V>>)
        requires
            old(self).wf(),
        ensures
            values is Some <==> old(self)@.sets.contains_key(*key),
            final(self).wf(),
            match values {
                Some(vs) => vs@ == old(self)@.sets[*key] && final(self)@ == old(self)@.put(
                    *key,
                    final(vs)@,
                ),
                None => final(self)@ == old(self)@,
            },
    {
        let slot: usize = match self.slots.get(key) {
            Some(slot) => *slot,
            None => {
                return None;
            },
        };
        Some(&mut self.entries[slot].values)
    }

    /// Takes out the key at `index`, with its value-set.
    pub fn remove_at_index(&mut self, index: usize) -> (entry: Option<(K, Vec<V>)>)
        requires
            old(self).wf(),
        ensures
            final(self).wf(),
            final(self)@ == old(self)@.remove_at(index as int),
            entry is Some <==> index < old(self)@.order.len(),
            entry matches Some((key, values)) ==> key == old(self)@.order[index as int] && values@
                == old(self)@.sets[key],
    {
        if index >= self.entries.len() {
            return None;
        }
        let entry = self.entries.swap_remove(index);
        self.slots.remove(&entry.key);
        if index < self.entries.len() {
            let moved = self.entries[index].key.clone();
            self.slots.insert(moved, index);
        }
        assert(self@ =~~= old(self)@.remove_at(index as int));
        Some((entry.key, entry.values))
    }

    /// Takes out `key`, and gives its value-set.
    pub fn remove(&mut self, key: &K) -> (values: Option<Vec<V>>)
        requires
            old(self).wf(),
        ensures
            final(self).wf(),
            final(self)@ == old(self)@.remove(*key),
            values is Some <==> old(self)@.sets.contains_key(*key),
            values matches Some(vs) ==> vs@ == old(self)@.sets[*key],
    {
        let slot: usize = match self.slots.get(key) {
            Some(slot) => *slot,
            None => {
                return None;
            },
        };
        proof {
            self.lemma_view_wf();
            crate::contents::lemma_index_of(self@.order, slot as int);
        }
        match self.remove_at_index(slot) {
            Some((_, values)) => Some(values),
            None => None,
        }
    }

    /// Takes out every key.
    pub fn clear(&mut self)
        requires
            old(self).wf(),
        ensures
            final(self).wf(),
            final(self)@ == Contents::<K, V>::empty(),
    {
        self.slots.clear();
        self.entries.clear();
        assert(self@ =~= Contents::<K, V>::empty());
    }
}

/// A copy of each value of `values`, in the same order.
fn copy_values<V: ShallowCopy>(values: &Vec<V>) -> (copy: Vec<V>)
    ensures
        copy@ == values@,
{
    let mut copy: Vec<V> = Vec::with_capacity(values.len());
    for i in 0..values.len()
        invariant
            copy@ == values@.take(i as int),
    {
        copy.push(values[i].shallow_copy());
    }
    copy
}

impl<K: Eq + Hash + Clone, V: ShallowCopy, S: BuildHasher> DataMap<K, V, S> {
    /// Fills an empty map with what `other` holds, each value copied.
    pub fn extend_from(&mut self, other: &Self)
        requires
            old(self).wf(),
            old(self)@ == Contents::<K, V>::empty(),
            other.wf(),
        ensures
            final(self).wf(),
            final(self)@ == other@,
    {
        assert(self.entries@.len() == self@.order.len());
        for i in 0..other.entries.len()
            invariant
                self.wf(),
                other.wf(),
                self.entries@.len() == i,
                forall|j: int|
                    0 <= j < i ==> (#[trigger] self.entries@[j]).key == other.entries@[j].key
                        && self.entries@[j].values@ == other.entries@[j].values@,
        {
            let entry = &other.entries[i];
            assert(!self.slots@.contains_key(entry.key));
            self.slots.insert(entry.key.clone(), i);
            self.entries.push(Entry { key: entry.key.clone(), values: copy_values(&entry.values) });
        }
        assert(self@.order =~= other@.order);
        assert(self@.sets =~= other@.sets) by {
            assert forall|k: K| self@.sets.contains_key(k) <==> other@.sets.contains_key(k) by {
                if self.slots@.contains_key(k) {
                    assert(other.entries@[self.slots@[k] as int].key == k);
                }
                if other.slots@.contains_key(k) {
                    assert(self.entries@[other.slots@[k] as int].key == k);
                }
            }
        }
    }
}

} // verus!
