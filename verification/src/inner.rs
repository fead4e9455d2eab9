//! One of the two copies of the map.

use crate::contents::Contents;
use crate::data::DataMap;
use std::hash::{BuildHasher, Hash};
use vstd::prelude::*;

verus! {

/// What a copy of the map says to a reader who looks at it.
#[verifier::ext_equal]
#[verifier::reject_recursive_types(K)]
#[verifier::reject_recursive_types(V)]
pub struct Snapshot<K, V, M> {
    pub contents: Contents<K, V>,
    pub meta: M,
    pub ready: bool,
}

impl<K, V, M> Snapshot<K, V, M> {
    /// What a lookup of `key` finds: nothing while the copy is not ready, and
    /// otherwise the value-set of the key, if the map has the key.
    pub open spec fn lookup(self, key: K) -> Option<Seq<V>> {
        if self.ready && self.contents.sets.contains_key(key) {
            Some(self.contents.sets[key])
        } else {
            None
        }
    }
}

/// A copy of the map, with the meta information that goes with it.
#[verifier::reject_recursive_types(K)]
#[verifier::reject_recursive_types(V)]
#[verifier::reject_recursive_types(S)]
pub struct Inner<K, V, M, S> {
    pub data: DataMap<K, V, S>,
    pub meta: M,
    pub ready: bool,
}

impl<K, V, M, S> View for Inner<K, V, M, S> {
    type V = Snapshot<K, V, M>;

    open spec fn view(&self) -> Snapshot<K, V, M> {
        Snapshot { contents: self.data@, meta: self.meta, ready: self.ready }
    }
}

impl<K: Eq + Hash + Clone, V, M, S: BuildHasher> Inner<K, V, M, S> {
    /// An empty copy that is not ready to be read.
    pub fn with_hasher(meta: M, hash_builder: S) -> (inner: Self)
        requires
            crate::data::lawful_keys::<K, S>(),
        ensures
            inner.data.wf(),
            inner@ == (Snapshot { contents: Contents::<K, V>::empty(), meta, ready: false }),
    {
        Inner { data: DataMap::with_hasher(hash_builder), meta, ready: false }
    }

    /// The value-set that a reader of this copy finds under `key`: none while
    /// the copy is not ready.
    pub fn lookup(&self, key: &K) -> (values: Option<&Vec<V>>)
        requires
            self.data.wf(),
        ensures
            values is Some <==> self@.lookup(*key) is Some,
            values matches Some(vs) ==> self@.lookup(*key) == Some(vs@),
            values is Some <==> self.ready && self@.contents.sets.contains_key(*key),
            values matches Some(vs) ==> vs@ == self@.contents.sets[*key],
    {
        if self.ready {
            self.data.get(key)
        } else {
            None
        }
    }

    /// Lets readers look at this copy.
    pub fn mark_ready(&mut self)
        ensures
            *final(self) == (Inner { ready: true, ..*old(self) }),
    {
        self.ready = true;
    }
}

} // verus!
