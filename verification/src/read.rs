//! The side of the map that readers see.

use crate::inner::{Inner, Snapshot};
use crate::slot::Slot;
use std::hash::{BuildHasher, Hash};
use vstd::prelude::*;

verus! {

/// What readers are shown: the copy of the map that was made visible last, or
/// nothing once the map has been destroyed.
#[verifier::reject_recursive_types(K)]
#[verifier::reject_recursive_types(V)]
#[verifier::reject_recursive_types(S)]
pub struct ReadHandle<K, V, M, S> {
    inner: Option<Slot<Inner<K, V, M, S>>>,
}

impl<K, V, M, S> View for ReadHandle<K, V, M, S> {
    type V = Option<Snapshot<K, V, M>>;

    closed spec fn view(&self) -> Option<Snapshot<K, V, M>> {
        match self.inner {
            Some(inner) => Some(inner@@),
            None => None,
        }
    }
}

/// What a lookup of `key` finds in what readers are shown: nothing in a map that
/// is destroyed.
pub open spec fn lookup<K, V, M>(shown: Option<Snapshot<K, V, M>>, key: K) -> Option<Seq<V>> {
    match shown {
        Some(snapshot) => snapshot.lookup(key),
        None => None,
    }
}

/// `f` may return `result` when it is called on a slice that holds `values`.
pub open spec fn gives<V, U, F: FnOnce(&[V]) -> U>(f: F, values: Seq<V>, result: U) -> bool {
    exists|slice: &[V]| slice@ == values && #[trigger] call_ensures(f, (slice,), result)
}

impl<K: Eq + Hash + Clone, V, M, S: BuildHasher> ReadHandle<K, V, M, S> {
    /// The copy that is shown is well-formed.
    pub closed spec fn wf(self) -> bool {
        self.inner matches Some(inner) ==> inner.wf() && inner@.data.wf()
    }

    /// A handle that shows `inner`.
    pub fn new(inner: Inner<K, V, M, S>) -> (handle: Self)
        requires
            inner.data.wf(),
        ensures
            handle.wf(),
            handle@ == Some(inner@),
    {
        ReadHandle { inner: Some(Slot::new(inner)) }
    }

    /// The copy that is shown.
    pub fn inner(&self) -> (inner: Option<&Inner<K, V, M, S>>)
        requires
            self.wf(),
        ensures
            inner is Some <==> self@ is Some,
            inner matches Some(i) ==> i.data.wf() && self@ == Some(i@),
    {
        match &self.inner {
            Some(inner) => Some(inner.get()),
            None => None,
        }
    }

    /// Shows `fresh` from now on, and gives back the copy that was shown.
    pub(crate) fn swap(&mut self, fresh: Slot<Inner<K, V, M, S>>) -> (stale: Option<
        Slot<Inner<K, V, M, S>>,
    >)
        requires
            old(self).wf(),
            fresh.wf(),
            fresh@.data.wf(),
        ensures
            final(self).wf(),
            final(self)@ == Some(fresh@@),
            stale is Some <==> old(self)@ is Some,
            stale matches Some(s) ==> s.wf() && s@.data.wf() && old(self)@ == Some(s@@),
    {
        let stale = self.inner.take();
        self.inner = Some(fresh);
        stale
    }

    /// Shows nothing from now on, and gives back the copy that was shown.
    pub(crate) fn take(&mut self) -> (stale: Option<Slot<Inner<K, V, M, S>>>)
        requires
            old(self).wf(),
        ensures
            final(self).wf(),
            final(self)@ is None,
            stale is Some <==> old(self)@ is Some,
            stale matches Some(s) ==> s.wf() && s@.data.wf() && old(self)@ == Some(s@@),
    {
        self.inner.take()
    }

    /// Looks up `key`, and applies `apply` to its value-set.
    pub fn get_and<U, F: FnOnce(&[V]) -> U>(&self, key: &K, apply: F) -> (result: Option<U>)
        requires
            self.wf(),
            forall|values: &[V]|
                lookup(self@, *key) == Some(values@) ==> #[trigger] call_requires(apply, (values,)),
        ensures
            match lookup(self@, *key) {
                Some(values) => result is Some && gives(apply, values, result->0),
                None => result is None,
            },
            result is Some <==> (self@ matches Some(snapshot) && snapshot.ready
                && snapshot.contents.sets.contains_key(*key)),
            result is Some ==> gives(apply, self@->0.contents.sets[*key], result->0),
    {
        match &self.inner {
            Some(inner) => match inner.get().lookup(key) {
                Some(values) => {
                    let shown = values.as_slice();
                    let result = apply(shown);
                    assert(call_ensures(apply, (shown,), result));
                    assert(gives(apply, shown@, result));
                    Some(result)
                },
                None => None,
            },
            None => None,
        }
    }

    /// The number of keys that are shown.
    pub fn len(&self) -> (n: usize)
        requires
            self.wf(),
        ensures
            n == match self@ {
                Some(snapshot) => snapshot.contents.order.len(),
                None => 0,
            },
            self@ matches Some(snapshot) ==> n == snapshot.contents.sets.len(),
    {
        match &self.inner {
            Some(inner) => inner.get().data.len(),
            None => 0,
        }
    }

    /// The meta information that is shown.
    pub fn meta(&self) -> (meta: Option<&M>)
        requires
            self.wf(),
        ensures
            meta is Some <==> self@ is Some,
            meta matches Some(m) ==> *m == self@->0.meta,
    {
        match &self.inner {
            Some(inner) => Some(&inner.get().meta),
            None => None,
        }
    }

    /// Whether the map has been destroyed.
    pub fn is_destroyed(&self) -> (destroyed: bool)
        ensures
            destroyed == (self@ is None),
    {
        self.inner.is_none()
    }
}

} // verus!
