//! Values that both copies of the map can hold at once.

use std::sync::Arc;
use vstd::prelude::*;

verus! {

/// Types whose values can be copied cheaply, so that the two copies of a map
/// can hold the same value. A type that owns much data shares it between the
/// copies, as `Arc` does.
pub trait ShallowCopy: Sized {
    /// Makes another handle on this value.
    fn shallow_copy(&self) -> (copy: Self)
        ensures
            copy == *self,
    ;
}

impl ShallowCopy for i32 {
    fn shallow_copy(&self) -> Self {
        *self
    }
}

impl ShallowCopy for u64 {
    fn shallow_copy(&self) -> Self {
        *self
    }
}

impl ShallowCopy for usize {
    fn shallow_copy(&self) -> Self {
        *self
    }
}

impl ShallowCopy for char {
    fn shallow_copy(&self) -> Self {
        *self
    }
}

/// A string has no part to share: its copy is a clone.
impl ShallowCopy for String {
    fn shallow_copy(&self) -> Self {
        self.clone()
    }
}

impl<T> ShallowCopy for Arc<T> {
    fn shallow_copy(&self) -> Self {
        Arc::clone(self)
    }
}

impl<T: ShallowCopy, U: ShallowCopy> ShallowCopy for (T, U) {
    fn shallow_copy(&self) -> Self {
        (self.0.shallow_copy(), self.1.shallow_copy())
    }
}

} // verus!
