//! The log entries that writes are recorded as.

use vstd::prelude::*;

verus! {

/// A write to the map, as it waits in the log to reach both copies.
#[derive(Debug, PartialEq, Eq)]
pub enum Operation<K, V> {
    /// Replace the value-set of the key with one that holds this value alone.
    Replace(K, V),
    /// Add the value to the value-set of the key.
    Add(K, V),
    /// Remove the value from the value-set of the key.
    Remove(K, V),
    /// Remove the key and its value-set.
    Empty(K),
    /// Clear the value-set of the key without removing the key.
    Clear(K),
    /// Remove the key at this index, and its value-set.
    EmptyRandom(usize),
}

} // verus!
