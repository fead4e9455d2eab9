//! An eventually consistent map, from keys to value-sets, for one writer and many
//! readers.
//!
//! The map is kept in two copies. Readers see one, and the writer brings the other
//! up to date from a log of the writes and then swaps the two. A write is visible
//! to readers once the map has been refreshed after it.

pub mod contents;
pub mod data;
pub mod elementary;
pub mod epochs;
pub mod inner;
pub mod laws;
pub mod operation;
pub mod read;
pub mod shallow_copy;
pub mod slot;
pub mod state;
pub mod write;
