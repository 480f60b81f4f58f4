//! The cache stores.
//!
//! Each store comes with a model of its state, a plain mathematical value
//! with the store's operations as functions on it. The executable operations
//! are specified as those functions, and what holds of every sequence of
//! operations is proved of the model.
use vstd::prelude::*;

pub mod sized;
pub mod timed;
pub mod unbound;

verus! {

/// One operation on a store, as the models see it.
pub enum Access<K, V> {
    /// A lookup of a key.
    Lookup(K),
    /// An insertion of a value under a key.
    Insert(K, V),
}

/// The smaller of a count of events and the largest value a counter takes.
pub open spec fn capped(events: nat) -> u32 {
    if events <= u32::MAX {
        events as u32
    } else {
        u32::MAX
    }
}

} // verus!
