//! Caching structures and a memoization protocol on top of them.
//!
//! Three stores share one contract, [`Cached`]:
//!
//! - [`UnboundCache`] keeps every entry;
//! - [`SizedCache`] keeps at most a fixed number of entries and evicts the
//!   least recently used one;
//! - [`TimedCache`] treats an entry as absent once it is older than a fixed
//!   lifespan, and drops it when a read finds it so.
//!
//! The [`memo`] module holds the steps by which a function's results are
//! cached under a key derived from its arguments.
//!
//! Every store has a mathematical model (its view), and every operation states
//! in its contract which model state it leaves behind and what it returns.
use vstd::prelude::*;

pub mod clock;
pub mod memo;
pub mod stores;

pub use stores::sized::SizedCache;
pub use stores::timed::TimedCache;
pub use stores::unbound::UnboundCache;

verus! {

/// A counter after one more event, if `happened`: counters stop at `u32::MAX`
/// instead of wrapping around. A store that keeps no statistics has no
/// counter, before or after.
pub open spec fn counted(count: Option<u32>, happened: bool) -> Option<u32> {
    match count {
        Some(n) => if happened {
            Some(n.saturating_add(1u32))
        } else {
            Some(n)
        },
        None => None,
    }
}

/// Cache operations.
///
/// The contract speaks of a store through six specification functions. A
/// verified implementation defines them, and proves that its operations move
/// them as stated here. The three stores of this crate state more in their
/// own contracts: the exact state after each operation.
///
/// An implementation in plain Rust writes `cache_get`, `cache_set` and
/// `cache_size`, and nothing is proved of it.
pub trait Cached<K, V> {
    /// What must hold of a store for its operations to be called. Every
    /// operation keeps it.
    ///
    /// An implementation that does not say what its invariant is has none
    /// that holds: nothing is claimed of such a store, and nothing that is
    /// proved here depends on it.
    open spec fn inv(&self) -> bool {
        false
    }

    /// The entries held, by key. A store whose entries expire holds an
    /// expired entry until a read or an overwrite touches it, and counts it
    /// here.
    open spec fn entries(&self) -> Map<K, V> {
        Map::empty()
    }

    /// The number of lookups answered with a value; `None` if the store keeps
    /// no statistics.
    open spec fn hit_count(&self) -> Option<u32> {
        None
    }

    /// The number of lookups answered with nothing; `None` if the store keeps
    /// no statistics.
    open spec fn miss_count(&self) -> Option<u32> {
        None
    }

    /// The largest number of entries held at once; `None` if there is no
    /// limit.
    open spec fn capacity(&self) -> Option<usize> {
        None
    }

    /// The age in seconds up to which an entry is handed out; `None` if
    /// entries do not expire.
    open spec fn lifespan(&self) -> Option<u64> {
        None
    }

    /// Attempt to retrieve a cached value.
    ///
    /// A value that is returned is the one held under `k`, and the entries
    /// stay as they were. When nothing is returned, no entry is held under `k`
    /// afterwards: either there was none, or it had expired and was dropped.
    /// In a store whose entries do not expire every key that is held is found.
    /// Exactly one of the two counters moves.
    fn cache_get(&mut self, k: &K) -> (r: Option<&V>)
        requires
            old(self).inv(),
        ensures
            final(self).inv(),
            final(self).capacity() == old(self).capacity(),
            final(self).lifespan() == old(self).lifespan(),
            final(self).hit_count() == counted(old(self).hit_count(), r is Some),
            final(self).miss_count() == counted(old(self).miss_count(), r is None),
            match r {
                Some(v) => old(self).entries().contains_pair(*k, *v) && final(self).entries()
                    == old(self).entries(),
                None => final(self).entries() == old(self).entries().remove(*k),
            },
            old(self).lifespan() is None && old(self).entries().contains_key(*k) ==> r is Some,
            final(self).capacity() matches Some(c) ==> final(self).entries().len() <= c,
    ;

    /// Insert a key, value pair.
    ///
    /// Nothing appears in the store but the new pair, which replaces what was
    /// held under `k`. A store with a capacity may let another entry go to
    /// make room; one without a capacity keeps all the others. Only a store
    /// of capacity zero does not hold the new pair afterwards. The counters
    /// stay as they were.
    fn cache_set(&mut self, k: K, v: V)
        requires
            old(self).inv(),
        ensures
            final(self).inv(),
            final(self).capacity() == old(self).capacity(),
            final(self).lifespan() == old(self).lifespan(),
            final(self).hit_count() == old(self).hit_count(),
            final(self).miss_count() == old(self).miss_count(),
            final(self).entries().submap_of(old(self).entries().insert(k, v)),
            final(self).capacity() != Some(0usize) ==> final(self).entries().contains_pair(k, v),
            final(self).capacity() is None ==> final(self).entries() == old(self).entries().insert(
                k,
                v,
            ),
            final(self).capacity() matches Some(c) ==> final(self).entries().len() <= c,
    ;

    /// Return the current cache size (number of elements).
    fn cache_size(&self) -> (n: usize)
        requires
            self.inv(),
        ensures
            n == self.entries().len(),
            self.capacity() matches Some(c) ==> n <= c,
    ;

    /// Return the number of times a cached value was successfully retrieved.
    ///
    /// A store that keeps no statistics answers `None`, as the provided
    /// method does. A count that is reported is the store's hit count.
    fn cache_hits(&self) -> (r: Option<u32>)
        ensures
            r is Some ==> r == self.hit_count(),
        default_ensures
            r is None,
    {
        None
    }

    /// Return the number of times a cached value was unable to be retrieved.
    ///
    /// A store that keeps no statistics answers `None`, as the provided
    /// method does. A count that is reported is the store's miss count.
    fn cache_misses(&self) -> (r: Option<u32>)
        ensures
            r is Some ==> r == self.miss_count(),
        default_ensures
            r is None,
    {
        None
    }

    /// Return the cache capacity.
    ///
    /// `None` where a capacity does not apply, as the provided method
    /// answers. A capacity that is reported is the store's.
    fn cache_capacity(&self) -> (r: Option<usize>)
        ensures
            r is Some ==> r == self.capacity(),
        default_ensures
            r is None,
    {
        None
    }

    /// Return the lifespan of cached values (time to eviction).
    ///
    /// `None` where a lifespan does not apply, as the provided method
    /// answers. A lifespan that is reported is the store's.
    fn cache_lifespan(&self) -> (r: Option<u64>)
        ensures
            r is Some ==> r == self.lifespan(),
        default_ensures
            r is None,
    {
        None
    }
}

} // verus!
