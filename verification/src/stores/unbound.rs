//! The unbounded store: a map that keeps every entry.
use crate::stores::{capped, Access};
use crate::Cached;
use std::collections::HashMap;
use std::hash::Hash;
use vstd::prelude::*;
use vstd::std_specs::hash::obeys_key_model;

verus! {

/// The state of an unbounded store.
#[verifier::reject_recursive_types(K)]
pub struct UnboundState<K, V> {
    /// The entries held, by key.
    pub entries: Map<K, V>,
    /// The number of lookups that found their key.
    pub hits: u32,
    /// The number of lookups that did not.
    pub misses: u32,
}

impl<K, V> UnboundState<K, V> {
    /// The state of a store in which nothing has happened yet.
    pub open spec fn fresh() -> Self {
        UnboundState { entries: Map::empty(), hits: 0, misses: 0 }
    }

    /// Every state that a store can reach holds finitely many entries.
    pub open spec fn wf(self) -> bool {
        self.entries.dom().finite()
    }

    /// The number of entries.
    pub open spec fn size(self) -> nat {
        self.entries.len()
    }

    /// What a lookup of `key` answers.
    pub open spec fn lookup(self, key: K) -> Option<V> {
        if self.entries.contains_key(key) {
            Some(self.entries[key])
        } else {
            None
        }
    }

    /// The state after a lookup of `key`: the entries stay, and the lookup is
    /// counted as a hit or as a miss.
    pub open spec fn after_get(self, key: K) -> Self {
        if self.entries.contains_key(key) {
            UnboundState { hits: self.hits.saturating_add(1u32), ..self }
        } else {
            UnboundState { misses: self.misses.saturating_add(1u32), ..self }
        }
    }

    /// The state after `value` was inserted under `key`, in place of what was
    /// held there.
    pub open spec fn after_set(self, key: K, value: V) -> Self {
        UnboundState { entries: self.entries.insert(key, value), ..self }
    }

    /// The state after one operation.
    pub open spec fn step(self, op: Access<K, V>) -> Self {
        match op {
            Access::Lookup(key) => self.after_get(key),
            Access::Insert(key, value) => self.after_set(key, value),
        }
    }

    /// The state after a sequence of operations, first to last.
    pub open spec fn run(self, ops: Seq<Access<K, V>>) -> Self
        decreases ops.len(),
    {
        if ops.len() == 0 {
            self
        } else {
            self.run(ops.drop_last()).step(ops.last())
        }
    }

    /// How many of the lookups among `ops` find their key, when `ops` runs
    /// from this state.
    pub open spec fn hits_in(self, ops: Seq<Access<K, V>>) -> nat
        decreases ops.len(),
    {
        if ops.len() == 0 {
            0
        } else {
            let before = self.run(ops.drop_last());
            self.hits_in(ops.drop_last()) + match ops.last() {
                Access::Lookup(key) => if before.lookup(key) is Some {
                    1nat
                } else {
                    0nat
                },
                Access::Insert(_, _) => 0nat,
            }
        }
    }

    /// How many of the lookups among `ops` do not find their key, when `ops`
    /// runs from this state.
    pub open spec fn misses_in(self, ops: Seq<Access<K, V>>) -> nat
        decreases ops.len(),
    {
        if ops.len() == 0 {
            0
        } else {
            let before = self.run(ops.drop_last());
            self.misses_in(ops.drop_last()) + match ops.last() {
                Access::Lookup(key) => if before.lookup(key) is None {
                    1nat
                } else {
                    0nat
                },
                Access::Insert(_, _) => 0nat,
            }
        }
    }

    /// Whatever is done to a fresh store, it holds finitely many entries.
    pub proof fn law_reachable_is_wf(ops: Seq<Access<K, V>>)
        ensures
            Self::fresh().run(ops).wf(),
        decreases ops.len(),
    {
        if ops.len() > 0 {
            Self::law_reachable_is_wf(ops.drop_last());
        }
    }

    /// Hit and miss accounting: after any sequence of operations on a fresh
    /// store the hit counter reads the number of lookups that found their
    /// key, and the miss counter the number of those that did not, each up to
    /// the largest value a counter takes.
    pub proof fn law_hit_miss_accounting(ops: Seq<Access<K, V>>)
        ensures
            Self::fresh().run(ops).hits == capped(Self::fresh().hits_in(ops)),
            Self::fresh().run(ops).misses == capped(Self::fresh().misses_in(ops)),
        decreases ops.len(),
    {
        if ops.len() > 0 {
            Self::law_hit_miss_accounting(ops.drop_last());
        }
    }

    /// Overwriting: a second insertion under the same key leaves the size as
    /// the first one left it, and a lookup then answers the second value.
    pub proof fn law_overwrite(self, key: K, first: V, second: V)
        requires
            self.wf(),
        ensures
            self.after_set(key, first).after_set(key, second).size() == self.after_set(key, first).size(),
            self.after_set(key, first).after_set(key, second).lookup(key) == Some(second),
    {
        assert(self.after_set(key, first).after_set(key, second).entries.dom() =~= self.after_set(
            key,
            first,
        ).entries.dom());
    }
}

/// A store without a limit: every entry stays until it is overwritten.
///
/// The key type has to be one that a hash map can hold: hashing is
/// deterministic and `==` is true of a key and itself only. The constructor
/// asks for this, and the invariant carries it.
pub struct UnboundCache<K, V> {
    store: HashMap<K, V>,
    hits: u32,
    misses: u32,
}

impl<K, V> View for UnboundCache<K, V> {
    type V = UnboundState<K, V>;

    closed spec fn view(&self) -> UnboundState<K, V> {
        UnboundState { entries: self.store@, hits: self.hits, misses: self.misses }
    }
}

impl<K: Hash + Eq, V> UnboundCache<K, V> {
    /// Creates an empty store.
    pub fn new() -> (cache: Self)
        requires
            obeys_key_model::<K>(),
        ensures
            cache.inv(),
            cache@ == UnboundState::<K, V>::fresh(),
    {
        UnboundCache { store: HashMap::new(), hits: 0, misses: 0 }
    }
}

impl<K: Hash + Eq, V> Cached<K, V> for UnboundCache<K, V> {
    open spec fn inv(&self) -> bool {
        obeys_key_model::<K>() && self@.wf()
    }

    open spec fn entries(&self) -> Map<K, V> {
        self@.entries
    }

    open spec fn hit_count(&self) -> Option<u32> {
        Some(self@.hits)
    }

    open spec fn miss_count(&self) -> Option<u32> {
        Some(self@.misses)
    }

    open spec fn capacity(&self) -> Option<usize> {
        None
    }

    open spec fn lifespan(&self) -> Option<u64> {
        None
    }

    /// Looks `k` up and counts the lookup: the state afterwards is
    /// `after_get(k)` of the state before, and the answer is its `lookup(k)`.
    fn cache_get(&mut self, k: &K) -> (r: Option<&V>)
        ensures
            final(self)@ == old(self)@.after_get(*k),
            match r {
                Some(v) => old(self)@.lookup(*k) == Some(*v),
                None => old(self)@.lookup(*k) is None,
            },
    {
        match self.store.get(k) {
            Some(v) => {
                self.hits = self.hits.saturating_add(1);
                Some(v)
            },
            None => {
                self.misses = self.misses.saturating_add(1);
                assert(self@.entries =~= old(self)@.entries.remove(*k));
                None
            },
        }
    }

    /// Inserts `v` under `k`: the state afterwards is `after_set(k, v)` of
    /// the state before.
    fn cache_set(&mut self, k: K, v: V)
        ensures
            final(self)@ == old(self)@.after_set(k, v),
    {
        self.store.insert(k, v);
    }

    /// The number of entries.
    fn cache_size(&self) -> (n: usize)
        ensures
            n == self@.size(),
    {
        self.store.len()
    }

    /// The hit counter.
    fn cache_hits(&self) -> (r: Option<u32>)
        ensures
            r == Some(self@.hits),
    {
        Some(self.hits)
    }

    /// The miss counter.
    fn cache_misses(&self) -> (r: Option<u32>)
        ensures
            r == Some(self@.misses),
    {
        Some(self.misses)
    }
}

} // verus!
