//! The time-bounded store: an entry older than the lifespan counts as absent,
//! and leaves the store when a lookup finds it so.
use crate::stores::{capped, Access};
use crate::Cached;
use std::collections::HashMap;
use std::hash::Hash;
use std::time::Instant;
use vstd::prelude::*;
use vstd::std_specs::hash::obeys_key_model;

verus! {

/// The number of clock units in a second: times are counted in nanoseconds.
pub const NANOS_PER_SECOND: u128 = 1_000_000_000;

/// The state of a time-bounded store.
///
/// Times are readings of the store's clock, in nanoseconds since the store
/// was made. The state does not hold the current time: each operation is
/// given the time at which it happens.
#[verifier::reject_recursive_types(K)]
pub struct TimedState<K, V> {
    /// The entries held, by key, each with the time of its insertion. An
    /// entry that has expired stays here until a lookup or an insertion
    /// touches it.
    pub entries: Map<K, (u128, V)>,
    /// The lifespan of an entry, in seconds.
    pub lifespan: u64,
    /// The number of lookups that found a live entry.
    pub hits: u32,
    /// The number of lookups that did not.
    pub misses: u32,
}

impl<K, V> TimedState<K, V> {
    /// The state of a store of the given lifespan in which nothing has
    /// happened yet.
    pub open spec fn fresh(lifespan: u64) -> Self {
        TimedState { entries: Map::empty(), lifespan, hits: 0, misses: 0 }
    }

    /// Every state that a store can reach holds finitely many entries.
    pub open spec fn wf(self) -> bool {
        self.entries.dom().finite()
    }

    /// The number of entries, the expired ones included.
    pub open spec fn size(self) -> nat {
        self.entries.len()
    }

    /// The values held, by key, without the times of their insertion.
    pub open spec fn values(self) -> Map<K, V> {
        self.entries.map_values(|entry: (u128, V)| entry.1)
    }

    /// The lifespan in clock units.
    pub open spec fn limit(self) -> int {
        self.lifespan * NANOS_PER_SECOND
    }

    /// Whether an entry inserted at `stamp` has expired at `now`: whether it
    /// is older than the lifespan. An entry is never older than the lifespan
    /// at a time that is not after its insertion.
    pub open spec fn expired(self, stamp: u128, now: u128) -> bool {
        now - stamp > self.limit()
    }

    /// Whether a lookup of `key` at `now` finds an entry that has not
    /// expired.
    pub open spec fn live(self, key: K, now: u128) -> bool {
        self.entries.contains_key(key) && !self.expired(self.entries[key].0, now)
    }

    /// What a lookup of `key` at `now` answers.
    pub open spec fn lookup(self, key: K, now: u128) -> Option<V> {
        if self.live(key, now) {
            Some(self.entries[key].1)
        } else {
            None
        }
    }

    /// The state after a lookup of `key` at `now`. A live entry stays and
    /// keeps its time of insertion, and the lookup counts as a hit. An
    /// expired entry leaves the store, and the lookup counts as a miss, as it
    /// does when no entry is held.
    pub open spec fn after_get(self, key: K, now: u128) -> Self {
        if self.live(key, now) {
            TimedState { hits: self.hits.saturating_add(1u32), ..self }
        } else {
            TimedState {
                entries: self.entries.remove(key),
                misses: self.misses.saturating_add(1u32),
                ..self
            }
        }
    }

    /// The state after `value` was inserted under `key` at `now`, in place of
    /// what was held there, expired or not. The age of the entry starts
    /// anew.
    pub open spec fn after_set(self, key: K, value: V, now: u128) -> Self {
        TimedState { entries: self.entries.insert(key, (now, value)), ..self }
    }

    /// The state after one operation that happens at `op.0`.
    pub open spec fn step(self, op: (u128, Access<K, V>)) -> Self {
        match op.1 {
            Access::Lookup(key) => self.after_get(key, op.0),
            Access::Insert(key, value) => self.after_set(key, value, op.0),
        }
    }

    /// The state after a sequence of operations, first to last, each with
    /// the time at which it happens.
    pub open spec fn run(self, ops: Seq<(u128, Access<K, V>)>) -> Self
        decreases ops.len(),
    {
        if ops.len() == 0 {
            self
        } else {
            self.run(ops.drop_last()).step(ops.last())
        }
    }

    /// How many of the lookups among `ops` find a live entry, when `ops`
    /// runs from this state.
    pub open spec fn hits_in(self, ops: Seq<(u128, Access<K, V>)>) -> nat
        decreases ops.len(),
    {
        if ops.len() == 0 {
            0
        } else {
            let before = self.run(ops.drop_last());
            self.hits_in(ops.drop_last()) + match ops.last().1 {
                Access::Lookup(key) => if before.lookup(key, ops.last().0) is Some {
                    1nat
                } else {
                    0nat
                },
                Access::Insert(_, _) => 0nat,
            }
        }
    }

    /// How many of the lookups among `ops` find no live entry, when `ops`
    /// runs from this state.
    pub open spec fn misses_in(self, ops: Seq<(u128, Access<K, V>)>) -> nat
        decreases ops.len(),
    {
        if ops.len() == 0 {
            0
        } else {
            let before = self.run(ops.drop_last());
            self.misses_in(ops.drop_last()) + match ops.last().1 {
                Access::Lookup(key) => if before.lookup(key, ops.last().0) is None {
                    1nat
                } else {
                    0nat
                },
                Access::Insert(_, _) => 0nat,
            }
        }
    }

    /// A lookup takes nothing out of the values but what is held under its
    /// key, and that only when it answers nothing.
    pub proof fn lemma_after_get(self, key: K, now: u128)
        requires
            self.wf(),
        ensures
            self.after_get(key, now).wf(),
            self.lookup(key, now) matches Some(v) ==> self.values().contains_pair(key, v)
                && self.after_get(key, now).values() == self.values(),
            self.lookup(key, now) is None ==> self.after_get(key, now).values()
                == self.values().remove(key),
    {
        if !self.live(key, now) {
            assert(self.after_get(key, now).values() =~= self.values().remove(key));
        }
    }

    /// An insertion adds its pair to the values, and changes nothing else in
    /// them.
    pub proof fn lemma_after_set(self, key: K, value: V, now: u128)
        requires
            self.wf(),
        ensures
            self.after_set(key, value, now).wf(),
            self.after_set(key, value, now).values() == self.values().insert(key, value),
    {
        assert(self.after_set(key, value, now).values() =~= self.values().insert(key, value));
    }

    /// There are as many values as entries.
    pub proof fn lemma_values_len(self)
        requires
            self.wf(),
        ensures
            self.values().dom().finite(),
            self.values().len() == self.size(),
    {
        assert(self.values().dom() =~= self.entries.dom());
    }

    /// Whatever is done to a fresh store, it holds finitely many entries and
    /// keeps its lifespan.
    pub proof fn law_reachable_is_wf(lifespan: u64, ops: Seq<(u128, Access<K, V>)>)
        ensures
            Self::fresh(lifespan).run(ops).wf(),
            Self::fresh(lifespan).run(ops).lifespan == lifespan,
        decreases ops.len(),
    {
        if ops.len() > 0 {
            Self::law_reachable_is_wf(lifespan, ops.drop_last());
        }
    }

    /// Hit and miss accounting: after any sequence of operations on a fresh
    /// store the hit counter reads the number of lookups that found a live
    /// entry, and the miss counter the number of those that did not, each up
    /// to the largest value a counter takes.
    pub proof fn law_hit_miss_accounting(lifespan: u64, ops: Seq<(u128, Access<K, V>)>)
        ensures
            Self::fresh(lifespan).run(ops).hits == capped(Self::fresh(lifespan).hits_in(ops)),
            Self::fresh(lifespan).run(ops).misses == capped(Self::fresh(lifespan).misses_in(ops)),
        decreases ops.len(),
    {
        if ops.len() > 0 {
            Self::law_hit_miss_accounting(lifespan, ops.drop_last());
        }
    }

    /// Overwriting: a second insertion under the same key leaves the size as
    /// the first one left it. A lookup then answers the second value for as
    /// long as that entry lives, counted from the second insertion.
    pub proof fn law_overwrite(self, key: K, first: V, second: V, t1: u128, t2: u128, now: u128)
        requires
            self.wf(),
        ensures
            self.after_set(key, first, t1).after_set(key, second, t2).size() == self.after_set(
                key,
                first,
                t1,
            ).size(),
            self.after_set(key, first, t1).after_set(key, second, t2).lookup(key, now) == if now
                - t2 > self.limit() {
                None
            } else {
                Some(second)
            },
    {
        assert(self.after_set(key, first, t1).after_set(key, second, t2).entries.dom()
            =~= self.after_set(key, first, t1).entries.dom());
    }

    /// Lazy expiry: the passing of time alone removes nothing. An expired
    /// entry is counted in the size until a lookup of its key, which answers
    /// nothing and takes the entry out.
    pub proof fn law_lazy_expiry(self, key: K, now: u128)
        requires
            self.wf(),
            self.entries.contains_key(key),
            self.expired(self.entries[key].0, now),
        ensures
            self.lookup(key, now) is None,
            self.after_get(key, now).size() == self.size() - 1,
            !self.after_get(key, now).entries.contains_key(key),
    {
    }
}

/// A store whose entries count as absent once they are older than
/// `lifespan` seconds.
///
/// Expiry is lazy: nothing sweeps the store. An expired entry stays, and is
/// counted by `cache_size`, until a lookup of its key drops it or an
/// insertion under its key replaces it.
///
/// Time is read from a monotonic clock, in nanoseconds since the store was
/// made. `get_at` and `set_at` take the time as an argument instead.
///
/// The key type has to be one that a hash map can hold: hashing is
/// deterministic and `==` is true of a key and itself only. The constructor
/// asks for this, and the invariant carries it.
pub struct TimedCache<K, V> {
    store: HashMap<K, (u128, V)>,
    origin: Instant,
    seconds: u64,
    hits: u32,
    misses: u32,
}

impl<K, V> View for TimedCache<K, V> {
    type V = TimedState<K, V>;

    closed spec fn view(&self) -> TimedState<K, V> {
        TimedState {
            entries: self.store@,
            lifespan: self.seconds,
            hits: self.hits,
            misses: self.misses,
        }
    }
}

impl<K: Hash + Eq, V> TimedCache<K, V> {
    /// Creates an empty store whose entries live for `seconds` seconds.
    pub fn with_lifespan(seconds: u64) -> (cache: Self)
        requires
            obeys_key_model::<K>(),
        ensures
            cache.inv(),
            cache@ == TimedState::<K, V>::fresh(seconds),
    {
        TimedCache { store: HashMap::new(), origin: Instant::now(), seconds, hits: 0, misses: 0 }
    }

    /// Reads the clock: the time since the store was made, in nanoseconds.
    fn now(&self) -> u128 {
        Instant::now().saturating_duration_since(self.origin).as_nanos()
    }

    /// Looks `key` up as of the time `now`, and counts the lookup. An entry
    /// that has expired at `now` is dropped and not handed out. The state
    /// afterwards is `after_get(key, now)` of the state before, and the
    /// answer is its `lookup(key, now)`.
    pub fn get_at(&mut self, key: &K, now: u128) -> (r: Option<&V>)
        requires
            old(self).inv(),
        ensures
            final(self).inv(),
            final(self)@ == old(self)@.after_get(*key, now),
            match r {
                Some(v) => old(self)@.lookup(*key, now) == Some(*v),
                None => old(self)@.lookup(*key, now) is None,
            },
    {
        let limit: u128 = (self.seconds as u128) * NANOS_PER_SECOND;
        let live = match self.store.get(key) {
            Some(entry) => now <= entry.0 || now - entry.0 <= limit,
            None => false,
        };
        if live {
            self.hits = self.hits.saturating_add(1);
            match self.store.get(key) {
                Some(entry) => Some(&entry.1),
                None => None,
            }
        } else {
            self.store.remove(key);
            self.misses = self.misses.saturating_add(1);
            None
        }
    }

    /// Inserts `value` under `key` as of the time `now`: the state
    /// afterwards is `after_set(key, value, now)` of the state before.
    pub fn set_at(&mut self, key: K, value: V, now: u128)
        requires
            old(self).inv(),
        ensures
            final(self).inv(),
            final(self)@ == old(self)@.after_set(key, value, now),
    {
        self.store.insert(key, (now, value));
    }
}

impl<K: Hash + Eq, V> Cached<K, V> for TimedCache<K, V> {
    open spec fn inv(&self) -> bool {
        obeys_key_model::<K>() && self@.wf()
    }

    open spec fn entries(&self) -> Map<K, V> {
        self@.values()
    }

    open spec fn hit_count(&self) -> Option<u32> {
        Some(self@.hits)
    }

    open spec fn miss_count(&self) -> Option<u32> {
        Some(self@.misses)
    }

    open spec fn capacity(&self) -> Option<usize> {
        None
    }

    open spec fn lifespan(&self) -> Option<u64> {
        Some(self@.lifespan)
    }

    /// Reads the clock and looks `k` up as of that time: for the reading
    /// `now`, whatever it is, the state afterwards is `after_get(k, now)` of
    /// the state before, and the answer is its `lookup(k, now)`.
    fn cache_get(&mut self, k: &K) -> (r: Option<&V>)
        ensures
            exists|now: u128|
                {
                    &&& final(self)@ == #[trigger] old(self)@.after_get(*k, now)
                    &&& match r {
                        Some(v) => old(self)@.lookup(*k, now) == Some(*v),
                        None => old(self)@.lookup(*k, now) is None,
                    }
                },
    {
        let now = self.now();
        proof {
            self@.lemma_after_get(*k, now);
        }
        self.get_at(k, now)
    }

    /// Reads the clock and inserts `v` under `k` as of that time: for the
    /// reading `now`, whatever it is, the state afterwards is
    /// `after_set(k, v, now)` of the state before.
    fn cache_set(&mut self, k: K, v: V)
        ensures
            exists|now: u128| final(self)@ == #[trigger] old(self)@.after_set(k, v, now),
    {
        let now = self.now();
        proof {
            self@.lemma_after_set(k, v, now);
        }
        self.set_at(k, v, now)
    }

    /// The number of entries, the expired ones included.
    fn cache_size(&self) -> (n: usize)
        ensures
            n == self@.size(),
    {
        proof {
            self@.lemma_values_len();
        }
        self.store.len()
    }

    /// The hit counter.
    fn cache_hits(&self) -> (r: Option<u32>)
        ensures
            r == Some(self@.hits),
    {
        Some(self.hits)
    }

    /// The miss counter.
    fn cache_misses(&self) -> (r: Option<u32>)
        ensures
            r == Some(self@.misses),
    {
        Some(self.misses)
    }

    /// The lifespan the store was made with, in seconds.
    fn cache_lifespan(&self) -> (r: Option<u64>)
        ensures
            r == Some(self@.lifespan),
    {
        Some(self.seconds)
    }
}

} // verus!
