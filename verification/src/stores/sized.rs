//! The size-bounded store: at most a fixed number of entries, of which the
//! least recently used one leaves when room is needed.
use crate::stores::{capped, Access};
use crate::Cached;
use vstd::laws_eq::obeys_concrete_eq;
use vstd::prelude::*;

verus! {

/// The state of a size-bounded store.
pub struct SizedState<K, V> {
    /// The entries in the order of their last use, the least recently used
    /// one first. An entry is used when it is inserted, overwritten or found
    /// by a lookup.
    pub order: Seq<(K, V)>,
    /// The largest number of entries held at once.
    pub capacity: usize,
    /// The number of lookups that found their key.
    pub hits: u32,
    /// The number of lookups that did not.
    pub misses: u32,
}

impl<K, V> SizedState<K, V> {
    /// The state of a store of the given capacity in which nothing has
    /// happened yet.
    pub open spec fn fresh(capacity: usize) -> Self {
        SizedState { order: Seq::empty(), capacity, hits: 0, misses: 0 }
    }

    /// The structural invariant: no key is held twice, and the capacity is
    /// not exceeded.
    pub open spec fn wf(self) -> bool {
        &&& forall|i: int, j: int|
            0 <= i < j < self.order.len() ==> (#[trigger] self.order[i]).0 != (
            #[trigger] self.order[j]).0
        &&& self.order.len() <= self.capacity
    }

    /// The number of entries.
    pub open spec fn size(self) -> nat {
        self.order.len()
    }

    /// The keys in the order of their last use, the least recently used one
    /// first.
    pub open spec fn keys(self) -> Seq<K> {
        Seq::new(self.order.len(), |i: int| self.order[i].0)
    }

    /// Whether an entry is held under `key`.
    pub open spec fn holds(self, key: K) -> bool {
        exists|i: int| 0 <= i < self.order.len() && (#[trigger] self.order[i]).0 == key
    }

    /// Where in the order the entry of `key` stands, if one is held.
    pub open spec fn position(self, key: K) -> int {
        choose|i: int| 0 <= i < self.order.len() && (#[trigger] self.order[i]).0 == key
    }

    /// What a lookup of `key` answers.
    pub open spec fn lookup(self, key: K) -> Option<V> {
        if self.holds(key) {
            Some(self.order[self.position(key)].1)
        } else {
            None
        }
    }

    /// The entries by key, without their order.
    pub open spec fn entries(self) -> Map<K, V> {
        Map::new(|key: K| self.holds(key), |key: K| self.order[self.position(key)].1)
    }

    /// The key whose entry leaves next when room is needed: that of the
    /// least recently used entry.
    pub open spec fn eldest(self) -> Option<K> {
        if self.order.len() > 0 {
            Some(self.order[0].0)
        } else {
            None
        }
    }

    /// The state after a lookup of `key`. An entry that is found becomes the
    /// most recently used one, and the lookup counts as a hit. Otherwise the
    /// lookup counts as a miss, and nothing else changes.
    pub open spec fn after_get(self, key: K) -> Self {
        if self.holds(key) {
            let at = self.position(key);
            SizedState {
                order: self.order.remove(at).push(self.order[at]),
                hits: self.hits.saturating_add(1u32),
                ..self
            }
        } else {
            SizedState { misses: self.misses.saturating_add(1u32), ..self }
        }
    }

    /// The state after `value` was inserted under `key`.
    ///
    /// A store of capacity zero never holds anything: it stays as it is.
    /// Otherwise the new entry becomes the most recently used one. It takes
    /// the place of the entry held under `key`, if there is one; if there is
    /// none and the store is full, the least recently used entry leaves.
    pub open spec fn after_set(self, key: K, value: V) -> Self {
        if self.capacity == 0 {
            self
        } else if self.holds(key) {
            SizedState { order: self.order.remove(self.position(key)).push((key, value)), ..self }
        } else if self.order.len() < self.capacity {
            SizedState { order: self.order.push((key, value)), ..self }
        } else {
            SizedState { order: self.order.remove(0).push((key, value)), ..self }
        }
    }

    /// The state after one operation.
    pub open spec fn step(self, op: Access<K, V>) -> Self {
        match op {
            Access::Lookup(key) => self.after_get(key),
            Access::Insert(key, value) => self.after_set(key, value),
        }
    }

    /// The state after a sequence of operations, first to last.
    pub open spec fn run(self, ops: Seq<Access<K, V>>) -> Self
        decreases ops.len(),
    {
        if ops.len() == 0 {
            self
        } else {
            self.run(ops.drop_last()).step(ops.last())
        }
    }

    /// How many of the lookups among `ops` find their key, when `ops` runs
    /// from this state.
    pub open spec fn hits_in(self, ops: Seq<Access<K, V>>) -> nat
        decreases ops.len(),
    {
        if ops.len() == 0 {
            0
        } else {
            let before = self.run(ops.drop_last());
            self.hits_in(ops.drop_last()) + match ops.last() {
                Access::Lookup(key) => if before.lookup(key) is Some {
                    1nat
                } else {
                    0nat
                },
                Access::Insert(_, _) => 0nat,
            }
        }
    }

    /// How many of the lookups among `ops` do not find their key, when `ops`
    /// runs from this state.
    pub open spec fn misses_in(self, ops: Seq<Access<K, V>>) -> nat
        decreases ops.len(),
    {
        if ops.len() == 0 {
            0
        } else {
            let before = self.run(ops.drop_last());
            self.misses_in(ops.drop_last()) + match ops.last() {
                Access::Lookup(key) => if before.lookup(key) is None {
                    1nat
                } else {
                    0nat
                },
                Access::Insert(_, _) => 0nat,
            }
        }
    }

    /// Every state that a store reaches from a well-formed one is well
    /// formed, with the capacity it was made with.
    pub proof fn law_run_keeps_wf(self, ops: Seq<Access<K, V>>)
        requires
            self.wf(),
        ensures
            self.run(ops).wf(),
            self.run(ops).capacity == self.capacity,
        decreases ops.len(),
    {
        if ops.len() > 0 {
            self.law_run_keeps_wf(ops.drop_last());
            let before = self.run(ops.drop_last());
            match ops.last() {
                Access::Lookup(key) => before.lemma_after_get(key),
                Access::Insert(key, value) => before.lemma_after_set(key, value),
            }
        }
    }

    /// The capacity bound: whatever sequence of operations runs on a fresh
    /// store of capacity `capacity`, after each of them the store holds at
    /// most `capacity` entries.
    pub proof fn law_capacity_bound(capacity: usize, ops: Seq<Access<K, V>>)
        ensures
            forall|n: int|
                0 <= n <= ops.len() ==> (#[trigger] Self::fresh(capacity).run(ops.take(n))).size()
                    <= capacity,
    {
        assert forall|n: int| 0 <= n <= ops.len() implies (#[trigger] Self::fresh(capacity).run(
            ops.take(n),
        )).size() <= capacity by {
            Self::fresh(capacity).law_run_keeps_wf(ops.take(n));
        }
    }

    /// Hit and miss accounting: after any sequence of operations on a fresh
    /// store the hit counter reads the number of lookups that found their
    /// key, and the miss counter the number of those that did not, each up to
    /// the largest value a counter takes.
    pub proof fn law_hit_miss_accounting(capacity: usize, ops: Seq<Access<K, V>>)
        ensures
            Self::fresh(capacity).run(ops).hits == capped(Self::fresh(capacity).hits_in(ops)),
            Self::fresh(capacity).run(ops).misses == capped(Self::fresh(capacity).misses_in(ops)),
        decreases ops.len(),
    {
        if ops.len() > 0 {
            Self::law_hit_miss_accounting(capacity, ops.drop_last());
        }
    }

    /// Overwriting: in a store that can hold anything at all, a second
    /// insertion under the same key leaves the size as the first one left it,
    /// and a lookup then answers the second value.
    pub proof fn law_overwrite(self, key: K, first: V, second: V)
        requires
            self.wf(),
            self.capacity > 0,
        ensures
            self.after_set(key, first).after_set(key, second).size() == self.after_set(
                key,
                first,
            ).size(),
            self.after_set(key, first).after_set(key, second).lookup(key) == Some(second),
    {
        self.lemma_after_set(key, first);
        self.after_set(key, first).lemma_after_set(key, second);
    }

    /// Recency: a lookup that finds its key saves that entry from being the
    /// next to leave, unless it is the only one.
    pub proof fn law_found_is_not_eldest(self, key: K)
        requires
            self.wf(),
            self.holds(key),
            self.size() > 1,
        ensures
            self.after_get(key).eldest() != Some(key),
    {
        self.lemma_after_get(key);
        let next = self.after_get(key);
        next.lemma_position(next.order.len() - 1);
        next.lemma_position(0);
        self.lemma_position(self.position(key));
    }

    /// In a well-formed state the entry at index `at` is the one held under
    /// its key.
    pub proof fn lemma_position(self, at: int)
        requires
            self.wf(),
            0 <= at < self.order.len(),
        ensures
            self.holds(self.order[at].0),
            self.position(self.order[at].0) == at,
            self.lookup(self.order[at].0) == Some(self.order[at].1),
            self.entries().contains_pair(self.order[at].0, self.order[at].1),
    {
        let key = self.order[at].0;
        let found = self.position(key);
        assert(0 <= found < self.order.len() && self.order[found].0 == key);
        if found < at {
            assert(self.order[found].0 != self.order[at].0);
        } else if at < found {
            assert(self.order[at].0 != self.order[found].0);
        }
    }

    /// A lookup keeps the invariant and the entries, and makes the entry it
    /// finds the most recently used one.
    pub proof fn lemma_after_get(self, key: K)
        requires
            self.wf(),
        ensures
            self.after_get(key).wf(),
            self.after_get(key).entries() == self.entries(),
            self.after_get(key).size() == self.size(),
            self.holds(key) ==> self.after_get(key).order.last() == self.order[self.position(key)],
    {
        if self.holds(key) {
            let at = self.position(key);
            let next = self.after_get(key);
            assert forall|k: K| self.lookup(k) == next.lookup(k) by {
                self.lemma_moved(next, at, self.order[at], k);
            }
            self.lemma_moved(next, at, self.order[at], key);
            self.lemma_same_lookups(next);
        }
    }

    /// An insertion keeps the invariant. It says what is held afterwards:
    /// the new entry, unless the capacity is zero, and the entries that were
    /// there, but for the one that was overwritten or the one that had to
    /// leave.
    pub proof fn lemma_after_set(self, key: K, value: V)
        requires
            self.wf(),
        ensures
            self.after_set(key, value).wf(),
            self.capacity > 0 ==> self.after_set(key, value).lookup(key) == Some(value),
            self.capacity > 0 ==> self.after_set(key, value).order.last() == (key, value),
            self.capacity == 0 ==> self.after_set(key, value) == self,
            self.capacity > 0 && (self.holds(key) || self.size() < self.capacity) ==> self.after_set(
                key,
                value,
            ).entries() == self.entries().insert(key, value),
            self.capacity > 0 && !self.holds(key) && self.size() == self.capacity ==> self.after_set(
                key,
                value,
            ).entries() == self.entries().remove(self.eldest().unwrap()).insert(key, value),
            self.after_set(key, value).entries().submap_of(self.entries().insert(key, value)),
            self.after_set(key, value).size() == if self.capacity > 0 && !self.holds(key)
                && self.size() < self.capacity {
                self.size() + 1
            } else {
                self.size()
            },
    {
        let next = self.after_set(key, value);
        if self.capacity == 0 {
        } else if self.holds(key) {
            let at = self.position(key);
            assert forall|k: K| next.lookup(k) == self.entries().insert(key, value).get(k) by {
                self.lemma_moved(next, at, (key, value), k);
            }
            self.lemma_moved(next, at, (key, value), key);
            next.lemma_lookups_are(self.entries().insert(key, value));
        } else if self.order.len() < self.capacity {
            assert forall|k: K| next.lookup(k) == self.entries().insert(key, value).get(k) by {
                self.lemma_pushed(next, (key, value), k);
            }
            self.lemma_pushed(next, (key, value), key);
            next.lemma_lookups_are(self.entries().insert(key, value));
        } else {
            let gone = self.order[0].0;
            let rest = SizedState { order: self.order.remove(0), ..self };
            self.lemma_position(0);
            assert forall|k: K|
                next.lookup(k) == self.entries().remove(gone).insert(key, value).get(k) by {
                self.lemma_dropped(rest, k);
                rest.lemma_pushed(next, (key, value), k);
            }
            self.lemma_dropped(rest, key);
            rest.lemma_pushed(next, (key, value), key);
            next.lemma_lookups_are(self.entries().remove(gone).insert(key, value));
        }
    }

    /// The entries of a well-formed state are as many as its order is long.
    pub proof fn lemma_entries_len(self)
        requires
            self.wf(),
        ensures
            self.entries().dom().finite(),
            self.entries().len() == self.size(),
    {
        let keys = self.keys();
        assert(keys.no_duplicates()) by {
            assert forall|i: int, j: int|
                0 <= i < keys.len() && 0 <= j < keys.len() && i != j implies keys[i] != keys[j] by {
                if i < j {
                    assert(self.order[i].0 != self.order[j].0);
                } else {
                    assert(self.order[j].0 != self.order[i].0);
                }
            }
        }
        assert(self.entries().dom() =~= keys.to_set()) by {
            assert forall|k: K| self.holds(k) == keys.contains(k) by {
                if self.holds(k) {
                    let at = self.position(k);
                    assert(keys[at] == k);
                }
                if keys.contains(k) {
                    let at = keys.index_of(k);
                    assert(self.order[at].0 == k);
                }
            }
        }
        keys.unique_seq_to_set();
        vstd::seq_lib::seq_to_set_is_finite(keys);
    }

    /// A state that answers every lookup as the map `m` does holds the
    /// entries of `m`.
    proof fn lemma_lookups_are(self, m: Map<K, V>)
        requires
            forall|k: K| self.lookup(k) == m.get(k),
        ensures
            self.entries() == m,
    {
        assert forall|k: K| self.holds(k) == m.contains_key(k) by {
            assert(self.lookup(k) == m.get(k));
        }
        assert forall|k: K| self.holds(k) implies self.order[self.position(k)].1 == m[k] by {
            assert(self.lookup(k) == m.get(k));
        }
        assert(self.entries() =~= m);
    }

    /// Let `next` be this state with `entry`, whose key is not held, put at
    /// the most recently used end. Then `next` is well formed if there was
    /// room, it answers a lookup of that key with the value of `entry`, and
    /// any other lookup as this state does.
    proof fn lemma_pushed(self, next: Self, entry: (K, V), key: K)
        requires
            self.wf(),
            !self.holds(entry.0),
            self.order.len() < self.capacity,
            next.order == self.order.push(entry),
            next.capacity == self.capacity,
        ensures
            next.wf(),
            next.lookup(entry.0) == Some(entry.1),
            key != entry.0 ==> next.lookup(key) == self.lookup(key),
    {
        let last = next.order.len() - 1;
        assert(next.order[last] == entry);
        assert forall|i: int, j: int| 0 <= i < j < next.order.len() implies (
        #[trigger] next.order[i]).0 != (#[trigger] next.order[j]).0 by {
            assert(next.order[i] == self.order[i]);
            if j < last {
                assert(next.order[j] == self.order[j]);
            }
        }
        next.lemma_position(last);
        if self.holds(key) && key != entry.0 {
            let p = self.position(key);
            assert(next.order[p] == self.order[p]);
            next.lemma_position(p);
        }
        if next.holds(key) && key != entry.0 {
            let q = next.position(key);
            assert(next.order[q] == self.order[q]);
            self.lemma_position(q);
        }
    }

    /// Let `next` be this state without its least recently used entry. Then
    /// `next` is well formed with room for one more, it does not hold the
    /// key of that entry, and it answers any other lookup as this state does.
    proof fn lemma_dropped(self, next: Self, key: K)
        requires
            self.wf(),
            self.order.len() > 0,
            next.order == self.order.remove(0),
            next.capacity == self.capacity,
        ensures
            next.wf(),
            next.order.len() < next.capacity,
            !next.holds(self.order[0].0),
            key != self.order[0].0 ==> next.lookup(key) == self.lookup(key),
    {
        assert forall|i: int| 0 <= i < next.order.len() implies #[trigger] next.order[i]
            == self.order[i + 1] by {}
        assert forall|i: int, j: int| 0 <= i < j < next.order.len() implies (
        #[trigger] next.order[i]).0 != (#[trigger] next.order[j]).0 by {
            assert(self.order[i + 1].0 != self.order[j + 1].0);
        }
        if next.holds(self.order[0].0) {
            let q = next.position(self.order[0].0);
            assert(self.order[0].0 != self.order[q + 1].0);
        }
        if self.holds(key) && key != self.order[0].0 {
            let p = self.position(key);
            assert(next.order[p - 1] == self.order[p]);
            next.lemma_position(p - 1);
        }
        if next.holds(key) && key != self.order[0].0 {
            let q = next.position(key);
            assert(next.order[q] == self.order[q + 1]);
            self.lemma_position(q + 1);
        }
    }

    /// Two states that answer every lookup alike hold the same entries.
    proof fn lemma_same_lookups(self, other: Self)
        requires
            forall|k: K| self.lookup(k) == other.lookup(k),
        ensures
            self.entries() == other.entries(),
    {
        assert forall|k: K| self.holds(k) == other.holds(k) by {
            assert(self.lookup(k) == other.lookup(k));
        }
        assert forall|k: K| self.holds(k) implies self.order[self.position(k)].1
            == other.order[other.position(k)].1 by {
            assert(self.lookup(k) == other.lookup(k));
        }
        assert(self.entries() =~= other.entries());
    }

    /// Let `next` be this state with the entry at `at` taken out and `entry`,
    /// which has the same key, put at the most recently used end. Then `next`
    /// is well formed, it answers a lookup of that key with the value of
    /// `entry`, and any other lookup as this state does.
    proof fn lemma_moved(self, next: Self, at: int, entry: (K, V), key: K)
        requires
            self.wf(),
            0 <= at < self.order.len(),
            entry.0 == self.order[at].0,
            next.order == self.order.remove(at).push(entry),
            next.capacity == self.capacity,
        ensures
            next.wf(),
            next.lookup(entry.0) == Some(entry.1),
            key != entry.0 ==> next.lookup(key) == self.lookup(key),
    {
        assert forall|i: int, j: int| 0 <= i < j < next.order.len() implies (
        #[trigger] next.order[i]).0 != (#[trigger] next.order[j]).0 by {
            let from_i = if i < at {
                i
            } else {
                i + 1
            };
            assert(next.order[i] == self.order[from_i]);
            if j < next.order.len() - 1 {
                let from_j = if j < at {
                    j
                } else {
                    j + 1
                };
                assert(next.order[j] == self.order[from_j]);
                assert(self.order[from_i].0 != self.order[from_j].0);
            } else {
                if from_i < at {
                    assert(self.order[from_i].0 != self.order[at].0);
                } else {
                    assert(self.order[at].0 != self.order[from_i].0);
                }
            }
        }
        let last = next.order.len() - 1;
        assert(next.order[last] == entry);
        next.lemma_position(last);
        if self.holds(key) && key != entry.0 {
            let p = self.position(key);
            let q = if p < at {
                p
            } else {
                p - 1
            };
            assert(next.order[q] == self.order[p]);
            next.lemma_position(q);
        }
        if next.holds(key) && key != entry.0 {
            let q = next.position(key);
            let p = if q < at {
                q
            } else {
                q + 1
            };
            assert(next.order[q] == self.order[p]);
            self.lemma_position(p);
        }
    }
}

/// A store that holds at most `capacity` entries and lets the least recently
/// used one go when room is needed for a new key.
///
/// A store of capacity zero never holds anything: every insertion leaves it
/// empty, and every lookup is a miss.
///
/// Keys are compared with `==`, which has to be true of a key and itself
/// only. The constructor asks for this, and the invariant carries it.
pub struct SizedCache<K, V> {
    slots: Vec<(K, V)>,
    capacity: usize,
    hits: u32,
    misses: u32,
}

impl<K, V> View for SizedCache<K, V> {
    type V = SizedState<K, V>;

    closed spec fn view(&self) -> SizedState<K, V> {
        SizedState {
            order: self.slots@,
            capacity: self.capacity,
            hits: self.hits,
            misses: self.misses,
        }
    }
}

impl<K: Eq, V> SizedCache<K, V> {
    /// Creates an empty store that holds at most `size` entries.
    pub fn with_size(size: usize) -> (cache: Self)
        requires
            obeys_concrete_eq::<K>(),
        ensures
            cache.inv(),
            cache@ == SizedState::<K, V>::fresh(size),
    {
        SizedCache { slots: Vec::new(), capacity: size, hits: 0, misses: 0 }
    }

    /// The index of the entry held under `key`, if there is one.
    fn find(&self, key: &K) -> (found: Option<usize>)
        requires
            self.inv(),
        ensures
            match found {
                Some(at) => self@.holds(*key) && at == self@.position(*key),
                None => !self@.holds(*key),
            },
    {
        let mut at: usize = 0;
        while at < self.slots.len()
            invariant
                at <= self.slots@.len(),
                self.inv(),
                forall|i: int| 0 <= i < at ==> (#[trigger] self.slots@[i]).0 != *key,
            decreases self.slots@.len() - at,
        {
            proof {
                reveal(obeys_concrete_eq);
            }
            if self.slots[at].0 == *key {
                proof {
                    self@.lemma_position(at as int);
                }
                return Some(at);
            }
            at = at + 1;
        }
        None
    }
}

impl<K: Eq, V> Cached<K, V> for SizedCache<K, V> {
    open spec fn inv(&self) -> bool {
        obeys_concrete_eq::<K>() && self@.wf()
    }

    open spec fn entries(&self) -> Map<K, V> {
        self@.entries()
    }

    open spec fn hit_count(&self) -> Option<u32> {
        Some(self@.hits)
    }

    open spec fn miss_count(&self) -> Option<u32> {
        Some(self@.misses)
    }

    open spec fn capacity(&self) -> Option<usize> {
        Some(self@.capacity)
    }

    open spec fn lifespan(&self) -> Option<u64> {
        None
    }

    /// Looks `k` up, counts the lookup, and makes the entry it finds the
    /// most recently used one: the state afterwards is `after_get(k)` of the
    /// state before, and the answer is its `lookup(k)`.
    fn cache_get(&mut self, k: &K) -> (r: Option<&V>)
        ensures
            final(self)@ == old(self)@.after_get(*k),
            match r {
                Some(v) => old(self)@.lookup(*k) == Some(*v),
                None => old(self)@.lookup(*k) is None,
            },
    {
        proof {
            self@.lemma_after_get(*k);
            self@.lemma_entries_len();
        }
        match self.find(k) {
            Some(at) => {
                let entry = self.slots.remove(at);
                self.slots.push(entry);
                self.hits = self.hits.saturating_add(1);
                let last = self.slots.len() - 1;
                Some(&self.slots[last].1)
            },
            None => {
                self.misses = self.misses.saturating_add(1);
                proof {
                    assert(old(self)@.entries().remove(*k) =~= old(self)@.entries());
                }
                None
            },
        }
    }

    /// Inserts `v` under `k` as the most recently used entry, in place of
    /// the entry of `k` or, in a full store, of the least recently used one:
    /// the state afterwards is `after_set(k, v)` of the state before.
    fn cache_set(&mut self, k: K, v: V)
        ensures
            final(self)@ == old(self)@.after_set(k, v),
    {
        proof {
            self@.lemma_after_set(k, v);
            self@.after_set(k, v).lemma_entries_len();
        }
        if self.capacity == 0 {
            return ;
        }
        match self.find(&k) {
            Some(at) => {
                self.slots.remove(at);
            },
            None => {
                if self.slots.len() >= self.capacity {
                    self.slots.remove(0);
                }
            },
        }
        self.slots.push((k, v));
    }

    /// The number of entries.
    fn cache_size(&self) -> (n: usize)
        ensures
            n == self@.size(),
    {
        proof {
            self@.lemma_entries_len();
        }
        self.slots.len()
    }

    /// The hit counter.
    fn cache_hits(&self) -> (r: Option<u32>)
        ensures
            r == Some(self@.hits),
    {
        Some(self.hits)
    }

    /// The miss counter.
    fn cache_misses(&self) -> (r: Option<u32>)
        ensures
            r == Some(self@.misses),
    {
        Some(self.misses)
    }

    /// The capacity the store was made with.
    fn cache_capacity(&self) -> (r: Option<usize>)
        ensures
            r == Some(self@.capacity),
    {
        Some(self.capacity)
    }
}

} // verus!
