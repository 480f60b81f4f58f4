//! Memoization: the steps by which a function's results are cached under a
//! key derived from its arguments.
//!
//! A call of a memoized function first looks its key up. A value that is
//! found is duplicated and returned, and the function's body is not
//! evaluated. Otherwise the body is evaluated, a duplicate of its result is
//! stored under the key, and the result is returned. A body that fails to
//! produce a result leaves nothing in the store.
//!
//! [`lookup`] and [`store`] are the two steps that touch the store. Between
//! them the store is not needed, so that a caller who shares the store may
//! let others use it while the body runs. Two callers that miss on the same
//! key will then both evaluate the body and both store: the later one
//! overwrites the earlier. [`memoized`] does the whole call for a caller who
//! holds the store exclusively; it lends the store to the body, which may
//! call memoized functions in turn.
use crate::{counted, Cached};
use vstd::prelude::*;

verus! {

/// A lookup of `key` on behalf of a memoized function took the store from
/// `before` to `after` and gave `answer`.
///
/// An answer is a duplicate of the value held under `key`. Without an answer,
/// nothing is held under `key` afterwards. A store whose entries do not
/// expire answers for every key it holds. The lookup counts as one hit or as
/// one miss.
pub open spec fn answered<K, V: Clone, C: Cached<K, V>>(
    before: C,
    after: C,
    key: K,
    answer: Option<V>,
) -> bool {
    &&& after.inv()
    &&& after.capacity() == before.capacity()
    &&& after.lifespan() == before.lifespan()
    &&& after.hit_count() == counted(before.hit_count(), answer is Some)
    &&& after.miss_count() == counted(before.miss_count(), answer is None)
    &&& match answer {
        Some(v) => {
            &&& before.entries().contains_key(key)
            &&& cloned(before.entries()[key], v)
            &&& after.entries() == before.entries()
        },
        None => after.entries() == before.entries().remove(key),
    }
    &&& before.lifespan() is None && before.entries().contains_key(key) ==> answer is Some
}

/// An insertion of `value` under `key` took the store from `before` to
/// `after`.
///
/// The value is held afterwards unless the capacity is zero, in place of what
/// was held under `key`. A store without a capacity keeps all its other
/// entries; otherwise whatever else is held was held before, and the capacity
/// is not exceeded. The counters do not move.
pub open spec fn inserted<K, V, C: Cached<K, V>>(before: C, after: C, key: K, value: V) -> bool {
    &&& after.inv()
    &&& after.capacity() == before.capacity()
    &&& after.lifespan() == before.lifespan()
    &&& after.hit_count() == before.hit_count()
    &&& after.miss_count() == before.miss_count()
    &&& after.entries().submap_of(before.entries().insert(key, value))
    &&& after.capacity() != Some(0usize) ==> after.entries().contains_pair(key, value)
    &&& after.capacity() is None ==> after.entries() == before.entries().insert(key, value)
    &&& after.capacity() matches Some(c) ==> after.entries().len() <= c
}

/// Storing the result `value` of a memoized function under `key` took the
/// store from `before` to `after`: a duplicate of `value` was inserted.
pub open spec fn kept<K, V: Clone, C: Cached<K, V>>(before: C, after: C, key: K, value: V) -> bool {
    exists|copy: V| #[trigger] cloned(value, copy) && inserted(before, after, key, copy)
}

/// Looks `key` up for a memoized function, and hands out a duplicate of the
/// value that is found. `None` tells the caller to evaluate the body.
pub fn lookup<K, V: Clone, C: Cached<K, V>>(cache: &mut C, key: &K) -> (answer: Option<V>)
    requires
        old(cache).inv(),
    ensures
        answered(*old(cache), *final(cache), *key, answer),
{
    match cache.cache_get(key) {
        Some(v) => Some(v.clone()),
        None => None,
    }
}

/// Stores a duplicate of the result `value` of a memoized function under
/// `key`.
pub fn store<K, V: Clone, C: Cached<K, V>>(cache: &mut C, key: K, value: &V)
    requires
        old(cache).inv(),
    ensures
        kept(*old(cache), *final(cache), key, *value),
{
    let copy = value.clone();
    assert(cloned(*value, copy));
    cache.cache_set(key, copy);
}

/// Does one call of a memoized function whose key is `key` and whose body is
/// `body`, on a store that the caller holds exclusively.
///
/// The body is lent the store for the time of its evaluation, so that it can
/// call memoized functions on the same store. It has to accept the store as
/// a lookup that found nothing leaves it, and to leave it in a valid state.
///
/// Either the lookup answers `r`, and nothing else happens: the body is not
/// evaluated. Or the lookup finds nothing, the body runs on the store as the
/// lookup left it and returns `r`, and `r` is stored in the store as the body
/// left it.
pub fn memoized<K, V: Clone, C: Cached<K, V>, F: FnOnce(&mut C) -> V>(
    cache: &mut C,
    key: K,
    body: F,
) -> (r: V)
    requires
        old(cache).inv(),
        forall|lent: &mut C|
            answered(*old(cache), *lent, key, None::<V>) ==> call_requires(body, (lent,)),
        forall|lent: &mut C, v: V|
            answered(*old(cache), *lent, key, None::<V>) && call_ensures(body, (lent,), v)
                ==> final(lent).inv(),
    ensures
        answered(*old(cache), *final(cache), key, Some(r)) || exists|lent: &mut C|
            {
                &&& answered(*old(cache), *lent, key, None::<V>)
                &&& #[trigger] call_ensures(body, (lent,), r)
                &&& kept(*final(lent), *final(cache), key, r)
            },
{
    match lookup(cache, &key) {
        Some(v) => v,
        None => {
            let v = body(cache);
            store(cache, key, &v);
            v
        },
    }
}

/// Stores a duplicate of what a memoized function returned under `key`, if
/// it returned a result. A failure is not stored: the store stays as it is.
pub fn store_if_ok<K, V: Clone, E, C: Cached<K, V>>(cache: &mut C, key: K, outcome: &Result<V, E>)
    requires
        old(cache).inv(),
    ensures
        match outcome {
            Ok(value) => kept(*old(cache), *final(cache), key, *value),
            Err(_) => *final(cache) == *old(cache),
        },
{
    match outcome {
        Ok(value) => store(cache, key, value),
        Err(_) => {},
    }
}

/// Does one call of a memoized function that may fail, on a store that the
/// caller holds exclusively.
///
/// This is [`memoized`] for a body that returns a `Result`. Only a success
/// is stored. A failure is returned as the body gave it, and the store stays
/// as the body left it: the failure takes no place in it, and the lookup
/// that came first has counted as a miss.
pub fn memoized_result<K, V: Clone, E, C: Cached<K, V>, F: FnOnce(&mut C) -> Result<V, E>>(
    cache: &mut C,
    key: K,
    body: F,
) -> (r: Result<V, E>)
    requires
        old(cache).inv(),
        forall|lent: &mut C|
            answered(*old(cache), *lent, key, None::<V>) ==> call_requires(body, (lent,)),
        forall|lent: &mut C, out: Result<V, E>|
            answered(*old(cache), *lent, key, None::<V>) && call_ensures(body, (lent,), out)
                ==> final(lent).inv(),
    ensures
        (r matches Ok(v) && answered(*old(cache), *final(cache), key, Some(v))) || exists|
            lent: &mut C,
        |
            {
                &&& answered(*old(cache), *lent, key, None::<V>)
                &&& #[trigger] call_ensures(body, (lent,), r)
                &&& match r {
                    Ok(v) => kept(*final(lent), *final(cache), key, v),
                    Err(_) => *final(cache) == *final(lent),
                }
            },
{
    match lookup(cache, &key) {
        Some(v) => Ok(v),
        None => {
            let out = body(cache);
            store_if_ok(cache, key, &out);
            out
        },
    }
}

/// Memoization: in a store that holds anything at all and whose entries do
/// not expire, a result that was stored answers the next lookup of its key.
/// The body is then not evaluated again, and what the call returns is a
/// duplicate of the duplicate that was stored: the result itself, where a
/// duplicate equals what it was made from.
pub proof fn law_kept_is_answered<K, V: Clone, C: Cached<K, V>>(
    before: C,
    stored: C,
    after: C,
    key: K,
    value: V,
    answer: Option<V>,
)
    requires
        kept(before, stored, key, value),
        answered(stored, after, key, answer),
        stored.capacity() != Some(0usize),
        stored.lifespan() is None,
    ensures
        answer is Some,
        exists|copy: V| #[trigger] cloned(value, copy) && cloned(copy, answer.unwrap()),
        (forall|a: V, b: V| #[trigger] cloned(a, b) ==> a == b) ==> answer == Some(value),
        after.entries() == stored.entries(),
{
    let copy = choose|copy: V| #[trigger] cloned(value, copy) && inserted(before, stored, key, copy);
    assert(cloned(value, copy) && cloned(copy, answer.unwrap()));
}

/// Two callers that look the same key up before either has stored a result
/// both find nothing, so that both evaluate the body: nothing holds the
/// second one back. When both have stored, the store holds a duplicate of the
/// result that was stored last, unless its capacity is zero.
pub proof fn law_both_miss_last_wins<K, V: Clone, C: Cached<K, V>>(
    before: C,
    first_looked: C,
    second_looked: C,
    first_stored: C,
    second_stored: C,
    key: K,
    second_answer: Option<V>,
    first: V,
    second: V,
)
    requires
        answered(before, first_looked, key, None::<V>),
        answered(first_looked, second_looked, key, second_answer),
        kept(second_looked, first_stored, key, first),
        kept(first_stored, second_stored, key, second),
    ensures
        second_answer is None,
        second_stored.capacity() != Some(0usize) ==> exists|copy: V| #[trigger]
            cloned(second, copy) && second_stored.entries().contains_pair(key, copy),
{
    let copy = choose|copy: V| #[trigger]
        cloned(second, copy) && inserted(first_stored, second_stored, key, copy);
    assert(cloned(second, copy));
}

} // verus!
