use cached::memo::{lookup, memoized, memoized_result, store, store_if_ok};
use cached::{Cached, SizedCache, TimedCache, UnboundCache};
use std::cell::Cell;

#[test]
fn memo_body_runs_once_for_equal_keys() {
    let runs = Cell::new(0u32);
    let mut cache: UnboundCache<(u64, u64), u64> = UnboundCache::new();
    let first = memoized(&mut cache, (6, 7), |_: &mut UnboundCache<(u64, u64), u64>| {
        runs.set(runs.get() + 1);
        6 * 7
    });
    let second = memoized(&mut cache, (6, 7), |_: &mut UnboundCache<(u64, u64), u64>| {
        runs.set(runs.get() + 1);
        0
    });
    assert_eq!(first, 42);
    assert_eq!(second, 42);
    assert_eq!(runs.get(), 1);
    assert_eq!(cache.cache_hits(), Some(1));
    assert_eq!(cache.cache_misses(), Some(1));
    assert_eq!(cache.cache_size(), 1);
}

#[test]
fn memo_body_runs_for_each_new_key() {
    let runs = Cell::new(0u32);
    let mut cache: SizedCache<u64, u64> = SizedCache::with_size(8);
    for n in [1u64, 2, 3, 1, 2, 3, 4] {
        let r = memoized(&mut cache, n, |_: &mut SizedCache<u64, u64>| {
            runs.set(runs.get() + 1);
            n * n
        });
        assert_eq!(r, n * n);
    }
    assert_eq!(runs.get(), 4);
    assert_eq!(cache.cache_hits(), Some(3));
    assert_eq!(cache.cache_misses(), Some(4));
}

fn fib(cache: &mut UnboundCache<u64, u64>, runs: &Cell<u32>, n: u64) -> u64 {
    memoized(cache, n, |lent: &mut UnboundCache<u64, u64>| {
        runs.set(runs.get() + 1);
        if n < 2 {
            n
        } else {
            fib(lent, runs, n - 1) + fib(lent, runs, n - 2)
        }
    })
}

#[test]
fn memo_body_may_call_itself() {
    let runs = Cell::new(0u32);
    let mut cache: UnboundCache<u64, u64> = UnboundCache::new();
    assert_eq!(fib(&mut cache, &runs, 50), 12586269025);
    assert_eq!(runs.get(), 51);
    assert_eq!(cache.cache_size(), 51);
    assert_eq!(fib(&mut cache, &runs, 50), 12586269025);
    assert_eq!(runs.get(), 51);
}

#[test]
fn memo_evicted_result_is_computed_again() {
    let runs = Cell::new(0u32);
    let mut cache: SizedCache<u64, u64> = SizedCache::with_size(1);
    for n in [1u64, 2, 1] {
        memoized(&mut cache, n, |_: &mut SizedCache<u64, u64>| {
            runs.set(runs.get() + 1);
            n
        });
    }
    assert_eq!(runs.get(), 3);
}

#[test]
fn memo_store_of_capacity_zero_always_evaluates() {
    let runs = Cell::new(0u32);
    let mut cache: SizedCache<u64, u64> = SizedCache::with_size(0);
    for _ in 0..3 {
        let r = memoized(&mut cache, 5, |_: &mut SizedCache<u64, u64>| {
            runs.set(runs.get() + 1);
            25
        });
        assert_eq!(r, 25);
    }
    assert_eq!(runs.get(), 3);
    assert_eq!(cache.cache_size(), 0);
}

#[test]
fn memo_failure_is_returned_and_not_stored() {
    let runs = Cell::new(0u32);
    let mut cache: UnboundCache<(u64, u64), u64> = UnboundCache::new();
    let failed: Result<u64, String> =
        memoized_result(&mut cache, (0, 3), |_: &mut UnboundCache<(u64, u64), u64>| {
            runs.set(runs.get() + 1);
            Err(String::from("zero"))
        });
    assert_eq!(failed, Err(String::from("zero")));
    assert_eq!(cache.cache_size(), 0);
    assert_eq!(cache.cache_hits(), Some(0));
    assert_eq!(cache.cache_misses(), Some(1));
    let again: Result<u64, String> =
        memoized_result(&mut cache, (0, 3), |_: &mut UnboundCache<(u64, u64), u64>| {
            runs.set(runs.get() + 1);
            Err(String::from("zero again"))
        });
    assert_eq!(again, Err(String::from("zero again")));
    assert_eq!(runs.get(), 2);
    assert_eq!(cache.cache_size(), 0);
}

#[test]
fn memo_success_is_stored_and_answers_the_next_call() {
    let runs = Cell::new(0u32);
    let mut cache: UnboundCache<(u64, u64), u64> = UnboundCache::new();
    let first: Result<u64, ()> =
        memoized_result(&mut cache, (2, 3), |_: &mut UnboundCache<(u64, u64), u64>| {
            runs.set(runs.get() + 1);
            Ok(6)
        });
    let second: Result<u64, ()> =
        memoized_result(&mut cache, (2, 3), |_: &mut UnboundCache<(u64, u64), u64>| {
            runs.set(runs.get() + 1);
            Err(())
        });
    assert_eq!(first, Ok(6));
    assert_eq!(second, Ok(6));
    assert_eq!(runs.get(), 1);
    assert_eq!(cache.cache_size(), 1);
}

#[test]
fn memo_lookup_hands_out_a_duplicate() {
    let mut cache: UnboundCache<u8, Vec<u8>> = UnboundCache::new();
    store(&mut cache, 1, &vec![1, 2, 3]);
    let mut copy = lookup(&mut cache, &1).unwrap();
    copy.push(4);
    assert_eq!(lookup(&mut cache, &1), Some(vec![1, 2, 3]));
    assert_eq!(lookup(&mut cache, &2), None);
}

#[test]
fn memo_store_if_ok_stores_only_a_success() {
    let mut cache: SizedCache<u8, u8> = SizedCache::with_size(4);
    let failure: Result<u8, &str> = Err("no");
    store_if_ok(&mut cache, 1, &failure);
    assert_eq!(cache.cache_size(), 0);
    let success: Result<u8, &str> = Ok(9);
    store_if_ok(&mut cache, 1, &success);
    assert_eq!(cache.cache_size(), 1);
    assert_eq!(lookup(&mut cache, &1), Some(9));
}

#[test]
fn memo_two_callers_that_both_miss_both_evaluate() {
    let runs = Cell::new(0u32);
    let body = |tag: u32| {
        runs.set(runs.get() + 1);
        100 + tag
    };
    let mut cache: UnboundCache<&str, u32> = UnboundCache::new();
    let first_found = lookup(&mut cache, &"new");
    let second_found = lookup(&mut cache, &"new");
    assert_eq!(first_found, None);
    assert_eq!(second_found, None);
    let first = body(1);
    let second = body(2);
    store(&mut cache, "new", &first);
    store(&mut cache, "new", &second);
    assert!(runs.get() >= 1 && runs.get() <= 2);
    assert_eq!(cache.cache_size(), 1);
    assert_eq!(lookup(&mut cache, &"new"), Some(102));
    assert_eq!(cache.cache_misses(), Some(2));
}

#[test]
fn memo_expired_result_is_computed_again() {
    let mut cache: TimedCache<u8, u8> = TimedCache::with_lifespan(1);
    cache.set_at(1, 10, 0);
    assert_eq!(cache.get_at(&1, 5_000_000_000), None);
    let runs = Cell::new(0u32);
    let r = memoized(&mut cache, 1, |_: &mut TimedCache<u8, u8>| {
        runs.set(runs.get() + 1);
        11
    });
    assert_eq!(r, 11);
    assert_eq!(runs.get(), 1);
    let r = memoized(&mut cache, 1, |_: &mut TimedCache<u8, u8>| {
        runs.set(runs.get() + 1);
        12
    });
    assert_eq!(r, 11);
    assert_eq!(runs.get(), 1);
}
