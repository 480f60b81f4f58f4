use cached::{Cached, SizedCache};

#[test]
fn sized_starts_empty() {
    let cache: SizedCache<u64, u64> = SizedCache::with_size(50);
    assert_eq!(cache.cache_size(), 0);
    assert_eq!(cache.cache_hits(), Some(0));
    assert_eq!(cache.cache_misses(), Some(0));
    assert_eq!(cache.cache_capacity(), Some(50));
    assert_eq!(cache.cache_lifespan(), None);
}

#[test]
fn sized_evicts_the_least_recently_used() {
    let mut cache: SizedCache<i32, &str> = SizedCache::with_size(2);
    cache.cache_set(1, "a");
    cache.cache_set(2, "b");
    assert_eq!(cache.cache_get(&1), Some(&"a"));
    cache.cache_set(3, "c");
    assert_eq!(cache.cache_size(), 2);
    assert_eq!(cache.cache_get(&2), None);
    assert_eq!(cache.cache_get(&1), Some(&"a"));
    assert_eq!(cache.cache_get(&3), Some(&"c"));
}

#[test]
fn sized_never_exceeds_its_capacity() {
    let mut cache: SizedCache<u32, u32> = SizedCache::with_size(5);
    for k in 0..100u32 {
        cache.cache_set(k % 37, k);
        assert!(cache.cache_size() <= 5);
    }
    assert_eq!(cache.cache_size(), 5);
}

#[test]
fn sized_fills_up_before_it_evicts() {
    let mut cache: SizedCache<u32, u32> = SizedCache::with_size(3);
    cache.cache_set(1, 1);
    assert_eq!(cache.cache_size(), 1);
    cache.cache_set(2, 2);
    assert_eq!(cache.cache_size(), 2);
    cache.cache_set(3, 3);
    assert_eq!(cache.cache_size(), 3);
    cache.cache_set(4, 4);
    assert_eq!(cache.cache_size(), 3);
}

#[test]
fn sized_unread_entries_leave_in_insertion_order() {
    let mut cache: SizedCache<u32, u32> = SizedCache::with_size(3);
    cache.cache_set(1, 10);
    cache.cache_set(2, 20);
    cache.cache_set(3, 30);
    cache.cache_set(4, 40);
    assert_eq!(cache.cache_get(&1), None);
    cache.cache_set(5, 50);
    assert_eq!(cache.cache_get(&2), None);
    assert_eq!(cache.cache_get(&3), Some(&30));
    assert_eq!(cache.cache_get(&4), Some(&40));
    assert_eq!(cache.cache_get(&5), Some(&50));
}

#[test]
fn sized_overwrite_counts_as_use() {
    let mut cache: SizedCache<u32, u32> = SizedCache::with_size(2);
    cache.cache_set(1, 10);
    cache.cache_set(2, 20);
    cache.cache_set(1, 11);
    cache.cache_set(3, 30);
    assert_eq!(cache.cache_get(&2), None);
    assert_eq!(cache.cache_get(&1), Some(&11));
    assert_eq!(cache.cache_get(&3), Some(&30));
}

#[test]
fn sized_overwrite_in_a_full_store_evicts_nothing() {
    let mut cache: SizedCache<u32, u32> = SizedCache::with_size(2);
    cache.cache_set(1, 10);
    cache.cache_set(2, 20);
    cache.cache_set(2, 21);
    assert_eq!(cache.cache_size(), 2);
    assert_eq!(cache.cache_get(&1), Some(&10));
    assert_eq!(cache.cache_get(&2), Some(&21));
}

#[test]
fn sized_overwrite_keeps_size_and_answers_the_new_value() {
    let mut cache: SizedCache<&str, u8> = SizedCache::with_size(4);
    cache.cache_set("other", 0);
    cache.cache_set("k", 1);
    let size = cache.cache_size();
    cache.cache_set("k", 2);
    assert_eq!(cache.cache_size(), size);
    assert_eq!(cache.cache_get(&"k"), Some(&2));
}

#[test]
fn sized_miss_evicts_nothing() {
    let mut cache: SizedCache<u32, u32> = SizedCache::with_size(2);
    cache.cache_set(1, 10);
    cache.cache_set(2, 20);
    assert_eq!(cache.cache_get(&7), None);
    assert_eq!(cache.cache_get(&8), None);
    assert_eq!(cache.cache_size(), 2);
    assert_eq!(cache.cache_get(&1), Some(&10));
    assert_eq!(cache.cache_get(&2), Some(&20));
}

#[test]
fn sized_counts_hits_and_misses() {
    let mut cache: SizedCache<u8, u8> = SizedCache::with_size(2);
    cache.cache_set(1, 10);
    cache.cache_set(2, 20);
    cache.cache_set(3, 30);
    assert_eq!(cache.cache_get(&1), None);
    assert_eq!(cache.cache_get(&2), Some(&20));
    assert_eq!(cache.cache_get(&3), Some(&30));
    assert_eq!(cache.cache_get(&3), Some(&30));
    assert_eq!(cache.cache_get(&4), None);
    assert_eq!(cache.cache_hits(), Some(3));
    assert_eq!(cache.cache_misses(), Some(2));
}

#[test]
fn sized_capacity_zero_never_stores() {
    let mut cache: SizedCache<u32, u32> = SizedCache::with_size(0);
    cache.cache_set(1, 10);
    assert_eq!(cache.cache_size(), 0);
    assert_eq!(cache.cache_get(&1), None);
    cache.cache_set(1, 11);
    cache.cache_set(2, 20);
    assert_eq!(cache.cache_size(), 0);
    assert_eq!(cache.cache_get(&2), None);
    assert_eq!(cache.cache_capacity(), Some(0));
    assert_eq!(cache.cache_hits(), Some(0));
    assert_eq!(cache.cache_misses(), Some(2));
}

#[test]
fn sized_capacity_one_holds_the_last_key() {
    let mut cache: SizedCache<u32, u32> = SizedCache::with_size(1);
    cache.cache_set(1, 10);
    assert_eq!(cache.cache_get(&1), Some(&10));
    cache.cache_set(2, 20);
    assert_eq!(cache.cache_size(), 1);
    assert_eq!(cache.cache_get(&1), None);
    assert_eq!(cache.cache_get(&2), Some(&20));
}

#[test]
fn sized_read_of_the_only_other_entry_decides_who_leaves() {
    let mut cache: SizedCache<u32, u32> = SizedCache::with_size(3);
    cache.cache_set(1, 10);
    cache.cache_set(2, 20);
    cache.cache_set(3, 30);
    assert_eq!(cache.cache_get(&1), Some(&10));
    assert_eq!(cache.cache_get(&2), Some(&20));
    cache.cache_set(4, 40);
    assert_eq!(cache.cache_get(&3), None);
    cache.cache_set(5, 50);
    assert_eq!(cache.cache_get(&1), None);
    assert_eq!(cache.cache_get(&2), Some(&20));
}
