use cached::{Cached, UnboundCache};

#[test]
fn unbound_starts_empty() {
    let cache: UnboundCache<u64, u64> = UnboundCache::new();
    assert_eq!(cache.cache_size(), 0);
    assert_eq!(cache.cache_hits(), Some(0));
    assert_eq!(cache.cache_misses(), Some(0));
    assert_eq!(cache.cache_capacity(), None);
    assert_eq!(cache.cache_lifespan(), None);
}

#[test]
fn unbound_returns_what_was_set() {
    let mut cache: UnboundCache<u64, String> = UnboundCache::new();
    cache.cache_set(1, String::from("one"));
    cache.cache_set(2, String::from("two"));
    assert_eq!(cache.cache_get(&1), Some(&String::from("one")));
    assert_eq!(cache.cache_get(&2), Some(&String::from("two")));
    assert_eq!(cache.cache_get(&3), None);
    assert_eq!(cache.cache_size(), 2);
}

#[test]
fn unbound_keeps_every_entry() {
    let mut cache: UnboundCache<u32, u32> = UnboundCache::new();
    for k in 0..1000u32 {
        cache.cache_set(k, k * 2);
        assert_eq!(cache.cache_size(), (k + 1) as usize);
    }
    for k in 0..1000u32 {
        assert_eq!(cache.cache_get(&k), Some(&(k * 2)));
    }
}

#[test]
fn unbound_overwrite_keeps_size_and_answers_the_new_value() {
    let mut cache: UnboundCache<&str, u8> = UnboundCache::new();
    cache.cache_set("k", 1);
    let size = cache.cache_size();
    cache.cache_set("k", 2);
    assert_eq!(cache.cache_size(), size);
    assert_eq!(cache.cache_size(), 1);
    assert_eq!(cache.cache_get(&"k"), Some(&2));
}

#[test]
fn unbound_counts_hits_and_misses() {
    let mut cache: UnboundCache<u8, u8> = UnboundCache::new();
    cache.cache_set(1, 10);
    cache.cache_set(2, 20);
    assert_eq!(cache.cache_get(&1), Some(&10));
    assert_eq!(cache.cache_get(&9), None);
    assert_eq!(cache.cache_get(&2), Some(&20));
    assert_eq!(cache.cache_get(&1), Some(&10));
    assert_eq!(cache.cache_get(&8), None);
    assert_eq!(cache.cache_hits(), Some(3));
    assert_eq!(cache.cache_misses(), Some(2));
}

#[test]
fn unbound_set_does_not_count() {
    let mut cache: UnboundCache<u8, u8> = UnboundCache::new();
    cache.cache_set(1, 10);
    cache.cache_set(1, 11);
    cache.cache_set(2, 20);
    assert_eq!(cache.cache_hits(), Some(0));
    assert_eq!(cache.cache_misses(), Some(0));
}

#[test]
fn unbound_takes_tuple_keys() {
    let mut cache: UnboundCache<(u64, u64), u64> = UnboundCache::new();
    cache.cache_set((2, 3), 6);
    assert_eq!(cache.cache_get(&(2, 3)), Some(&6));
    assert_eq!(cache.cache_get(&(3, 2)), None);
}
