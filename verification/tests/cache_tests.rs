use std::time::Instant;

use lightkeeper::cache::{classify_age, Cache, CacheScope, Freshness};

#[test]
fn classify_by_age() {
    assert_eq!(classify_age(0, 10, 20), Freshness::Fresh);
    assert_eq!(classify_age(10_000_000_000, 10, 20), Freshness::Fresh);
    assert_eq!(classify_age(10_000_000_001, 10, 20), Freshness::Stale);
    assert_eq!(classify_age(20_000_000_000, 10, 20), Freshness::Stale);
    assert_eq!(classify_age(20_000_000_001, 10, 20), Freshness::Expired);
}

#[test]
fn insert_then_get_within_time_to_live() {
    let mut cache: Cache<u64, String> = Cache::new(3600, 7200);
    assert_eq!(cache.get(&1), None);
    cache.insert(1, String::from("value"));
    assert_eq!(cache.get(&1), Some(String::from("value")));
    assert_eq!(cache.get(&1), Some(String::from("value")));
    assert_eq!(cache.get(&2), None);
}

#[test]
fn stale_entry_is_kept_but_not_served() {
    let mut cache: Cache<u64, u64> = Cache::new(10, 20);
    cache.insert(7, 70);
    assert_eq!(cache.get_with_freshness(&7, Freshness::Stale, Instant::now()), None);
    assert_eq!(cache.get_with_freshness(&7, Freshness::Fresh, Instant::now()), Some(70));
}

#[test]
fn expired_entry_is_dropped() {
    let mut cache: Cache<u64, u64> = Cache::new(10, 20);
    cache.insert(7, 70);
    assert_eq!(cache.get_with_freshness(&7, Freshness::Expired, Instant::now()), None);
    assert_eq!(cache.get_with_freshness(&7, Freshness::Fresh, Instant::now()), None);
}

#[test]
fn insert_replaces() {
    let mut cache: Cache<u64, u64> = Cache::new(60, 60);
    cache.insert(1, 1);
    cache.insert(1, 2);
    assert_eq!(cache.get_with_freshness(&1, Freshness::Fresh, Instant::now()), Some(2));
}

#[test]
fn zero_time_to_live_serves_nothing_later() {
    let mut cache: Cache<u64, u64> = Cache::new(0, 0);
    cache.insert(1, 1);
    let start = std::time::Instant::now();
    while start.elapsed().as_nanos() == 0 {}
    assert_eq!(cache.get(&1), None);
    assert_eq!(cache.get_with_freshness(&1, Freshness::Fresh, Instant::now()), None);
}

#[test]
fn cache_scope_names() {
    assert_eq!(CacheScope::from_str("Global"), Ok(CacheScope::Global));
    assert_eq!(CacheScope::from_str("Host"), Ok(CacheScope::Host));
    assert!(CacheScope::from_str("host").is_err());
}

#[test]
fn insert_at_then_fresh_lookup() {
    let mut cache: Cache<u64, u64> = Cache::new(60, 120);
    cache.insert_at(3, 30, Instant::now());
    assert_eq!(cache.get(&3), Some(30));
}

#[test]
fn purge_keeps_live_entries() {
    let mut cache: Cache<u64, u64> = Cache::new(60, 120);
    cache.insert(1, 10);
    cache.insert(2, 20);
    assert_eq!(cache.purge(), 2);
    assert_eq!(cache.get(&1), Some(10));
}

#[test]
fn purge_drops_expired_entries() {
    let mut cache: Cache<u64, u64> = Cache::new(0, 0);
    cache.insert(1, 10);
    let start = Instant::now();
    while start.elapsed().as_nanos() == 0 {}
    assert_eq!(cache.purge(), 0);
    assert_eq!(cache.get_with_freshness(&1, Freshness::Fresh, Instant::now()), None);
}
