use mpeix::cache::{Entry, InMemoryCache, Instant};
use mpeix::calendar::TimeDelta;

const NANOS_PER_MINUTE: i128 = 60_000_000_000;

fn now() -> Instant {
    Instant { nanos: 1_700_000_000_000_000_000 }
}

fn minutes(m: i128) -> TimeDelta {
    TimeDelta { nanos: m * NANOS_PER_MINUTE }
}

fn minutes_ago(m: i128) -> Instant {
    Instant { nanos: now().nanos - m * NANOS_PER_MINUTE }
}

/// A moment just over `m` minutes ago: the clock has moved on since then.
fn over_minutes_ago(m: i128) -> Instant {
    Instant { nanos: minutes_ago(m).nanos - 1 }
}

#[test]
fn test_insert_then_get() {
    let mut cache = InMemoryCache::with_capacity(10);
    cache.insert("Hello", 1, now());
    cache.insert("World", 2, now());
    assert_eq!(cache.get(&"Hello", now()), Some(&1));
    assert_eq!(cache.get(&"World", now()), Some(&2));
}

#[test]
fn test_insert_then_get_create_expired() {
    let mut cache = InMemoryCache::with_capacity(10).expires_after_creation(minutes(5));
    let expired_entry = Entry { value: 2, created_at: over_minutes_ago(5), accessed_at: now(), hits: 0 };
    let not_expired_entry = Entry { value: 3, created_at: minutes_ago(4), accessed_at: now(), hits: 0 };
    cache.insert_entry("Expired", expired_entry);
    cache.insert_entry("NotExpired", not_expired_entry);
    assert!(cache.get(&"Expired", now()).is_none());
    assert!(cache.get(&"NotExpired", now()).is_some());
}

#[test]
fn test_insert_then_get_access_expired() {
    let mut cache = InMemoryCache::with_capacity(10).expires_after_access(minutes(5));
    let expired_entry = Entry { value: "Expired", accessed_at: over_minutes_ago(5), created_at: now(), hits: 0 };
    let not_expired_entry = Entry { value: "NotExpired", accessed_at: minutes_ago(4), created_at: now(), hits: 0 };
    cache.insert_entry(2, expired_entry);
    cache.insert_entry(3, not_expired_entry);
    assert!(cache.get(&2, now()).is_none());
    assert!(cache.get(&3, now()).is_some());
}

#[test]
fn test_insert_then_get_max_hits_expired() {
    let mut cache = InMemoryCache::with_capacity(10).max_hits(10);
    let expired_entry = Entry { value: "Expired", accessed_at: now(), created_at: now(), hits: 10 };
    let not_expired_entry = Entry { value: "NotExpired", accessed_at: now(), created_at: now(), hits: 0 };
    cache.insert_entry(2, expired_entry);
    cache.insert_entry(3, not_expired_entry);
    assert!(cache.get(&2, now()).is_none());
    assert!(cache.get(&3, now()).is_some());
}

#[test]
fn test_maximum_capacity() {
    let mut cache = InMemoryCache::with_capacity(3);
    cache.insert(1, "Lorem", now());
    cache.insert(2, "Ipsum", now());
    cache.insert(3, "Dolor", now());
    cache.insert(4, "Sit", now());
    cache.insert(5, "Amet", now());
    assert_eq!(cache.get(&1, now()), None);
    assert_eq!(cache.get(&2, now()), None);
    assert_eq!(cache.get(&3, now()), Some(&"Dolor"));
    assert_eq!(cache.get(&4, now()), Some(&"Sit"));
    assert_eq!(cache.get(&5, now()), Some(&"Amet"));
}

#[test]
fn push_returns_replaced_and_evicted_entries() {
    let mut cache = InMemoryCache::with_capacity(2);
    assert!(cache.insert(1, "a", now()).is_none());
    assert!(cache.insert(2, "b", now()).is_none());
    let (k, e) = cache.insert(2, "beta", now()).unwrap();
    assert_eq!((k, e.value), (2, "b"));
    let (k, e) = cache.insert(3, "alpha", now()).unwrap();
    assert_eq!((k, e.value), (1, "a"));
    assert_eq!(cache.get(&1, now()), None);
    assert_eq!(cache.get(&2, now()), Some(&"beta"));
    assert_eq!(cache.get(&3, now()), Some(&"alpha"));
}

#[test]
fn read_refreshes_recency() {
    let mut cache = InMemoryCache::with_capacity(2);
    cache.insert(1, "a", now());
    cache.insert(2, "b", now());
    assert_eq!(cache.get(&1, now()), Some(&"a"));
    cache.insert(3, "c", now());
    assert!(cache.contains(&1));
    assert!(!cache.contains(&2));
}

#[test]
fn peek_keeps_expired_values() {
    let mut cache = InMemoryCache::with_capacity(4).max_hits(1);
    cache.insert("k", 7, now());
    assert_eq!(cache.peek(&"k", now()), Some((&7, false)));
    assert_eq!(cache.peek(&"k", now()), Some((&7, true)));
    assert!(cache.contains(&"k"));
    assert_eq!(cache.get(&"k", now()), None);
    assert!(!cache.contains(&"k"));
}

#[test]
fn access_time_is_refreshed_by_reads() {
    let mut cache = InMemoryCache::with_capacity(4).expires_after_access(minutes(5));
    cache.insert("k", 1, minutes_ago(8));
    assert_eq!(cache.get(&"k", minutes_ago(4)), Some(&1));
    assert_eq!(cache.get(&"k", now()), Some(&1));
}

#[test]
fn an_entry_expires_only_after_its_lifetime() {
    // expired when creation time plus lifetime is less than the current time
    let mut cache = InMemoryCache::with_capacity(10).expires_after_creation(TimeDelta { nanos: 1000 });
    cache.insert(1, "a", Instant { nanos: 0 });
    assert_eq!(cache.get(&1, Instant { nanos: 1000 }), Some(&"a"));
    assert_eq!(cache.get(&1, Instant { nanos: 1001 }), None);
    assert!(!cache.contains(&1));
}

#[test]
fn an_entry_whose_end_leaves_the_calendar_never_expires() {
    let mut cache = InMemoryCache::with_capacity(10)
        .expires_after_creation(TimeDelta { nanos: -9_000_000_000_000_000_000_000 });
    cache.insert(1, "a", Instant { nanos: 0 });
    assert_eq!(cache.get(&1, Instant { nanos: 1 }), Some(&"a"));
    let mut cache = InMemoryCache::with_capacity(10).expires_after_creation(TimeDelta { nanos: -1 });
    cache.insert(1, "a", Instant { nanos: 0 });
    assert_eq!(cache.get(&1, Instant { nanos: 0 }), None);
}
