use cached::stores::expiry_index::{ExpiryIndex, Stamped};
use cached::stores::lockstep::Entry;
use cached::time::{Clock, Duration, Instant};
use cached::{BuildError, SetMaxSizeError, TtlSortedCache};
use std::collections::hash_map::RandomState;
use std::hash::{Hash, Hasher};
use std::sync::atomic::{AtomicUsize, Ordering};
use std::sync::{Arc, Mutex};

/// A key that counts how often it is hashed.
#[derive(Clone, Debug)]
struct CountingKey {
    label: &'static str,
    hash_calls: Arc<AtomicUsize>,
}

impl CountingKey {
    fn new(label: &'static str) -> Self {
        Self {
            label,
            hash_calls: Arc::new(AtomicUsize::new(0)),
        }
    }
}

impl Hash for CountingKey {
    fn hash<H: Hasher>(&self, state: &mut H) {
        self.hash_calls.fetch_add(1, Ordering::Relaxed);
        self.label.hash(state);
    }
}

impl PartialEq for CountingKey {
    fn eq(&self, other: &Self) -> bool {
        self.label == other.label
    }
}

impl Eq for CountingKey {}

impl PartialOrd for CountingKey {
    fn partial_cmp(&self, other: &Self) -> Option<std::cmp::Ordering> {
        Some(self.cmp(other))
    }
}

impl Ord for CountingKey {
    fn cmp(&self, other: &Self) -> std::cmp::Ordering {
        self.label.cmp(other.label)
    }
}

/// A key of which only the label is hashed and compared.
#[derive(Clone, Debug)]
struct CoarseKey {
    label: &'static str,
    payload: u32,
}

impl Hash for CoarseKey {
    fn hash<H: Hasher>(&self, state: &mut H) {
        self.label.hash(state);
    }
}

impl PartialEq for CoarseKey {
    fn eq(&self, other: &Self) -> bool {
        self.label == other.label
    }
}

impl Eq for CoarseKey {}

impl PartialOrd for CoarseKey {
    fn partial_cmp(&self, other: &Self) -> Option<std::cmp::Ordering> {
        Some(self.cmp(other))
    }
}

impl Ord for CoarseKey {
    fn cmp(&self, other: &Self) -> std::cmp::Ordering {
        self.label.cmp(other.label)
    }
}

fn plus(t: Instant, d: Duration) -> Instant {
    t.checked_add(d).unwrap()
}

fn minus(t: Instant, d: Duration) -> Instant {
    t.checked_sub(d).unwrap()
}

fn micros(n: u64) -> Duration {
    Duration::from_nanos(n * 1_000)
}

/// The current instant of a clock, once that is not its origin any more.
fn after_start(clock: &Clock) -> Instant {
    loop {
        let now = clock.now();
        if now.nanos > 0 {
            return now;
        }
    }
}

/// Whether the cache holds an entry under the key, expired or not.
fn holds<K: Hash + Eq + Ord + Clone>(cache: &TtlSortedCache<K, u32>, k: &K) -> bool {
    cache.cache_peek_with_expiry_status(k).0.is_some()
}

/// Every entry of the cache, in the order in which they leave.
fn listed(cache: &TtlSortedCache<u32, u32>) -> Vec<(u32, u32)> {
    cache
        .iter_at(Instant { nanos: 0 })
        .into_iter()
        .map(|(k, v)| (*k, *v))
        .collect()
}

/// The index lists each stored entry once, and nothing else.
fn assert_index_lockstep<K: Hash + Eq + Ord + Clone>(cache: &TtlSortedCache<K, u32>, ctx: &str) {
    assert_eq!(
        cache.index_len(),
        cache.cache_size(),
        "{ctx}: the index and the table have one length"
    );
    let all = cache.iter_at(Instant { nanos: 0 });
    assert_eq!(
        all.len(),
        cache.cache_size(),
        "{ctx}: each stamp leads to an entry"
    );
    for i in 1..all.len() {
        for j in 0..i {
            assert!(all[i].0 != all[j].0, "{ctx}: no key is listed twice");
        }
    }
}

/// Store an entry with exactly the given deadline.
fn insert_raw(
    cache: &mut TtlSortedCache<u32, u32>,
    key: u32,
    value: u32,
    expiry: Option<Instant>,
) {
    let tick = Duration::from_nanos(1);
    match expiry {
        Some(expiry) => cache.set_inner(key, value, Some(tick), false, false, minus(expiry, tick)),
        None => cache.set_inner(
            key,
            value,
            Some(Duration::zero()),
            false,
            false,
            Instant { nanos: 0 },
        ),
    };
}

/// How many entries have a deadline before the cutoff.
fn due_before(cache: &TtlSortedCache<u32, u32>, cutoff: Instant) -> usize {
    let kept = cache.iter_at(minus(cutoff, Duration::from_nanos(1))).len();
    cache.cache_size() - kept
}

/// One entry before the cutoff, one exactly at it, one after it, and one that never
/// expires.
fn boundary_population() -> (TtlSortedCache<u32, u32>, Instant) {
    let mut cache = TtlSortedCache::<u32, u32>::builder()
        .ttl(Duration::from_secs(60))
        .build()
        .unwrap();
    let cutoff = plus(cache.clock().now(), Duration::from_secs(1));
    insert_raw(&mut cache, 1, 10, Some(minus(cutoff, Duration::from_nanos(1))));
    insert_raw(&mut cache, 2, 20, Some(cutoff));
    insert_raw(&mut cache, 3, 30, Some(plus(cutoff, Duration::from_nanos(1))));
    insert_raw(&mut cache, 4, 40, None);
    (cache, cutoff)
}

/// The index of a boundary population.
fn boundary_index() -> (ExpiryIndex<u32>, Instant) {
    let cutoff = Instant { nanos: 1_000_000 };
    let deadlines = [
        Some(minus(cutoff, Duration::from_nanos(1))),
        Some(cutoff),
        Some(plus(cutoff, Duration::from_nanos(1))),
        None,
    ];
    let mut index = ExpiryIndex::new();
    for (i, expiry) in deadlines.into_iter().enumerate() {
        index.insert(Stamped {
            expiry,
            key: Some(Arc::new(i as u32 + 1)),
        });
    }
    (index, cutoff)
}

fn interleaved_population() -> TtlSortedCache<u32, u32> {
    let mut cache = TtlSortedCache::<u32, u32>::builder()
        .ttl(Duration::from_secs(60))
        .build()
        .unwrap();
    cache.set_ttl(Duration::from_millis(100));
    cache.cache_set(1u32, 10u32);
    cache.set_ttl(Duration::zero());
    cache.cache_set(2u32, 20u32);
    cache.set_ttl(Duration::from_secs(60));
    cache.cache_set(3u32, 30u32);
    cache.set_ttl(Duration::zero());
    cache.cache_set(4u32, 40u32);
    cache
}

fn mixed_population() -> (TtlSortedCache<u32, u32>, Instant) {
    let mut cache = TtlSortedCache::<u32, u32>::builder()
        .ttl(Duration::from_secs(60))
        .build()
        .unwrap();
    let cutoff = plus(cache.clock().now(), Duration::from_secs(1));
    for k in 0u32..12 {
        let expiry = match k % 3 {
            0 => Some(minus(cutoff, micros(u64::from(k) + 1))),
            1 => Some(plus(cutoff, micros(u64::from(k % 2)))),
            _ => None,
        };
        insert_raw(&mut cache, k, k * 10, expiry);
    }
    (cache, cutoff)
}

fn populate_in_pairs(cache: &mut TtlSortedCache<u32, u32>, cutoff: Instant) {
    for k in 0u32..24 {
        let expiry = match k % 4 {
            0 | 1 => Some(minus(cutoff, micros(u64::from(k / 2) + 1))),
            2 => Some(plus(cutoff, micros(u64::from(k % 3)))),
            _ => None,
        };
        insert_raw(cache, k, k * 7, expiry);
    }
}

#[test]
fn entry_is_expired_at_uses_at_or_after_boundary() {

    let deadline = Instant { nanos: 1_000 };
    let entry = Entry {
        expiry: Some(deadline),
        key: Arc::new(1u32),
        value: 42u32,
    };

    assert!(
        entry.is_expired_at(deadline),
        "entry must be expired at exactly its deadline (at-or-after)"
    );
    assert!(
        !entry.is_expired_at(minus(deadline, Duration::from_nanos(1))),
        "entry must be live just before its deadline"
    );
    let never = Entry {
        expiry: None,
        key: Arc::new(2u32),
        value: 7u32,
    };
    assert!(!never.is_expired_at(deadline));
}

#[test]
fn set_with_ttl_overflow_stores_never_expiring_entry() {
    let mut cache = TtlSortedCache::<u32, u32>::builder()
        .ttl(Duration::from_secs(60))
        .build()
        .unwrap();
    let prev = cache.set_with(1u32, 42u32).ttl(Duration::longest()).set();
    assert_eq!(prev, None);
    assert_eq!(cache.cache_size(), 1);
    assert_eq!(cache.cache_get(&1u32), Some(&42u32));
    assert_eq!(cache.evict(), 0);
    assert_eq!(cache.cache_get(&1u32), Some(&42u32));
}

#[test]
fn ttl_sorted_ttl_secs_and_ttl_millis_set_duration() {
    let c: TtlSortedCache<u32, u32> = TtlSortedCache::builder().ttl_secs(7).build().unwrap();
    assert_eq!(c.ttl(), Some(Duration::from_secs(7)));

    let c: TtlSortedCache<u32, u32> =
        TtlSortedCache::builder().ttl_millis(250).build().unwrap();
    assert_eq!(c.ttl(), Some(Duration::from_millis(250)));
}

#[test]
fn ttl_sorted_ttl_setters_override_last_writer_wins() {
    let c: TtlSortedCache<u32, u32> = TtlSortedCache::builder()
        .ttl(Duration::from_secs(10))
        .ttl_secs(5)
        .build()
        .unwrap();
    assert_eq!(c.ttl(), Some(Duration::from_secs(5)));

    let c: TtlSortedCache<u32, u32> = TtlSortedCache::builder()
        .ttl_secs(10)
        .ttl_millis(500)
        .build()
        .unwrap();
    assert_eq!(c.ttl(), Some(Duration::from_millis(500)));
}

#[test]
fn borrow_keys() {
    let mut cache = TtlSortedCache::builder()
        .ttl(Duration::from_millis(100))
        .initial_capacity(100)
        .build()
        .unwrap();
    cache.set(String::from("a"), "a");
    assert_eq!(cache.cache_get(&"a".to_string()).unwrap(), &"a");

    let mut cache = TtlSortedCache::builder()
        .ttl(Duration::from_millis(100))
        .initial_capacity(100)
        .build()
        .unwrap();
    cache.set(vec![0], "a");
    assert_eq!(cache.cache_get(&vec![0]).unwrap(), &"a");
}

#[test]
fn cache_get_live_hit_increments_hits() {
    let key = CountingKey::new("live");
    let mut cache = TtlSortedCache::builder()
        .ttl(Duration::from_secs(60))
        .initial_capacity(1)
        .build()
        .unwrap();
    cache.set(key.clone(), 10);

    assert_eq!(cache.cache_get(&key), Some(&10));
    assert_eq!(cache.cache_hits(), Some(1));
    assert_eq!(cache.cache_misses(), Some(0));
    assert_eq!(cache.cache_size(), 1);
    assert_eq!(cache.index_len(), 1);
}

#[test]
fn cache_get_mut_live_hit_updates_value() {
    let key = CountingKey::new("live-mut");
    let mut cache = TtlSortedCache::builder()
        .ttl(Duration::from_secs(60))
        .initial_capacity(1)
        .build()
        .unwrap();
    cache.set(key.clone(), 10);

    let value = cache.cache_get_mut(&key).expect("entry should be live");
    *value = 11;

    assert_eq!(cache.cache_hits(), Some(1));
    assert_eq!(cache.cache_misses(), Some(0));
    assert_eq!(cache.cache_get(&key), Some(&11));
}

#[test]
fn set_max_size() {
    let mut cache = TtlSortedCache::builder()
        .ttl(Duration::from_millis(100))
        .initial_capacity(100)
        .build()
        .unwrap();
    cache.set_max_size(2);
    assert_eq!(0, cache.evict());
    assert_eq!(0, cache.retain_latest(100, true));
    assert!(cache.cache_get(&"a".to_string()).is_none());

    cache.set("a".to_string(), "A".to_string());
    assert_eq!(cache.cache_get(&"a".to_string()), Some("A".to_string()).as_ref());
    assert_eq!(cache.cache_size(), 1);
    cache.set("b".to_string(), "B".to_string());
    assert_eq!(cache.cache_get(&"b".to_string()), Some("B".to_string()).as_ref());
    assert_eq!(cache.cache_size(), 2);
    cache.set("c".to_string(), "C".to_string());
    assert_eq!(cache.cache_size(), 2);
    assert_eq!(cache.cache_get(&"b".to_string()), Some("B".to_string()).as_ref());
    assert_eq!(cache.cache_get(&"c".to_string()), Some("C".to_string()).as_ref());
    assert_eq!(cache.cache_get(&"a".to_string()), None);
}

#[test]
fn capacity_returns_bound_not_live_size() {
    let cache: TtlSortedCache<u32, u32> = TtlSortedCache::builder()
        .ttl(Duration::from_secs(60))
        .build()
        .unwrap();
    assert_eq!(cache.capacity(), None);
    assert_eq!(cache.capacity(), cache.cache_capacity());

    let mut cache = TtlSortedCache::builder()
        .ttl(Duration::from_secs(60))
        .max_size(3)
        .build()
        .unwrap();
    assert_eq!(cache.capacity(), Some(3));
    assert_eq!(cache.capacity(), cache.cache_capacity());

    cache.cache_set(1, 10);
    cache.cache_set(2, 20);
    assert_eq!(
        cache.capacity(),
        Some(3),
        "capacity tracks the bound, not live entries"
    );
    assert_eq!(cache.cache_size(), 2);

    cache.set_max_size(5);
    assert_eq!(cache.capacity(), Some(5));
    assert_eq!(cache.capacity(), cache.cache_capacity());
}

#[test]
fn updating_existing_key_at_size_limit_does_not_evict_another_key() {
    let mut cache = TtlSortedCache::builder()
        .ttl(Duration::from_millis(1_000))
        .initial_capacity(2)
        .build()
        .unwrap();
    cache.set_max_size(2);

    cache.set("a".to_string(), "A".to_string());
    cache.set("b".to_string(), "B".to_string());
    assert_eq!(cache.cache_size(), 2);

    assert_eq!(
        cache.set("a".to_string(), "A2".to_string()),
        Some("A".to_string())
    );
    assert_eq!(cache.cache_size(), 2);
    assert_eq!(cache.cache_get(&"a".to_string()), Some(&"A2".to_string()));
    assert_eq!(cache.cache_get(&"b".to_string()), Some(&"B".to_string()));
    assert_eq!(cache.cache_evictions(), Some(0));
}

#[test]
fn builder_rejects_zero_size_limit() {
    let cache = TtlSortedCache::<String, String>::builder()
        .ttl(Duration::from_millis(1_000))
        .max_size(0)
        .build();
    match cache {
        Ok(_) => panic!("zero size limit should fail"),
        Err(error) => assert!(
            matches!(error, BuildError::InvalidValue { .. }),
            "expected InvalidValue, got {error:?}"
        ),
    }
}

#[test]
fn try_set_max_size_rejects_zero() {
    let mut cache = TtlSortedCache::<String, String>::builder()
        .ttl(Duration::from_millis(1_000))
        .build()
        .unwrap();
    assert_eq!(
        cache.try_set_max_size(0),
        Err(SetMaxSizeError::ZeroMaxSize)
    );
    assert_eq!(cache.try_set_max_size(5).unwrap(), None);
}

#[test]
fn build_rejects_capacity_overflowing_max_size() {
    let cache = TtlSortedCache::<u32, u32>::builder()
        .ttl(Duration::from_secs(60))
        .max_size(usize::MAX)
        .build();
    match cache {
        Ok(_) => panic!("usize::MAX max_size should fail to allocate"),
        Err(error) => assert!(
            matches!(error, BuildError::InvalidValue { .. }),
            "expected InvalidValue, got {error:?}"
        ),
    }
}

#[test]
fn build_rejects_capacity_overflowing_initial_capacity() {
    let cache = TtlSortedCache::<u32, u32>::builder()
        .ttl(Duration::from_secs(60))
        .initial_capacity(usize::MAX)
        .build();
    assert!(
        matches!(cache, Err(BuildError::InvalidValue { .. })),
        "usize::MAX initial_capacity should return Err(InvalidValue)"
    );
}

#[test]
fn try_set_max_size_huge_does_not_panic() {
    let mut cache = TtlSortedCache::<u32, u32>::builder()
        .ttl(Duration::from_secs(60))
        .build()
        .unwrap();
    assert_eq!(cache.try_set_max_size(usize::MAX).unwrap(), None);
}

#[test]
fn explicit_capacity_takes_precedence_over_max_size_preallocation() {
    let cache = TtlSortedCache::<u32, u32>::builder()
        .ttl(Duration::from_secs(300))
        .max_size(65_536)
        .initial_capacity(16)
        .build()
        .unwrap();
    assert!(
        cache.room() < 65_537,
        "expected the explicit initial_capacity(16) to take precedence, got {}",
        cache.room()
    );
    assert!(cache.room() >= 16);
    assert_eq!(cache.capacity(), Some(65_536));
}

#[test]
fn max_size_alone_preallocates() {
    let cache = TtlSortedCache::<u32, u32>::builder()
        .ttl(Duration::from_secs(300))
        .max_size(64)
        .build()
        .unwrap();
    assert!(cache.room() >= 65);
}

#[test]
fn get_or_set_with_max_size_limit_short_ttl_does_not_panic() {
    let mut cache = TtlSortedCache::builder()
        .ttl(Duration::from_millis(1))
        .build()
        .unwrap();
    cache.set_max_size(1);
    cache
        .set_with("long", 1u32)
        .ttl(Duration::from_secs(60))
        .set();
    let v = cache.cache_get_or_set_with("short", || 2u32);
    assert_eq!(*v, 2);
    assert_eq!(cache.cache_size(), 1);
    assert_eq!(cache.cache_get(&"short"), Some(&2u32));
}

#[test]
fn try_get_or_set_with_max_size_limit_short_ttl_does_not_panic() {
    let mut cache = TtlSortedCache::builder()
        .ttl(Duration::from_millis(1))
        .build()
        .unwrap();
    cache.set_max_size(1);
    cache
        .set_with("long", 1u32)
        .ttl(Duration::from_secs(60))
        .set();
    let v: &mut u32 = cache
        .cache_try_get_or_set_with_mut("short", || Ok::<u32, ()>(2))
        .unwrap();
    assert_eq!(*v, 2);
    assert_eq!(cache.cache_size(), 1);
    assert_eq!(cache.cache_get(&"short"), Some(&2u32));
}

#[test]
fn shared_ref_get_or_set_with_wrapper_delegates_to_mut() {
    let mut cache: TtlSortedCache<&str, u32> = TtlSortedCache::builder()
        .ttl(Duration::from_secs(60))
        .build()
        .unwrap();

    let v: &u32 = cache.cache_get_or_set_with("a", || 1u32);
    assert_eq!(*v, 1);

    let v: &u32 = cache
        .cache_try_get_or_set_with("b", || Ok::<u32, ()>(2))
        .unwrap();
    assert_eq!(*v, 2);

    let v: &u32 = cache.cache_get_or_set_with("a", || 99u32);
    assert_eq!(*v, 1);
    assert_eq!(cache.cache_size(), 2);
}

#[test]
fn ttl_sorted_cache_clear_with_on_evict_fires_for_all_entries() {
    let count = Arc::new(AtomicUsize::new(0));
    let count2 = count.clone();
    let mut cache = TtlSortedCache::<u32, u32>::builder()
        .ttl(Duration::from_secs(60))
        .on_evict(move |_k: &u32, _v: &u32| {
            count2.fetch_add(1, Ordering::Relaxed);
        })
        .build()
        .unwrap();
    cache.cache_set(1, 10);
    cache.cache_set(2, 20);
    cache.cache_set(3, 30);
    cache.cache_clear_with_on_evict();
    assert_eq!(cache.cache_size(), 0);
    assert_eq!(cache.index_len(), 0);
    assert_eq!(count.load(Ordering::Relaxed), 3);
    assert_eq!(cache.cache_evictions(), Some(3));
}

#[test]
fn ttl_sorted_cache_clear_does_not_fire_on_evict() {
    let count = Arc::new(AtomicUsize::new(0));
    let count2 = count.clone();
    let mut cache = TtlSortedCache::<u32, u32>::builder()
        .ttl(Duration::from_secs(60))
        .on_evict(move |_k: &u32, _v: &u32| {
            count2.fetch_add(1, Ordering::Relaxed);
        })
        .build()
        .unwrap();
    cache.cache_set(1, 10);
    cache.cache_set(2, 20);
    cache.cache_clear();
    assert_eq!(cache.cache_size(), 0);
    assert_eq!(
        count.load(Ordering::Relaxed),
        0,
        "cache_clear must not fire on_evict"
    );
}

#[test]
fn cache_reset_preserves_configuration() {

    let evicted = Arc::new(AtomicUsize::new(0));
    let evicted_clone = evicted.clone();

    let mut cache = TtlSortedCache::<u8, u8>::builder()
        .ttl(Duration::from_secs(60))
        .max_size(2)
        .on_evict(move |_k: &u8, _v: &u8| {
            evicted_clone.fetch_add(1, Ordering::Relaxed);
        })
        .build()
        .expect("build failed");

    cache.cache_set(1, 1);
    cache.cache_set(2, 2);
    cache.cache_reset();
    assert_eq!(0, cache.cache_size(), "reset should clear all entries");

    cache.cache_set(3, 3);
    cache.cache_set(4, 4);
    cache.cache_set(5, 5);
    assert_eq!(2, cache.cache_size(), "size limit should still be enforced");
    assert_eq!(
        1,
        evicted.load(Ordering::Relaxed),
        "on_evict should still fire after reset"
    );
}

#[test]
fn cache_reset_preserves_initial_capacity() {
    let mut cache = TtlSortedCache::<u32, u32>::builder()
        .ttl(Duration::from_secs(60))
        .initial_capacity(128)
        .build()
        .unwrap();
    for i in 0..64 {
        cache.cache_set(i, i);
    }
    cache.cache_reset();
    assert!(
        cache.room() >= 128,
        "reset should retain the initial_capacity hint, got {}",
        cache.room()
    );
}

#[test]
fn ttl_sorted_cache_remove_entry_returns_some_for_live_entry() {
    let mut c = TtlSortedCache::<u32, u32>::builder()
        .ttl(Duration::from_secs(60))
        .build()
        .unwrap();
    c.cache_set(1u32, 100u32);
    let removed = c.cache_remove_entry(&1u32);
    assert_eq!(removed, Some((1u32, 100u32)));
    assert_eq!(c.cache_size(), 0);
}

#[test]
fn cache_remove_entry_absent_returns_none() {
    let mut c = TtlSortedCache::<u32, u32>::builder()
        .ttl(Duration::from_secs(60))
        .build()
        .unwrap();
    assert_eq!(c.cache_remove_entry(&42u32), None);
}

#[test]
fn set_ttl_zero_never_expire_entries_evicted_last_under_size_pressure() {
    let mut cache = TtlSortedCache::<u32, u32>::builder()
        .ttl(Duration::from_secs(10))
        .max_size(2)
        .build()
        .unwrap();

    cache.set_ttl(Duration::zero());
    cache.cache_set(1u32, 10u32);

    cache.set_ttl(Duration::from_millis(500));
    cache.cache_set(2u32, 20u32);
    cache.cache_set(3u32, 30u32);
    assert_eq!(cache.cache_size(), 2, "max_size must be enforced");
    assert_eq!(
        cache.cache_get(&1u32),
        Some(&10u32),
        "never-expiring entry must survive size eviction"
    );

    cache.cache_set(4u32, 40u32);
    assert_eq!(cache.cache_size(), 2);
    assert_eq!(
        cache.cache_get(&1u32),
        Some(&10u32),
        "never-expiring entry must still survive"
    );
}

#[test]
fn retain_latest_keeps_never_expiring_entries_last() {
    let mut cache = interleaved_population();
    let dropped = cache.retain_latest(2, false);
    assert_eq!(dropped, 2);
    assert_eq!(cache.cache_get(&1u32), None, "soonest finite dropped");
    assert_eq!(cache.cache_get(&3u32), None, "later finite dropped");
    assert_eq!(cache.cache_get(&2u32), Some(&20u32), "never-expires kept");
    assert_eq!(cache.cache_get(&4u32), Some(&40u32), "never-expires kept");

    let mut cache = interleaved_population();
    let dropped = cache.retain_latest(3, false);
    assert_eq!(dropped, 1);
    assert_eq!(cache.cache_get(&1u32), None, "soonest finite dropped first");
    assert_eq!(cache.cache_get(&3u32), Some(&30u32));
    assert_eq!(cache.cache_get(&2u32), Some(&20u32));
    assert_eq!(cache.cache_get(&4u32), Some(&40u32));

    let mut cache = interleaved_population();
    let dropped = cache.retain_latest(1, false);
    assert_eq!(dropped, 3);
    assert_eq!(cache.cache_size(), 1);
    assert_eq!(cache.cache_get(&1u32), None);
    assert_eq!(cache.cache_get(&3u32), None);
    let survivor_is_never =
        cache.cache_get(&2u32).is_some() || cache.cache_get(&4u32).is_some();
    assert!(
        survivor_is_never,
        "the last-retained entry must be a never-expires entry, not a finite one"
    );

    let mut cache = interleaved_population();
    let dropped = cache.retain_latest(0, false);
    assert_eq!(dropped, 4);
    assert_eq!(cache.cache_size(), 0);
}

#[test]
fn max_size_eviction_evicts_finite_before_never_interleaved() {
    let mut cache = TtlSortedCache::<u32, u32>::builder()
        .ttl(Duration::from_secs(60))
        .max_size(3)
        .build()
        .unwrap();
    cache.set_ttl(Duration::zero());
    cache.cache_set(1u32, 10u32);
    cache.set_ttl(Duration::from_secs(30));
    cache.cache_set(2u32, 20u32);
    cache.cache_set(3u32, 30u32);
    assert_eq!(cache.cache_size(), 3);
    cache.cache_set(4u32, 40u32);
    assert_eq!(cache.cache_size(), 3);
    assert_eq!(
        cache.cache_get(&1u32),
        Some(&10u32),
        "the oldest-inserted never-expires entry must not be evicted"
    );
    assert_eq!(cache.cache_get(&2u32), None, "soonest finite evicted");
    cache.cache_set(5u32, 50u32);
    cache.cache_set(6u32, 60u32);
    assert_eq!(cache.cache_size(), 3);
    assert_eq!(
        cache.cache_get(&1u32),
        Some(&10u32),
        "never-expires entry survives repeated finite-driven eviction"
    );
}

#[test]
fn ttl_sorted_custom_hasher_get_set_round_trip() {
    let mut c = TtlSortedCache::<u32, u32>::builder()
        .ttl_secs(60)
        .hasher(RandomState::new())
        .build()
        .unwrap();
    assert_eq!(c.cache_set(1, 100), None);
    assert_eq!(c.cache_set(2, 200), None);
    assert_eq!(c.cache_get(&1), Some(&100));
    assert_eq!(c.cache_get(&2), Some(&200));
    assert_eq!(c.cache_hits(), Some(2));
    assert_eq!(c.cache_misses(), Some(0));
    assert_eq!(c.cache_get(&99), None);
    assert_eq!(c.cache_misses(), Some(1));
}

#[test]
fn ttl_sorted_default_constructor_still_works() {
    let mut c: TtlSortedCache<u32, u32> = TtlSortedCache::new(Duration::from_secs(60));
    c.cache_set(1, 10);
    assert_eq!(c.cache_get(&1), Some(&10));
}

#[test]
fn ttl_sorted_builder_initial_capacity_method_exists_and_preallocates() {
    let cache = TtlSortedCache::<u32, u32>::builder()
        .ttl_secs(60)
        .initial_capacity(32)
        .build()
        .unwrap();
    assert!(cache.room() >= 32);
}

#[test]
fn set_with_ttl_override_shorter_than_existing_evicts_first_under_size_cap() {
    let mut cache = TtlSortedCache::<u32, u32>::builder()
        .ttl(Duration::from_secs(60))
        .max_size(2)
        .build()
        .unwrap();

    cache
        .set_with(1u32, 10u32)
        .ttl(Duration::from_millis(5))
        .set();
    cache.set_with(2u32, 20u32).set();
    assert_eq!(cache.cache_size(), 2, "at cap, no eviction yet");

    cache.set_with(3u32, 30u32).evict().set();
    assert_eq!(cache.cache_size(), 2, "size cap must still be enforced");
    assert_eq!(
        cache.cache_get(&1u32),
        None,
        "shorter .ttl() override must be evicted first despite earlier insertion"
    );
    assert_eq!(cache.cache_get(&2u32), Some(&20u32));
    assert_eq!(cache.cache_get(&3u32), Some(&30u32));
}

#[test]
fn set_with_ttl_zero_vs_dated_entries_eviction_order_under_size_cap() {
    let mut cache = TtlSortedCache::<u32, u32>::builder()
        .ttl(Duration::from_secs(60))
        .max_size(2)
        .build()
        .unwrap();

    cache.set_with(1u32, 10u32).ttl(Duration::zero()).set();
    cache
        .set_with(2u32, 20u32)
        .ttl(Duration::from_secs(30))
        .set();
    cache.set_with(3u32, 30u32).set();

    assert_eq!(cache.cache_size(), 2, "size cap must be enforced");
    assert_eq!(
        cache.cache_get(&1u32),
        Some(&10u32),
        "never-expiring entry set via the builder must survive size eviction"
    );
    assert_eq!(
        cache.cache_get(&2u32),
        None,
        "the shorter finite entry must be evicted before the never-expiring one"
    );
    assert_eq!(cache.cache_get(&3u32), Some(&30u32));
}

#[test]
fn set_with_evict_may_evict_the_entry_just_inserted() {
    let events = Arc::new(Mutex::new(Vec::<(u32, u32)>::new()));
    let events2 = events.clone();
    let mut cache = TtlSortedCache::<u32, u32>::builder()
        .ttl(Duration::from_secs(60))
        .max_size(1)
        .on_evict(move |k: &u32, v: &u32| {
            events2.lock().unwrap().push((*k, *v));
        })
        .build()
        .unwrap();

    cache.set_with(1u32, 100u32).set();
    assert_eq!(cache.cache_size(), 1);
    assert_eq!(cache.cache_evictions(), Some(0));

    let displaced = cache
        .set_with(2u32, 200u32)
        .ttl(Duration::from_millis(1))
        .evict()
        .set();
    assert_eq!(
        displaced, None,
        "the terminal .set() return reflects only same-key displacement, not self-eviction"
    );

    assert_eq!(cache.cache_size(), 1, "size cap must still be enforced");
    assert_eq!(
        cache.cache_get(&1u32),
        Some(&100u32),
        "the long-lived entry must survive"
    );
    assert_eq!(
        cache.cache_get(&2u32),
        None,
        "the just-inserted, soonest-to-expire entry must have been evicted"
    );

    let fired = events.lock().unwrap().clone();
    assert_eq!(
        fired,
        vec![(2u32, 200u32)],
        "on_evict must fire exactly once, for the just-inserted key that was evicted"
    );
    assert_eq!(cache.cache_evictions(), Some(1));
}

#[test]
fn set_with_evict_on_evict_fires_with_correct_kv_for_size_eviction() {
    let events = Arc::new(Mutex::new(Vec::<(u32, u32)>::new()));
    let events2 = events.clone();
    let mut cache = TtlSortedCache::<u32, u32>::builder()
        .ttl(Duration::from_secs(60))
        .max_size(1)
        .on_evict(move |k: &u32, v: &u32| {
            events2.lock().unwrap().push((*k, *v));
        })
        .build()
        .unwrap();

    cache.set_with(1u32, 111u32).set();
    assert!(events.lock().unwrap().is_empty());

    cache.set_with(2u32, 222u32).evict().set();

    let fired = events.lock().unwrap().clone();
    assert_eq!(
        fired,
        vec![(1u32, 111u32)],
        "on_evict must report the evicted entry's own key/value, not the new one"
    );
    assert_eq!(cache.cache_evictions(), Some(1));
    assert_eq!(cache.cache_get(&2u32), Some(&222u32));
}

#[test]
fn retain_keeps_btreeset_index_in_lockstep_with_map() {
    let mut cache = TtlSortedCache::<u32, u32>::builder()
        .ttl(Duration::from_secs(60))
        .build()
        .unwrap();
    for k in 0u32..6 {
        cache.set(k, k * 10);
    }
    cache.set_with(100u32, 1000u32).ttl(Duration::zero()).set();
    cache.set_with(101u32, 1010u32).ttl(Duration::zero()).set();
    assert_index_lockstep(&cache, "before retain");

    cache.retain(|k, _v| k % 2 == 0);

    assert_index_lockstep(&cache, "after predicate retain");
    assert_eq!(cache.cache_size(), 4, "0, 2, 4 and 100 survive, nothing else");
    assert!(holds(&cache, &100u32));
    assert!(!holds(&cache, &101u32));
}

#[test]
fn retain_index_lockstep_when_a_size_limited_insert_follows() {
    let mut cache = TtlSortedCache::<u32, u32>::builder()
        .ttl(Duration::from_secs(60))
        .max_size(3)
        .build()
        .unwrap();
    for k in 1u32..=3 {
        cache
            .set_with(k, k * 10)
            .ttl(Duration::from_secs(10 * u64::from(k)))
            .set();
    }
    assert_index_lockstep(&cache, "before retain");

    cache.retain(|k, _v| *k != 1);
    assert_index_lockstep(&cache, "after retain");
    assert_eq!(cache.cache_size(), 2, "retain does not enforce size_limit");

    cache
        .set_with(4u32, 40u32)
        .ttl(Duration::from_secs(40))
        .set();
    assert_eq!(cache.cache_size(), 3);
    assert_index_lockstep(&cache, "at the cap");

    cache
        .set_with(5u32, 50u32)
        .ttl(Duration::from_secs(50))
        .set();
    assert_eq!(cache.cache_size(), 3, "the cap is restored by the insert");
    assert!(
        !holds(&cache, &2u32),
        "the soonest-to-expire survivor is the victim"
    );
    assert!(holds(&cache, &3u32));
    assert!(holds(&cache, &4u32));
    assert!(holds(&cache, &5u32));
    assert_index_lockstep(&cache, "after size-limit eviction");
}

#[test]
fn retain_index_lockstep_with_protected_get_or_set_with_mut() {
    let mut cache = TtlSortedCache::<u32, u32>::builder()
        .ttl(Duration::from_secs(60))
        .max_size(2)
        .build()
        .unwrap();
    cache
        .set_with(1u32, 10u32)
        .ttl(Duration::from_secs(10))
        .set();
    cache
        .set_with(2u32, 20u32)
        .ttl(Duration::from_secs(20))
        .set();
    cache.retain(|k, _v| *k != 1);
    assert_index_lockstep(&cache, "after retain");

    assert_eq!(*cache.cache_get_or_set_with_mut(3u32, || 30), 30);
    assert_index_lockstep(&cache, "after unprotected insert");

    {
        let v = cache.cache_get_or_set_with_mut(4u32, || 40);
        *v += 1;
    }
    assert_eq!(cache.cache_size(), 2);
    assert!(holds(&cache, &4u32), "the new entry is protected");
    assert!(!holds(&cache, &2u32));
    assert_index_lockstep(&cache, "after protected eviction");

    assert_eq!(cache.retain_latest(0, false), 2);
    assert_eq!(cache.cache_size(), 0);
    assert_index_lockstep(&cache, "after full trim");
}

#[test]
fn retain_index_lockstep_with_protected_try_get_or_set_with_mut() {
    let mut cache = TtlSortedCache::<u32, u32>::builder()
        .ttl(Duration::from_secs(60))
        .max_size(2)
        .build()
        .unwrap();
    cache
        .set_with(1u32, 10u32)
        .ttl(Duration::from_secs(10))
        .set();
    cache
        .set_with(2u32, 20u32)
        .ttl(Duration::from_secs(20))
        .set();
    cache.retain(|k, _v| *k != 1);

    let err: Result<&mut u32, &str> = cache.cache_try_get_or_set_with_mut(9u32, || Err("no"));
    assert_eq!(err, Err("no"));
    assert_eq!(cache.cache_size(), 1, "a failed factory inserts nothing");
    assert_index_lockstep(&cache, "after failed factory");

    let ok: Result<&mut u32, &str> = cache.cache_try_get_or_set_with_mut(3u32, || Ok(30));
    assert_eq!(ok, Ok(&mut 30));
    let ok: Result<&mut u32, &str> = cache.cache_try_get_or_set_with_mut(4u32, || Ok(40));
    assert_eq!(ok, Ok(&mut 40));
    assert_eq!(cache.cache_size(), 2);
    assert!(holds(&cache, &4u32));
    assert!(!holds(&cache, &2u32), "key 2 expires soonest");
    assert_index_lockstep(&cache, "after protected eviction");
}

#[test]
fn retain_index_lockstep_survives_clone() {
    let mut cache = TtlSortedCache::<u32, u32>::builder()
        .ttl(Duration::from_secs(60))
        .build()
        .unwrap();
    for k in 0u32..6 {
        cache
            .set_with(k, k * 10)
            .ttl(Duration::from_secs(10 + u64::from(k)))
            .set();
    }
    cache.set_with(100u32, 1000u32).ttl(Duration::zero()).set();
    cache.retain(|k, _v| k % 2 == 0);

    let mut clone = cache.clone();
    assert_index_lockstep(&clone, "clone of a retained cache");
    assert_eq!(clone.cache_size(), cache.cache_size());

    assert_eq!(clone.retain_latest(1, false), 3);
    assert!(
        holds(&clone, &100u32),
        "the never-expiring entry sorts last and is kept"
    );
    assert_index_lockstep(&clone, "clone after trim");
    assert_eq!(cache.cache_size(), 4);
    assert_index_lockstep(&cache, "original after clone trim");

    clone.retain(|_k, _v| false);
    assert_eq!(clone.cache_size(), 0);
    assert_eq!(cache.cache_size(), 4);
    assert_index_lockstep(&cache, "original after clone retain");
}

#[test]
fn retain_rejecting_everything_drains_both_structures() {
    let mut cache = TtlSortedCache::<u32, u32>::builder()
        .ttl(Duration::from_secs(60))
        .build()
        .unwrap();
    for k in 0u32..4 {
        cache.set(k, k);
    }
    cache.set_with(100u32, 100u32).ttl(Duration::zero()).set();

    cache.retain(|_k, _v| false);
    assert_eq!(cache.cache_size(), 0);
    assert!(
        (cache.index_len() == 0),
        "the expiry index must be drained with the map"
    );
    assert_index_lockstep(&cache, "after draining retain");
    assert_eq!(cache.evict(), 0);
    assert_eq!(cache.retain_latest(0, true), 0);

    cache.retain(|_k, _v| false);
    cache.retain(|_k, _v| true);
    assert_index_lockstep(&cache, "after empty-cache retain");

    cache.set(7u32, 77u32);
    assert_index_lockstep(&cache, "after reinsert");
    assert_eq!(cache.cache_get(&7u32), Some(&77u32));
}

#[test]
fn retain_index_lockstep_with_colliding_expiry_instants() {
    let mut cache = TtlSortedCache::<u32, u32>::builder()
        .ttl(Duration::from_secs(60))
        .build()
        .unwrap();
    for k in 0u32..64 {
        cache.set(k, k);
    }
    assert_index_lockstep(&cache, "before retain");

    cache.retain(|k, _v| k % 2 == 0);
    assert_eq!(cache.cache_size(), 32);
    assert_index_lockstep(&cache, "after retain");
    for k in 0u32..64 {
        assert_eq!(
            holds(&cache, &k),
            k % 2 == 0,
            "exactly the even keys survive"
        );
    }
    assert_eq!(cache.evict(), 0, "nothing is expired, nothing is stale");

    assert_eq!(cache.retain_latest(0, false), 32);
    assert_eq!(cache.cache_size(), 0);
    assert_eq!(cache.index_len(), 0);
}

#[test]
fn evict_at_boundary_tie_and_never_expiring_entries_match_the_old_range_bounds() {
    let (mut cache, cutoff) = boundary_population();
    assert_eq!(
        due_before(&cache, cutoff),
        1,
        "only the strictly-earlier entry is due"
    );

    assert_eq!(
        cache.evict_at(cutoff),
        1,
        "only the entry expiring strictly before the cutoff is swept"
    );
    assert!(!holds(&cache, &1u32), "strictly earlier is swept");
    assert!(
        holds(&cache, &2u32),
        "an exact tie with the cutoff survives"
    );
    assert!(holds(&cache, &3u32), "later expiry survives");
    assert!(holds(&cache, &4u32), "never-expiring survives");
    assert_index_lockstep(&cache, "after a boundary evict_at");

    assert_eq!(cache.evict_at(plus(cutoff, Duration::from_nanos(1))), 1);
    assert!(!holds(&cache, &2u32));
    assert!(holds(&cache, &3u32));
    assert!(holds(&cache, &4u32));
    assert_index_lockstep(&cache, "after sweeping the tie");
}

#[test]
fn evict_at_drop_count_matches_the_old_two_pass_range_count() {
    let mut cache = TtlSortedCache::<u32, u32>::builder()
        .ttl(Duration::from_secs(60))
        .build()
        .unwrap();
    let cutoff = plus(cache.clock().now(), Duration::from_secs(1));
    for k in 0u32..30 {
        let expiry = match k % 3 {
            0 => Some(minus(cutoff, micros(u64::from(k / 3) + 1))),
            1 => Some(plus(cutoff, micros(u64::from(k % 2)))),
            _ => None,
        };
        insert_raw(&mut cache, k, k * 10, expiry);
    }
    let expected = due_before(&cache, cutoff);
    assert_eq!(expected, 10, "reference count over the mixed population");

    assert_eq!(
        cache.evict_at(cutoff),
        expected,
        "what is due is dropped, and nothing else"
    );
    assert_eq!(cache.cache_size(), 20);
    assert_index_lockstep(&cache, "after a mixed evict_at");
    for k in 0u32..30 {
        assert_eq!(
            holds(&cache, &k),
            k % 3 != 0,
            "exactly the expired third is swept"
        );
    }
    assert_eq!(
        cache.evict_at(cutoff),
        0,
        "a repeat sweep at the same cutoff drops nothing"
    );
}

#[test]
fn retain_latest_at_boundary_tie_and_never_expiring_entries_match_the_old_range_bounds() {
    let (mut cache, cutoff) = boundary_population();
    assert_eq!(
        cache.retain_latest_at(4, Some(cutoff)),
        1,
        "only the strictly-earlier entry is swept; the tie is kept"
    );
    assert!(holds(&cache, &2u32), "the exact tie survives");
    assert!(holds(&cache, &4u32), "never-expiring survives");
    assert_index_lockstep(&cache, "after a boundary retain_latest_at");

    let (mut cache, cutoff) = boundary_population();
    assert_eq!(
        cache.retain_latest_at(2, Some(cutoff)),
        2,
        "trim of 2 dominates the single expired entry"
    );
    assert!(!holds(&cache, &1u32), "expired dropped first");
    assert!(!holds(&cache, &2u32), "then the soonest-to-expire");
    assert!(
        holds(&cache, &4u32),
        "never-expiring entries are retained last"
    );
    assert_index_lockstep(&cache, "after a size-dominated retain_latest_at");

    let (mut cache, _cutoff) = boundary_population();
    assert_eq!(cache.retain_latest_at(4, None), 0);
    assert_eq!(cache.cache_size(), 4, "no trim needed, no sweep requested");
    assert_index_lockstep(&cache, "after a no-op retain_latest_at");
}

#[test]
fn retain_latest_at_drop_count_matches_the_old_two_pass_logic() {
    for keep in 0..=13usize {
        for sweep in [false, true] {
            let (mut cache, cutoff) = mixed_population();
            let retain_drop_count = cache.cache_size().saturating_sub(keep);
            let expected = if sweep {
                retain_drop_count.max(due_before(&cache, cutoff))
            } else {
                retain_drop_count
            };
            let dropped = cache.retain_latest_at(keep, sweep.then_some(cutoff));
            assert_eq!(
                dropped, expected,
                "keep={keep} sweep={sweep}: the larger of the two counts is dropped"
            );
            assert_eq!(cache.cache_size(), 12 - expected);
            assert_index_lockstep(&cache, "after retain_latest_at");
        }
    }
}

#[test]
fn overwrite_replaces_the_index_stamp_only_when_the_expiry_changes() {
    let mut cache = TtlSortedCache::<u32, u32>::builder()
        .ttl(Duration::from_secs(60))
        .build()
        .unwrap();
    cache.set_with(1u32, 10u32).ttl(Duration::zero()).set();
    cache.set_with(2u32, 20u32).ttl(Duration::zero()).set();
    assert_index_lockstep(&cache, "never-expiring pair");

    assert_eq!(
        cache.set_with(1u32, 11u32).ttl(Duration::zero()).set(),
        Some(10u32)
    );
    assert_eq!(cache.index_len(), 2);
    assert_index_lockstep(&cache, "after a same-expiry overwrite");

    assert_eq!(
        cache
            .set_with(1u32, 12u32)
            .ttl(Duration::from_secs(30))
            .set(),
        Some(11u32)
    );
    assert_eq!(cache.index_len(), 2, "the stale never-expires stamp is gone");
    assert_index_lockstep(&cache, "after an expiry-changing overwrite");
    assert_eq!(cache.retain_latest(1, false), 1);
    assert!(
        !holds(&cache, &1u32),
        "the re-stamped entry now expires first and is trimmed first"
    );
    assert!(holds(&cache, &2u32));
    assert_index_lockstep(&cache, "after trimming the re-stamped entry");
}

#[test]
fn bound_sentinel_sorts_below_every_real_key_at_the_same_expiry() {

    let t = Instant { nanos: 1_000 };
    let sentinel = Stamped::<u32>::bound(t);
    for k in [u32::MIN, 1u32, u32::MAX] {
        let real = Stamped {
            expiry: Some(t),
            key: Some(Arc::new(k)),
        };
        assert!(
            sentinel.precedes(&real),
            "bound({t:?}) must sort below the real key {k} at the same expiry"
        );
    }
    let never = Stamped {
        expiry: None,
        key: Some(Arc::new(0u32)),
    };
    assert!(sentinel.precedes(&never), "None expiry sorts greatest");
    assert!(
        Stamped::<u32>::bound(plus(t, Duration::from_secs(60 * 60 * 24 * 365))).precedes(&never),
        "no finite cutoff can ever reach a never-expiring stamp"
    );
    assert!(sentinel.precedes(&Stamped::<u32>::bound(plus(t, Duration::from_nanos(1)))));
}

#[test]
fn evict_at_pivot_choice_is_observable_at_the_tie() {
    for (shift_back, expected) in [(true, 0usize), (false, 1)] {
        let (mut index, cutoff) = boundary_index();
        let pivot = if shift_back {
            Stamped::<u32>::bound(minus(cutoff, Duration::from_nanos(1)))
        } else {
            Stamped::<u32>::bound(cutoff)
        };
        assert_eq!(
            index.split_below(&pivot).len(),
            expected,
            "shift_back={shift_back}: the split prefix must be sensitive to the pivot"
        );
        assert_eq!(index.len(), 4 - expected);
    }
    let (mut index, cutoff) = boundary_index();
    let past_tie = index
        .split_below(&Stamped::<u32>::bound(plus(cutoff, Duration::from_nanos(1))))
        .len();
    assert_eq!(
        past_tie, 2,
        "a pivot one tick past the tie would sweep the tied entry too"
    );
    let (mut cache, cutoff) = boundary_population();
    assert_eq!(cache.evict_at(cutoff), 1);
}

#[test]
fn evict_at_on_an_empty_index_is_a_noop() {
    let mut cache = TtlSortedCache::<u32, u32>::builder()
        .ttl(Duration::from_secs(60))
        .build()
        .unwrap();
    let now = cache.clock().now();
    assert_eq!(cache.evict_at(now), 0);
    assert_eq!(cache.evict_at(plus(now, Duration::from_secs(1000))), 0);
    assert_eq!(cache.index_len(), 0);
    assert_eq!(cache.cache_size(), 0);
    assert_eq!(cache.cache_evictions(), Some(0));
    assert_index_lockstep(&cache, "empty evict_at");

    cache.set(1u32, 1u32);
    assert_index_lockstep(&cache, "after reuse");
    assert_eq!(cache.cache_get(&1u32), Some(&1u32));
}

#[test]
fn evict_at_with_an_entirely_expired_index_drains_everything() {
    for with_callback in [false, true] {
        let fired = Arc::new(AtomicUsize::new(0));
        let fired2 = fired.clone();
        let mut builder = TtlSortedCache::<u32, u32>::builder().ttl(Duration::from_secs(60));
        if with_callback {
            builder = builder.on_evict(move |_k: &u32, _v: &u32| {
                fired2.fetch_add(1, Ordering::Relaxed);
            });
        }
        let mut cache = builder.build().unwrap();
        let cutoff = plus(cache.clock().now(), Duration::from_secs(1));
        for k in 0u32..8 {
            insert_raw(
                &mut cache,
                k,
                k,
                Some(minus(cutoff, micros(u64::from(k) + 1))),
            );
        }
        assert_eq!(cache.evict_at(cutoff), 8, "with_callback={with_callback}");
        assert!((cache.index_len() == 0), "the index must be fully drained");
        assert_eq!(cache.cache_size(), 0);
        assert_eq!(cache.cache_evictions(), Some(8));
        assert_eq!(
            fired.load(Ordering::Relaxed),
            usize::from(with_callback) * 8
        );
        assert_index_lockstep(&cache, "after draining every entry");
        assert_eq!(cache.evict_at(cutoff), 0, "a repeat sweep drops nothing");
    }
}

#[test]
fn evict_at_with_an_entirely_live_index_drops_nothing() {
    let mut cache = TtlSortedCache::<u32, u32>::builder()
        .ttl(Duration::from_secs(60))
        .build()
        .unwrap();
    let cutoff = plus(cache.clock().now(), Duration::from_secs(1));
    for k in 0u32..8 {
        let expiry = if k % 2 == 0 {
            Some(plus(cutoff, micros(u64::from(k) + 1)))
        } else {
            None
        };
        insert_raw(&mut cache, k, k * 10, expiry);
    }
    let before = listed(&cache);

    assert_eq!(cache.evict_at(cutoff), 0);
    assert_eq!(cache.cache_size(), 8);
    assert_eq!(cache.cache_evictions(), Some(0));
    let after = listed(&cache);
    assert_eq!(before, after, "the live half is swapped back in order");
    assert_index_lockstep(&cache, "after an all-live evict_at");
}

#[test]
fn evict_at_single_element_exactly_at_the_tie_is_kept() {
    let cutoff = plus(Instant { nanos: 1_000_000 }, Duration::from_secs(1));
    let cases: [(Option<Duration>, usize); 3] = [
        (Some(Duration::zero()), 0),
        (Some(Duration::from_nanos(1)), 1),
        (None, 0),
    ];
    for (back_off, expected) in cases {
        let mut cache = TtlSortedCache::<u32, u32>::builder()
            .ttl(Duration::from_secs(60))
            .build()
            .unwrap();
        let expiry = back_off.map(|d| minus(cutoff, d));
        insert_raw(&mut cache, 1u32, 10u32, expiry);
        assert_eq!(
            due_before(&cache, cutoff),
            expected,
            "due for back_off={back_off:?}"
        );
        assert_eq!(
            cache.evict_at(cutoff),
            expected,
            "single-element boundary for back_off={back_off:?}"
        );
        assert_eq!(cache.cache_size(), 1 - expected);
        assert_index_lockstep(&cache, "single-element boundary");
    }
}

#[test]
fn evict_at_fires_on_evict_in_expiry_order_after_every_map_removal() {
    let log = Arc::new(Mutex::new(Vec::<(u32, u32)>::new()));
    let log2 = log.clone();
    let mut cache = TtlSortedCache::<u32, u32>::builder()
        .ttl(Duration::from_secs(60))
        .on_evict(move |k: &u32, v: &u32| log2.lock().unwrap().push((*k, *v)))
        .build()
        .unwrap();
    let cutoff = plus(cache.clock().now(), Duration::from_secs(1));
    for k in [3u32, 0, 4, 1, 2] {
        insert_raw(
            &mut cache,
            k,
            k * 10,
            Some(minus(cutoff, micros(10 - u64::from(k)))),
        );
    }
    insert_raw(&mut cache, 100u32, 1000u32, Some(cutoff));

    let dropped = cache.evict_at(cutoff);
    assert_eq!(dropped, 5, "the returned count is the number of drops");
    assert_eq!(
        cache.cache_evictions(),
        Some(5),
        "the counter agrees with the return value"
    );
    assert_eq!(
        *log.lock().unwrap(),
        vec![(0, 0), (1, 10), (2, 20), (3, 30), (4, 40)],
        "callbacks fire in ascending expiry order, once per removed entry"
    );
    assert_eq!(cache.cache_size(), 1);
    assert_index_lockstep(&cache, "after an ordered deferred sweep");
}

#[test]
fn evict_at_drain_branches_agree_on_count_state_and_evictions() {
    let cutoff = plus(Instant { nanos: 1_000_000 }, Duration::from_secs(1));

    let mut plain = TtlSortedCache::<u32, u32>::builder()
        .ttl(Duration::from_secs(60))
        .build()
        .unwrap();
    populate_in_pairs(&mut plain, cutoff);

    let fired = Arc::new(AtomicUsize::new(0));
    let fired2 = fired.clone();
    let mut with_cb = TtlSortedCache::<u32, u32>::builder()
        .ttl(Duration::from_secs(60))
        .on_evict(move |_k: &u32, _v: &u32| {
            fired2.fetch_add(1, Ordering::Relaxed);
        })
        .build()
        .unwrap();
    populate_in_pairs(&mut with_cb, cutoff);

    let plain_dropped = plain.evict_at(cutoff);
    let cb_dropped = with_cb.evict_at(cutoff);

    assert_eq!(
        plain_dropped, cb_dropped,
        "both drain branches drop the same count"
    );
    assert_eq!(plain_dropped, 12, "half the population is expired");
    assert_eq!(plain.cache_evictions(), with_cb.cache_evictions());
    assert_eq!(plain.cache_evictions(), Some(12));
    assert_eq!(fired.load(Ordering::Relaxed), 12);

    assert_eq!(
        listed(&plain),
        listed(&with_cb),
        "the same entries survive, in the same order"
    );
    for later in [0u64, 1, 2] {
        let now = plus(cutoff, micros(later));
        assert_eq!(plain.iter_at(now).len(), with_cb.iter_at(now).len());
    }
    assert_index_lockstep(&plain, "no-callback branch");
    assert_index_lockstep(&with_cb, "callback branch");
}

#[test]
fn retain_latest_at_tie_stops_the_sweep_after_the_size_trim() {
    let (mut cache, cutoff) = boundary_population();
    assert_eq!(
        cache.retain_latest_at(3, Some(cutoff)),
        1,
        "the tied entry must not be swept by the post-trim expiry loop"
    );
    assert!(!holds(&cache, &1u32));
    assert!(holds(&cache, &2u32), "the exact tie survives");
    assert!(holds(&cache, &3u32));
    assert!(holds(&cache, &4u32));
    assert_index_lockstep(&cache, "after a post-trim tie stop");

    let (mut cache, cutoff) = boundary_population();
    assert_eq!(
        cache.retain_latest_at(3, Some(plus(cutoff, Duration::from_nanos(1)))),
        2
    );
    assert!(!holds(&cache, &2u32));
    assert!(holds(&cache, &3u32));
    assert_index_lockstep(&cache, "after sweeping past the tie");
}

#[test]
fn coarse_key_overwrite_keeps_lockstep_and_reports_the_first_stored_key() {
    let seen = Arc::new(Mutex::new(Vec::<u32>::new()));
    let seen2 = seen.clone();
    let mut cache = TtlSortedCache::<CoarseKey, u32>::builder()
        .ttl(Duration::from_secs(60))
        .on_evict(move |k: &CoarseKey, _v: &u32| seen2.lock().unwrap().push(k.payload))
        .build()
        .unwrap();

    let first = CoarseKey {
        label: "a",
        payload: 1,
    };
    let second = CoarseKey {
        label: "a",
        payload: 2,
    };
    assert_eq!(first, second, "the two keys compare equal");
    assert_eq!(first.cmp(&second), std::cmp::Ordering::Equal);

    cache.cache_set(first.clone(), 10u32);
    assert_eq!(cache.cache_set(second.clone(), 20u32), Some(10u32));
    assert_eq!(cache.cache_size(), 1);
    assert_eq!(cache.index_len(), 1, "no duplicate stamp for an equal key");
    assert_index_lockstep(&cache, "after a coarse-key overwrite");

    assert_eq!(
        cache.iter()[0].0.payload, 1,
        "an overwrite keeps the key that was stored first"
    );

    let removed = cache.cache_remove_entry(&second).expect("present");
    assert_eq!(removed.0.payload, 1, "the stored key is returned");
    assert_eq!(removed.1, 20u32);
    assert_eq!(*seen.lock().unwrap(), vec![1u32]);
    assert_eq!(cache.cache_size(), 0);
    assert_eq!(cache.index_len(), 0);
    assert_index_lockstep(&cache, "after a coarse-key removal");
}

#[test]
fn coarse_key_overwrite_with_a_new_expiry_replaces_exactly_one_stamp() {
    let mut cache = TtlSortedCache::<CoarseKey, u32>::builder()
        .ttl(Duration::from_secs(60))
        .build()
        .unwrap();
    let a1 = CoarseKey {
        label: "a",
        payload: 1,
    };
    let a2 = CoarseKey {
        label: "a",
        payload: 2,
    };
    let b = CoarseKey {
        label: "b",
        payload: 9,
    };
    cache.set_with(a1, 10u32).ttl(Duration::zero()).set();
    cache.set_with(b, 90u32).ttl(Duration::from_secs(30)).set();
    assert_index_lockstep(&cache, "coarse pair");

    assert_eq!(
        cache.set_with(a2.clone(), 10u32).ttl(Duration::zero()).set(),
        Some(10u32)
    );
    assert_eq!(cache.cache_size(), 2);
    assert_eq!(
        cache.index_len(),
        2,
        "the single stamp survives the overwrite"
    );
    assert_index_lockstep(&cache, "after a same-expiry coarse-key overwrite");

    assert_eq!(
        cache
            .set_with(a2.clone(), 11u32)
            .ttl(Duration::from_secs(5))
            .set(),
        Some(10u32)
    );
    assert_eq!(cache.cache_evictions(), Some(0), "no expired displacement");
    assert_eq!(cache.cache_size(), 2);
    assert_eq!(cache.index_len(), 2, "the stale stamp is gone");
    assert_index_lockstep(&cache, "after a coarse-key re-stamp");

    assert_eq!(cache.retain_latest(1, false), 1);
    assert!(!holds(&cache, &a2));
    assert_index_lockstep(&cache, "after trimming the re-stamped coarse key");
}

#[test]
fn lockstep_holds_across_a_mixed_public_operation_sequence() {
    let mut cache = TtlSortedCache::<u32, u32>::builder()
        .ttl(Duration::from_millis(30))
        .max_size(5)
        .on_evict(|_k: &u32, _v: &u32| {})
        .build()
        .unwrap();
    for round in 0u32..40 {
        let k = round % 7;
        match round % 8 {
            0 => {
                cache.set(k, round);
            }
            1 => {
                cache.set_with(k, round).ttl(Duration::zero()).set();
            }
            2 => {
                cache
                    .set_with(k, round)
                    .ttl(Duration::from_millis(10))
                    .evict()
                    .set();
            }
            3 => {
                let _ = cache.cache_get(&k);
            }
            4 => {
                let _ = cache.cache_remove(&k);
            }
            5 => {
                let _ = cache.cache_get_or_set_with_mut(k, || round);
            }
            6 => {
                cache.retain(|kk, _v| *kk != round % 5);
            }
            _ => {
                let _ = cache.retain_latest(3, round % 16 == 7);
            }
        }
        assert_index_lockstep(&cache, "mixed sequence");
        assert!(cache.cache_size() <= 5 || round % 8 == 5);
    }
    let _ = cache.evict();
    assert_index_lockstep(&cache, "after the final sweep");
    cache.cache_clear();
    assert_index_lockstep(&cache, "after clear");
}

#[test]
fn set_inner_classifies_the_displaced_entry_against_its_clock_sample() {
    let fired = Arc::new(AtomicUsize::new(0));
    let fired2 = fired.clone();
    let mut cache = TtlSortedCache::<u32, u32>::builder()
        .ttl(Duration::from_secs(60))
        .on_evict(move |_k: &u32, _v: &u32| {
            fired2.fetch_add(1, Ordering::Relaxed);
        })
        .build()
        .unwrap();

    let now = after_start(&cache.clock());
    insert_raw(
        &mut cache,
        1u32,
        10u32,
        Some(minus(now, Duration::from_nanos(1))),
    );
    assert_eq!(cache.cache_set(1u32, 11u32), None);
    assert_eq!(fired.load(Ordering::Relaxed), 1);
    assert_eq!(cache.cache_evictions(), Some(1));
    assert_index_lockstep(&cache, "after displacing an expired entry");

    insert_raw(
        &mut cache,
        2u32,
        20u32,
        Some(plus(now, Duration::from_secs(3600))),
    );
    assert_eq!(cache.cache_set(2u32, 21u32), Some(20u32));
    assert_eq!(fired.load(Ordering::Relaxed), 1);
    assert_eq!(cache.cache_evictions(), Some(1));
    assert_index_lockstep(&cache, "after displacing a live entry");
}

#[test]
fn ttl_sorted_test_diagnostics_and_traits() {
    let mut cache = TtlSortedCache::builder()
        .ttl(Duration::from_secs(60))
        .max_size(3)
        .build()
        .unwrap();
    cache.cache_set(1, 100);
    cache.cache_set(2, 200);

    let mut cloned = cache.clone();
    assert_eq!(cloned.cache_get(&1), Some(&100));
    assert_eq!(cloned.cache_get(&2), Some(&200));

    let built = TtlSortedCache::<u32, u32>::builder().build();
    assert!(built.is_err());

    let built = TtlSortedCache::<u32, u32>::builder()
        .ttl(Duration::from_secs(60))
        .max_size(0)
        .build();
    assert!(built.is_err());

    let built = TtlSortedCache::<u32, u32>::builder().ttl(Duration::from_secs(0)).build();
    assert!(built.is_err());
}
