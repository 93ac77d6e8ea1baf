use cached::time::{Duration, Instant};
use cached::{
    BuildError, ConcurrentCacheEvict, ConcurrentCacheExpiry, SetTtlError, ShardHasher,
    ShardedTtlCache,
};
use std::hash::Hash;
use std::sync::atomic::{AtomicU64, Ordering};
use std::sync::{Arc, Mutex, OnceLock};

fn assert_send_sync<T: Send + Sync>() {}

/// A hasher that places keys the same way in every cache.
#[derive(Clone)]
struct FixedShardHasher;

impl ShardHasher<u32> for FixedShardHasher {
    fn shard_hash(&self, key: &u32) -> u64 {
        u64::from(*key).wrapping_mul(0x9e37_79b9_7f4a_7c15)
    }
}

fn plus(t: Instant, d: Duration) -> Instant {
    t.checked_add(d).unwrap()
}

/// The current instant of the cache's clock, once that is not its origin any more.
fn now_of<H: ShardHasher<u32>>(c: &ShardedTtlCache<u32, u32, H>) -> Instant {
    loop {
        let now = c.clock().now();
        if now.nanos > 0 {
            return now;
        }
    }
}

/// Store the entry's value again, with exactly the given deadline.
fn set_expiry<H: ShardHasher<u32>>(
    c: &ShardedTtlCache<u32, u32, H>,
    k: u32,
    expires_at: Option<Instant>,
) {
    let value = c.cache_peek_with_expiry_status(&k).0.expect("key stored");
    let tick = Duration::from_nanos(1);
    let (ttl, now) = match expires_at {
        Some(t) => (c.set_ttl(tick), t.checked_sub(tick).unwrap()),
        None => (c.unset_ttl(), Instant { nanos: 0 }),
    };
    c.cache_set_at(k, value, now).unwrap();
    match ttl {
        Some(ttl) => c.set_ttl(ttl),
        None => c.unset_ttl(),
    };
    assert_eq!(stored_expiry(c, k), Some(expires_at));
}

/// The stored deadline of a key, if there is an entry.
fn stored_expiry<H: ShardHasher<u32>>(
    c: &ShardedTtlCache<u32, u32, H>,
    k: u32,
) -> Option<Option<Instant>> {
    let (present, deadline) = c.cache_expires_at(&k);
    if present {
        Some(deadline)
    } else {
        None
    }
}

/// The stored entries under small keys: key, value, and whether there is a deadline.
fn entry_snapshot<H: ShardHasher<u32>>(
    c: &ShardedTtlCache<u32, u32, H>,
) -> Vec<(u32, u32, bool)> {
    let mut all = Vec::new();
    for k in 0..100u32 {
        if let (Some(v), deadline) = c.cache_peek_expires_at(&k) {
            all.push((k, v, deadline.is_some()));
        }
    }
    assert_eq!(all.len(), c.len());
    all
}

/// Keys below 8 have expired, keys from 16 on never expire.
fn populate_mixed<H: ShardHasher<u32>>(c: &ShardedTtlCache<u32, u32, H>) {
    for i in 0..24u32 {
        c.cache_set(i, i * 10).expect("insert must succeed");
    }
    let now = now_of(c);
    for i in 0..8u32 {
        set_expiry(c, i, Some(now));
    }
    for i in 16..24u32 {
        set_expiry(c, i, None);
    }
}

fn evict_both_ways<K: Clone + Hash + Eq, V: Clone>(c: &ShardedTtlCache<K, V>) -> usize {
    let via_inherent = ShardedTtlCache::evict(c);
    let via_trait = ConcurrentCacheEvict::evict(c);
    via_inherent + via_trait
}

fn peek_via_bound<T: ConcurrentCacheExpiry<u32, u32>>(
    store: &T,
    key: &u32,
) -> (Option<u32>, Option<Instant>) {
    store.cache_peek_expires_at(key)
}

fn deadline_via_bound<T: ConcurrentCacheExpiry<u32, u32>>(
    store: &T,
    key: &u32,
) -> (bool, Option<Instant>) {
    store.cache_expires_at(key)
}

#[test]
fn sharded_ttl_ttl_secs_and_ttl_millis_set_duration() {
    let c = ShardedTtlCache::<u32, u32>::builder()
        .ttl_secs(7)
        .build()
        .unwrap();
    assert_eq!(c.ttl(), Some(Duration::from_secs(7)));

    let c = ShardedTtlCache::<u32, u32>::builder()
        .ttl_millis(250)
        .build()
        .unwrap();
    assert_eq!(c.ttl(), Some(Duration::from_millis(250)));
}

#[test]
fn sharded_ttl_ttl_setters_override_last_writer_wins() {
    let c = ShardedTtlCache::<u32, u32>::builder()
        .ttl(Duration::from_secs(10))
        .ttl_secs(5)
        .build()
        .unwrap();
    assert_eq!(c.ttl(), Some(Duration::from_secs(5)));

    let c = ShardedTtlCache::<u32, u32>::builder()
        .ttl_secs(10)
        .ttl_millis(500)
        .build()
        .unwrap();
    assert_eq!(c.ttl(), Some(Duration::from_millis(500)));
}

#[test]
fn ttl_basic_get_set_remove() {
    let c = ShardedTtlCache::<u32, u32>::builder()
        .ttl(Duration::from_secs(60))
        .build()
        .unwrap();
    assert_eq!(
        c.cache_get(&1).expect("cache_get must succeed"),
        None
    );
    assert_eq!(
        c.cache_set(1, 100).expect("insert must succeed"),
        None
    );
    assert_eq!(
        c.cache_get(&1).expect("key was just inserted"),
        Some(100)
    );
    assert_eq!(
        c.cache_remove(&1).expect("key must be present"),
        Some(100)
    );
    assert_eq!(
        c.cache_get(&1).expect("cache_get must succeed"),
        None
    );
}

#[test]
fn ttl_clone_shares_state() {
    let c1 = ShardedTtlCache::<u32, u32>::builder()
        .ttl(Duration::from_secs(60))
        .build()
        .unwrap();
    let c2 = c1.clone();
    c1.cache_set(1, 10).expect("insert must succeed");
    assert_eq!(
        c2.cache_get(&1).expect("key was just inserted"),
        Some(10)
    );
}

#[test]
fn set_ttl_inherent() {
    let c = ShardedTtlCache::<u32, u32>::builder()
        .ttl(Duration::from_secs(60))
        .build()
        .unwrap();
    let prev = c.set_ttl(Duration::from_secs(30));
    assert_eq!(prev, Some(Duration::from_secs(60)));
    assert_eq!(c.ttl(), Some(Duration::from_secs(30)));
}

#[test]
fn try_set_ttl_rejects_zero_and_returns_previous() {
    let c = ShardedTtlCache::<u32, u32>::builder()
        .ttl(Duration::from_secs(60))
        .build()
        .unwrap();
    let prev = c.try_set_ttl(Duration::from_secs(30)).unwrap();
    assert_eq!(prev, Some(Duration::from_secs(60)));
    assert_eq!(c.ttl(), Some(Duration::from_secs(30)));
    assert_eq!(
        c.try_set_ttl(Duration::zero()),
        Err(SetTtlError::ZeroTtl)
    );
    assert_eq!(c.ttl(), Some(Duration::from_secs(30)));
}

#[test]
fn copy_from_preserves_live_entries() {
    let old = ShardedTtlCache::<u32, u32>::builder()
        .ttl(Duration::from_secs(60))
        .build()
        .unwrap();
    for i in 0..20u32 {
        old.cache_set(i, i * 10).expect("insert must succeed");
    }
    let new_cache = ShardedTtlCache::<u32, u32>::builder()
        .ttl(Duration::from_secs(60))
        .copy_from(&old)
        .unwrap();
    for i in 0..20u32 {
        assert_eq!(
            new_cache.cache_get(&i).expect("key was just inserted"),
            Some(i * 10)
        );
    }
}

#[test]
fn ttl_send_sync() {
    assert_send_sync::<ShardedTtlCache<u32, u32>>();
}

#[test]
fn build_rejects_zero_ttl() {
    let err = ShardedTtlCache::<u32, u32>::builder()
        .ttl(Duration::from_nanos(0))
        .build();
    assert!(
        matches!(
            err,
            Err(BuildError::InvalidValue { field: "ttl", .. })
        ),
        "expected InvalidValue",
    );
}

#[test]
fn sharded_ttl_cache_clear_with_on_evict_fires_for_all_entries() {
    let count = Arc::new(AtomicU64::new(0));
    let count2 = count.clone();
    let c = ShardedTtlCache::<u32, u32>::builder()
        .ttl(Duration::from_secs(3600))
        .on_evict(move |_, _| {
            count2.fetch_add(1, Ordering::Relaxed);
        })
        .build()
        .unwrap();
    for i in 0..20u32 {
        c.cache_set(i, i).expect("insert must succeed");
    }
    let before = c
        .metrics()
        .evictions
        .expect("eviction-tracking stores report an evictions count");
    c.cache_clear_with_on_evict();
    assert_eq!(
        c.len(),
        0,
        "cache must be empty after cache_clear_with_on_evict"
    );
    assert_eq!(
        count.load(Ordering::Relaxed),
        20,
        "on_evict must fire for every entry"
    );
    assert_eq!(
        c.metrics()
            .evictions
            .expect("eviction-tracking stores report an evictions count")
            - before,
        20,
        "evictions counter must increment for each entry"
    );
}

#[test]
fn cache_clear_with_on_evict_counts_evictions_without_callback() {
    let c = ShardedTtlCache::<u32, u32>::builder()
        .ttl(Duration::from_secs(3600))
        .build()
        .unwrap();
    for i in 0..20u32 {
        c.cache_set(i, i).expect("insert must succeed");
    }
    let before = c.metrics().evictions.expect("evictions tracked");
    c.cache_clear_with_on_evict();
    assert_eq!(c.len(), 0);
    assert_eq!(
        c.metrics().evictions.expect("evictions tracked") - before,
        20,
        "evictions must be counted even with no on_evict callback"
    );
    for i in 0..5u32 {
        c.cache_set(i, i).expect("insert must succeed");
    }
    let before_plain = c.metrics().evictions.expect("evictions tracked");
    c.clear();
    assert_eq!(
        c.metrics().evictions.expect("evictions tracked"),
        before_plain,
        "plain clear() must not count evictions"
    );
}

#[test]
fn ttl_clear_does_not_fire_on_evict() {
    let count = Arc::new(AtomicU64::new(0));
    let count2 = count.clone();
    let c = ShardedTtlCache::<u32, u32>::builder()
        .ttl(Duration::from_secs(3600))
        .on_evict(move |_, _| {
            count2.fetch_add(1, Ordering::Relaxed);
        })
        .build()
        .unwrap();
    for i in 0..10u32 {
        c.cache_set(i, i).expect("insert must succeed");
    }
    c.clear();
    assert_eq!(
        count.load(Ordering::Relaxed),
        0,
        "clear must not fire on_evict"
    );
}

#[test]
fn ttl_retain_fires_on_evict_after_the_shard_lock_is_released() {

    let handle: Arc<OnceLock<ShardedTtlCache<u32, u32>>> = Arc::new(OnceLock::new());
    let handle2 = handle.clone();
    let fired = Arc::new(AtomicU64::new(0));
    let fired2 = fired.clone();
    let c = ShardedTtlCache::<u32, u32>::builder()
        .ttl(Duration::from_secs(3600))
        .shards(4)
        .on_evict(move |_, _| {
            let cache = handle2.get().expect("handle is set before retain runs");
            for absent in 1_000..1_032u32 {
                assert_eq!(cache.remove(&absent), None, "every shard can be locked");
            }
            fired2.fetch_add(1, Ordering::Relaxed);
        })
        .build()
        .unwrap();
    assert!(handle.set(c.clone()).is_ok());
    for i in 0..32u32 {
        c.cache_set(i, i).expect("insert must succeed");
    }
    c.retain(|_k, _v| false);
    assert_eq!(c.len(), 0, "a keep-nothing predicate empties every shard");
    assert_eq!(
        fired.load(Ordering::Relaxed),
        32,
        "on_evict fires exactly once per removed entry"
    );
}

#[test]
fn retain_judges_expiry_against_a_single_sampled_instant() {
    let c = ShardedTtlCache::<u32, u32>::builder()
        .ttl(Duration::from_secs(3600))
        .shards(2)
        .build()
        .unwrap();
    c.cache_set(1, 10).expect("insert must succeed");
    c.cache_set(2, 20).expect("insert must succeed");
    set_expiry(&c, 1, Some(now_of(&c)));
    let before = c.metrics().evictions.expect("ttl store tracks evictions");
    c.retain(|_k, _v| true);
    assert_eq!(
        c.len(),
        1,
        "the backdated entry is removed despite keep=true"
    );
    assert_eq!(c.cache_get(&2).unwrap(), Some(20));
    assert_eq!(
        c.metrics().evictions.expect("ttl store tracks evictions") - before,
        1
    );
}

#[test]
fn retain_and_evict_agree_at_the_expires_at_equals_now_boundary() {
    let c = ShardedTtlCache::<u32, u32>::builder()
        .ttl(Duration::from_secs(3600))
        .shards(1)
        .build()
        .unwrap();
    c.cache_set(1, 10).expect("insert must succeed");
    c.cache_set(2, 20).expect("insert must succeed");

    set_expiry(&c, 1, Some(now_of(&c)));
    let removed = c.evict();
    assert_eq!(
        removed, 1,
        "an entry whose expires_at is the just-sampled now must be swept by evict()"
    );
    assert_eq!(c.cache_get(&1).unwrap(), None);
    assert_eq!(c.cache_get(&2).unwrap(), Some(20));

    set_expiry(&c, 2, Some(now_of(&c)));
    c.retain(|_k, _v| true);
    assert_eq!(
        c.len(),
        0,
        "the same now-boundary entry must be swept by retain() too, agreeing with evict()"
    );
}

#[test]
fn sharded_ttl_cache_remove_entry_returns_some_for_live_entry() {
    let c = ShardedTtlCache::<u32, u32>::builder()
        .ttl(Duration::from_secs(60))
        .build()
        .unwrap();
    c.cache_set(1u32, 100u32).expect("insert must succeed");
    assert_eq!(
        c.cache_remove_entry(&999u32)
            .expect("cache_remove_entry must succeed"),
        None
    );
    assert_eq!(
        c.cache_remove_entry(&1u32).expect("key must be present"),
        Some((1u32, 100u32))
    );
    assert_eq!(
        c.cache_get(&1u32).expect("cache_get must succeed"),
        None
    );
}

#[test]
fn concurrent_clone_cached_absent_is_none_false() {
    let c = ShardedTtlCache::<u32, u32>::builder()
        .ttl(Duration::from_secs(60))
        .build()
        .unwrap();
    assert_eq!(
        c.cache_get_with_expiry_status(&1u32),
        (None, false),
        "absent key must return (None, false)"
    );
    assert_eq!(
        c.metrics().misses,
        Some(1),
        "absent lookup must increment misses"
    );
}

#[test]
fn concurrent_clone_cached_live_entry_is_some_false() {
    let c = ShardedTtlCache::<u32, u32>::builder()
        .ttl(Duration::from_secs(60))
        .build()
        .unwrap();
    c.cache_set(1u32, 42u32).expect("insert must succeed");
    assert_eq!(
        c.cache_get_with_expiry_status(&1u32),
        (Some(42), false),
        "live entry must return (Some(v), false)"
    );
    assert_eq!(c.metrics().hits, Some(1), "live lookup must increment hits");
    assert_eq!(
        c.metrics().evictions,
        Some(0),
        "live lookup must not increment evictions"
    );
}

#[test]
fn peek_with_expiry_status_no_side_effects() {
    let c = ShardedTtlCache::<u32, u32>::builder()
        .ttl(Duration::from_secs(60))
        .shards(1)
        .build()
        .unwrap();

    c.cache_set(1u32, 42u32).expect("insert must succeed");

    let before = c.metrics();

    let (val, expired) = c.cache_peek_with_expiry_status(&1u32);
    assert_eq!(val, Some(42), "live peek must return the value");
    assert!(!expired, "live peek must report expired=false");

    let (val2, expired2) = c.cache_peek_with_expiry_status(&999u32);
    assert!(val2.is_none(), "absent peek must return None");
    assert!(!expired2, "absent peek must report expired=false");

    let after = c.metrics();
    assert_eq!(after.hits, before.hits, "peek must not increment hits");
    assert_eq!(
        after.misses, before.misses,
        "peek must not increment misses"
    );
    assert_eq!(
        after.evictions, before.evictions,
        "peek must not increment evictions"
    );
    assert_eq!(
        c.cache_get(&1u32).expect("cache_get must succeed"),
        Some(42),
        "entry must still be present after peek"
    );
}

#[test]
fn ttl_inherent_get_returns_option_not_result() {
    let c = ShardedTtlCache::<u32, u32>::builder()
        .ttl(Duration::from_secs(60))
        .build()
        .unwrap();
    let v: Option<u32> = c.get(&1);
    assert_eq!(v, None);
    c.set(1, 42);
    let v: Option<u32> = c.get(&1);
    assert_eq!(v, Some(42));
}

#[test]
fn ttl_inherent_set_returns_previous_value() {
    let c = ShardedTtlCache::<u32, u32>::builder()
        .ttl(Duration::from_secs(60))
        .build()
        .unwrap();
    let prev: Option<u32> = c.set(1, 10);
    assert_eq!(prev, None);
    let prev: Option<u32> = c.set(1, 20);
    assert_eq!(prev, Some(10));
    assert_eq!(c.get(&1), Some(20));
}

#[test]
fn ttl_inherent_remove_returns_prior_value() {
    let c = ShardedTtlCache::<u32, u32>::builder()
        .ttl(Duration::from_secs(60))
        .build()
        .unwrap();
    c.set(1, 99);
    let v: Option<u32> = c.remove(&1);
    assert_eq!(v, Some(99));
    assert_eq!(c.remove(&1), None);
    assert_eq!(c.get(&1), None);
}

#[test]
fn ttl_inherent_remove_entry_returns_key_and_value() {
    let c = ShardedTtlCache::<u32, u32>::builder()
        .ttl(Duration::from_secs(60))
        .build()
        .unwrap();
    c.set(7, 77);
    let pair: Option<(u32, u32)> = c.remove_entry(&7);
    assert_eq!(pair, Some((7, 77)));
    assert_eq!(c.remove_entry(&7), None);
}

#[test]
fn ttl_inherent_delete_returns_bool() {
    let c = ShardedTtlCache::<u32, u32>::builder()
        .ttl(Duration::from_secs(60))
        .build()
        .unwrap();
    c.set(1, 10);
    let removed: bool = c.delete(&1);
    assert!(removed);
    let removed: bool = c.delete(&1);
    assert!(!removed);
}

#[test]
fn ttl_inherent_reset_clears_and_resets_metrics() {
    let c = ShardedTtlCache::<u32, u32>::builder()
        .ttl(Duration::from_secs(60))
        .build()
        .unwrap();
    c.set(1, 1);
    c.set(2, 2);
    let _ = c.get(&1);
    assert_eq!(c.len(), 2);
    assert_eq!(c.metrics().hits, Some(1));
    c.reset();
    assert_eq!(c.len(), 0);
    assert!(c.is_empty());
    assert_eq!(c.metrics().hits, Some(0));
}

#[test]
fn evict_with_nothing_expired_removes_nothing_in_either_branch() {
    for with_callback in [false, true] {
        let fired = Arc::new(AtomicU64::new(0));
        let fired2 = fired.clone();
        let mut builder = ShardedTtlCache::<u32, u32>::builder()
            .ttl(Duration::from_secs(3600))
            .shards(4);
        if with_callback {
            builder = builder.on_evict(move |_k: &u32, _v: &u32| {
                fired2.fetch_add(1, Ordering::Relaxed);
            });
        }
        let c = builder.build().unwrap();
        for i in 0..16u32 {
            c.cache_set(i, i).expect("insert must succeed");
        }
        assert_eq!(
            c.evict(),
            0,
            "nothing is expired (with_callback={with_callback})"
        );
        assert_eq!(c.len(), 16, "no entry may be dropped by a no-op sweep");
        assert_eq!(c.metrics().evictions, Some(0));
        assert_eq!(c.shard_evictions(), vec![0u64; 4]);
        assert_eq!(fired.load(Ordering::Relaxed), 0, "on_evict must not fire");
    }
}

#[test]
fn evict_removes_only_expired_entries_in_either_branch() {
    for with_callback in [false, true] {
        let fired = Arc::new(AtomicU64::new(0));
        let fired2 = fired.clone();
        let mut builder = ShardedTtlCache::<u32, u32>::builder()
            .ttl(Duration::from_secs(3600))
            .shards(2);
        if with_callback {
            builder = builder.on_evict(move |_k: &u32, _v: &u32| {
                fired2.fetch_add(1, Ordering::Relaxed);
            });
        }
        let c = builder.build().unwrap();
        for i in 0..8u32 {
            c.cache_set(i, i).expect("insert must succeed");
        }
        let past = now_of(&c);
        for i in (0..8u32).step_by(2) {
            set_expiry(&c, i, Some(past));
        }
        assert_eq!(c.evict(), 4, "(with_callback={with_callback})");
        assert_eq!(c.len(), 4);
        for i in 0..8u32 {
            let expected = if i % 2 == 0 { None } else { Some(i) };
            assert_eq!(c.peek(&i), expected);
        }
        assert_eq!(c.metrics().evictions, Some(4));
        let expected_fires = if with_callback { 4 } else { 0 };
        assert_eq!(fired.load(Ordering::Relaxed), expected_fires);
    }
}

#[test]
fn cache_clear_with_on_evict_without_callback_counts_across_shards() {
    let c = ShardedTtlCache::<u32, u32>::builder()
        .ttl(Duration::from_secs(3600))
        .shards(8)
        .build()
        .unwrap();
    for i in 0..40u32 {
        c.cache_set(i, i).expect("insert must succeed");
    }
    c.cache_clear_with_on_evict();
    assert_eq!(c.len(), 0, "every shard must be emptied");
    assert!(c.is_empty());
    let per_shard = c.shard_evictions();
    assert_eq!(
        per_shard.iter().sum::<u64>(),
        40,
        "the no-callback path must still count every removed entry: {per_shard:?}"
    );
    assert!(
        per_shard.iter().filter(|&&n| n > 0).count() >= 2,
        "40 keys over 8 shards must move more than one counter: {per_shard:?}"
    );
    assert_eq!(c.metrics().evictions, Some(40));

    c.cache_clear_with_on_evict();
    assert_eq!(
        c.metrics().evictions,
        Some(40),
        "clearing an empty cache must not count evictions"
    );
}

#[test]
fn cache_get_evicts_at_the_expires_at_equals_now_boundary() {
    let c = ShardedTtlCache::<u32, u32>::builder()
        .ttl(Duration::from_secs(3600))
        .shards(4)
        .build()
        .unwrap();
    c.cache_set(1, 10).expect("insert must succeed");
    c.cache_set(2, 20).expect("insert must succeed");
    set_expiry(&c, 1, Some(now_of(&c)));
    assert_eq!(
        c.cache_get(&1).unwrap(),
        None,
        "an entry whose expires_at equals the sampled now must read as expired"
    );
    assert_eq!(
        c.cache_get(&2).unwrap(),
        Some(20),
        "an unexpired entry must be unaffected"
    );
    let mut expected = vec![0u64; 4];
    expected[c.shard_number(&1)] += 1;
    assert_eq!(c.shard_evictions(), expected);
    assert_eq!(c.metrics().evictions, Some(1));
}

#[test]
fn refresh_on_hit_get_evicts_at_the_boundary_and_renews_live_entries() {
    let c = ShardedTtlCache::<u32, u32>::builder()
        .ttl(Duration::from_secs(3600))
        .refresh_on_hit(true)
        .shards(4)
        .build()
        .unwrap();
    c.cache_set(1, 10).expect("insert must succeed");
    c.cache_set(2, 20).expect("insert must succeed");
    set_expiry(&c, 1, Some(now_of(&c)));
    assert_eq!(
        c.cache_get(&1).unwrap(),
        None,
        "refresh_on_hit must apply the same now >= expires_at boundary"
    );
    assert_eq!(c.metrics().evictions, Some(1));

    let before = stored_expiry(&c, 2).expect("key 2 stored");
    assert_eq!(c.cache_get(&2).unwrap(), Some(20));
    let after = stored_expiry(&c, 2).expect("key 2 stored");
    assert!(
        after > before,
        "a refresh_on_hit hit must push expires_at forward (before={before:?}, after={after:?})"
    );
    assert_eq!(
        c.metrics().evictions,
        Some(1),
        "a renewed hit must not count an eviction"
    );
}

#[test]
fn cache_get_with_expiry_status_uses_the_same_now_boundary() {
    for refresh in [false, true] {
        let c = ShardedTtlCache::<u32, u32>::builder()
            .ttl(Duration::from_secs(3600))
            .refresh_on_hit(refresh)
            .shards(1)
            .build()
            .unwrap();
        c.cache_set(1, 10).expect("insert must succeed");
        set_expiry(&c, 1, Some(now_of(&c)));
        assert_eq!(
            c.cache_get_with_expiry_status(&1),
            (Some(10), true),
            "expires_at == the sampled now must report expired (refresh={refresh})"
        );
        assert_eq!(
            c.metrics().evictions,
            Some(0),
            "the expiry-status read never evicts"
        );
        assert_eq!(c.len(), 1, "the expiry-status read never removes");
    }
}

#[test]
fn evict_callback_and_no_callback_branches_agree_exactly() {
    let fired: Arc<Mutex<Vec<(u32, u32)>>> =
        Arc::new(Mutex::new(Vec::new()));
    let fired2 = fired.clone();
    let with_cb = ShardedTtlCache::<u32, u32>::builder()
        .ttl(Duration::from_secs(3600))
        .shards(4)
        .hasher(FixedShardHasher)
        .on_evict(move |k: &u32, v: &u32| {
            fired2.lock().expect("callback lock").push((*k, *v));
        })
        .build()
        .unwrap();
    let no_cb = ShardedTtlCache::<u32, u32>::builder()
        .ttl(Duration::from_secs(3600))
        .shards(4)
        .hasher(FixedShardHasher)
        .build()
        .unwrap();
    populate_mixed(&with_cb);
    populate_mixed(&no_cb);
    assert_eq!(
        entry_snapshot(&with_cb),
        entry_snapshot(&no_cb),
        "the two caches must start from identical state"
    );

    let removed_cb = with_cb.evict();
    let removed_plain = no_cb.evict();
    assert_eq!(
        removed_cb, 8,
        "only the eight backdated entries are expired"
    );
    assert_eq!(
        removed_plain, removed_cb,
        "the count is the same with and without a callback"
    );
    assert_eq!(
        entry_snapshot(&with_cb),
        entry_snapshot(&no_cb),
        "both branches must leave identical state"
    );
    assert_eq!(
        with_cb.shard_evictions(),
        no_cb.shard_evictions(),
        "both branches must move the same per-shard counters"
    );
    let survivors: Vec<u32> = entry_snapshot(&no_cb)
        .into_iter()
        .map(|(k, ..)| k)
        .collect();
    assert_eq!(
        survivors,
        (8..24u32).collect::<Vec<u32>>(),
        "live and never-expires entries must survive both branches"
    );
    assert_eq!(
        entry_snapshot(&no_cb)
            .iter()
            .filter(|(.., has_expiry)| !has_expiry)
            .count(),
        8,
        "the never-expires entries must keep expires_at = None"
    );
    let mut fired_keys = fired.lock().expect("callback lock").clone();
    fired_keys.sort_unstable();
    assert_eq!(
        fired_keys,
        (0..8u32).map(|i| (i, i * 10)).collect::<Vec<_>>(),
        "on_evict must fire once per expired entry, and never for a never-expires one"
    );

    let counters = with_cb.shard_evictions();
    assert_eq!(with_cb.evict(), 0, "nothing is left to expire");
    assert_eq!(no_cb.evict(), 0, "nothing is left to expire");
    assert_eq!(
        with_cb.shard_evictions(),
        counters,
        "a sweep that removes nothing must not touch any counter"
    );
    assert_eq!(no_cb.shard_evictions(), counters);
    assert_eq!(
        fired.lock().expect("callback lock").len(),
        8,
        "a no-op sweep must not fire on_evict"
    );
}

#[test]
fn evict_no_callback_length_delta_is_exact_for_all_and_none_expired_shards() {
    let c = ShardedTtlCache::<u32, u32>::builder()
        .ttl(Duration::from_secs(3600))
        .shards(2)
        .hasher(FixedShardHasher)
        .build()
        .unwrap();
    let mut buckets: Vec<Vec<u32>> = vec![Vec::new(); 2];
    for k in 0..256u32 {
        let idx = c.shard_number(&k);
        if buckets[idx].len() < 4 {
            buckets[idx].push(k);
        }
    }
    assert!(
        buckets.iter().all(|b| b.len() == 4),
        "both shards must receive keys: {buckets:?}"
    );
    for k in buckets.iter().flatten() {
        c.cache_set(*k, *k * 10).expect("insert must succeed");
    }
    let now = now_of(&c);
    for k in &buckets[0] {
        set_expiry(&c, *k, Some(now));
    }

    assert_eq!(c.evict(), 4, "only shard 0's entries are expired");
    assert_eq!(
        c.shard_evictions(),
        vec![4, 0],
        "the emptied shard counts four, the untouched shard counts nothing"
    );
    assert_eq!(
        c.shard_sizes(),
        vec![0, 4],
        "the all-expired shard must be emptied and the none-expired shard untouched"
    );
    for k in &buckets[0] {
        assert_eq!(c.peek(k), None, "expired entries must be physically gone");
    }
    for k in &buckets[1] {
        assert_eq!(c.peek(k), Some(*k * 10), "live entries must be untouched");
    }
}

#[test]
fn evict_never_expires_entries_survive_both_branches_in_one_shard() {
    for with_callback in [false, true] {
        let fired = Arc::new(AtomicU64::new(0));
        let fired2 = fired.clone();
        let mut builder = ShardedTtlCache::<u32, u32>::builder()
            .ttl(Duration::from_secs(3600))
            .shards(1);
        if with_callback {
            builder = builder.on_evict(move |_k: &u32, _v: &u32| {
                fired2.fetch_add(1, Ordering::Relaxed);
            });
        }
        let c = builder.build().unwrap();
        for i in 0..8u32 {
            c.cache_set(i, i * 10).expect("insert must succeed");
        }
        let now = now_of(&c);
        for i in 0..3u32 {
            set_expiry(&c, i, Some(now));
        }
        for i in 5..8u32 {
            set_expiry(&c, i, None);
        }

        assert_eq!(c.evict(), 3, "(with_callback={with_callback})");
        assert_eq!(c.len(), 5, "(with_callback={with_callback})");
        for i in 0..3u32 {
            assert_eq!(c.peek(&i), None);
        }
        for i in 3..8u32 {
            assert_eq!(c.peek(&i), Some(i * 10));
        }
        assert_eq!(c.metrics().evictions, Some(3));
        assert_eq!(
            fired.load(Ordering::Relaxed),
            if with_callback { 3 } else { 0 }
        );

        c.unset_ttl();
        assert_eq!(c.evict(), 0, "(with_callback={with_callback})");
        assert_eq!(c.len(), 5);
        assert_eq!(c.metrics().evictions, Some(3));
    }
}

#[test]
fn refresh_on_hit_cache_get_trichotomy_absent_expired_live() {
    let seen: Arc<Mutex<Vec<(u32, u32)>>> =
        Arc::new(Mutex::new(Vec::new()));
    let seen2 = seen.clone();
    let c = ShardedTtlCache::<u32, u32>::builder()
        .ttl(Duration::from_secs(3600))
        .refresh_on_hit(true)
        .shards(1)
        .on_evict(move |k: &u32, v: &u32| {
            seen2.lock().expect("callback lock").push((*k, *v));
        })
        .build()
        .unwrap();

    assert_eq!(c.cache_get(&1).unwrap(), None);
    let m = c.metrics();
    assert_eq!((m.hits, m.misses, m.evictions), (Some(0), Some(1), Some(0)));
    assert!(seen.lock().expect("callback lock").is_empty());

    c.cache_set(2, 20).expect("insert must succeed");
    let before = stored_expiry(&c, 2).expect("key 2 stored");
    assert_eq!(c.cache_get(&2).unwrap(), Some(20));
    let after = stored_expiry(&c, 2).expect("key 2 stored");
    assert!(
        after > before,
        "a live refresh hit must renew expires_at (before={before:?}, after={after:?})"
    );
    let m = c.metrics();
    assert_eq!((m.hits, m.misses, m.evictions), (Some(1), Some(1), Some(0)));
    assert!(
        seen.lock().expect("callback lock").is_empty(),
        "a live hit must not fire on_evict"
    );

    c.cache_set(3, 30).expect("insert must succeed");
    set_expiry(&c, 3, Some(now_of(&c)));
    assert_eq!(c.cache_get(&3).unwrap(), None);
    let m = c.metrics();
    assert_eq!(
        (m.hits, m.misses, m.evictions),
        (Some(1), Some(2), Some(1)),
        "an expired refresh read counts one miss and one eviction, no hit"
    );
    assert_eq!(
        *seen.lock().expect("callback lock"),
        vec![(3, 30)],
        "on_evict must fire once with the stored key and value"
    );
    assert_eq!(stored_expiry(&c, 3), None, "the entry must be removed");
    assert_eq!(c.len(), 1, "only the live entry remains");

    assert_eq!(c.cache_get(&3).unwrap(), None);
    let m = c.metrics();
    assert_eq!((m.hits, m.misses, m.evictions), (Some(1), Some(3), Some(1)));
    assert_eq!(seen.lock().expect("callback lock").len(), 1);
}

#[test]
fn refresh_on_hit_with_ttl_disabled_keeps_each_entry_expiry_unchanged() {
    let c = ShardedTtlCache::<u32, u32>::builder()
        .ttl(Duration::from_secs(3600))
        .refresh_on_hit(true)
        .shards(1)
        .build()
        .unwrap();
    c.cache_set(1, 10).expect("insert must succeed");
    let stamped = stored_expiry(&c, 1).expect("key 1 stored");
    assert!(stamped.is_some(), "the entry was stamped with the live TTL");

    assert_eq!(c.unset_ttl(), Some(Duration::from_secs(3600)));
    c.cache_set(2, 20).expect("insert must succeed");
    assert_eq!(
        stored_expiry(&c, 2),
        Some(None),
        "an entry inserted with the TTL disabled never expires"
    );

    assert_eq!(c.cache_get(&1).unwrap(), Some(10));
    assert_eq!(
        stored_expiry(&c, 1),
        Some(stamped),
        "with the TTL disabled a refresh hit must leave the stored expiry untouched"
    );
    assert_eq!(c.cache_get(&2).unwrap(), Some(20));
    assert_eq!(
        stored_expiry(&c, 2),
        Some(None),
        "a never-expires entry must stay never-expires across a refresh hit"
    );

    set_expiry(&c, 1, Some(now_of(&c)));
    assert_eq!(
        c.cache_get(&1).unwrap(),
        None,
        "disabling the TTL must not resurrect an already-stamped entry"
    );
    assert_eq!(c.metrics().evictions, Some(1));
}

#[test]
fn cache_set_judges_the_displaced_entry_against_the_stamping_now() {
    let fired = Arc::new(AtomicU64::new(0));
    let fired2 = fired.clone();
    let c = ShardedTtlCache::<u32, u32>::builder()
        .ttl(Duration::from_secs(3600))
        .shards(1)
        .on_evict(move |_k: &u32, _v: &u32| {
            fired2.fetch_add(1, Ordering::Relaxed);
        })
        .build()
        .unwrap();
    c.cache_set(1, 10).expect("insert must succeed");

    assert_eq!(
        c.cache_set(1, 11).unwrap(),
        Some(10)
    );
    assert_eq!(c.metrics().evictions, Some(0));
    assert_eq!(fired.load(Ordering::Relaxed), 0);

    set_expiry(&c, 1, Some(now_of(&c)));
    assert_eq!(
        c.cache_set(1, 12).unwrap(),
        None,
        "an entry whose expires_at equals the sampled now must count as displaced-expired"
    );
    assert_eq!(c.metrics().evictions, Some(1));
    assert_eq!(fired.load(Ordering::Relaxed), 1);
    assert_eq!(
        c.cache_get(&1).unwrap(),
        Some(12),
        "the replacement is stamped live against the same instant"
    );

    set_expiry(&c, 1, None);
    assert_eq!(
        c.cache_set(1, 13).unwrap(),
        Some(12)
    );
    assert_eq!(c.metrics().evictions, Some(1));
    assert_eq!(fired.load(Ordering::Relaxed), 1);
}

#[test]
fn cache_set_with_ttl_disabled_still_evicts_the_displaced_expired_entry() {
    let fired = Arc::new(AtomicU64::new(0));
    let fired2 = fired.clone();
    let c = ShardedTtlCache::<u32, u32>::builder()
        .ttl(Duration::from_secs(3600))
        .shards(1)
        .on_evict(move |_k: &u32, _v: &u32| {
            fired2.fetch_add(1, Ordering::Relaxed);
        })
        .build()
        .unwrap();
    c.cache_set(1, 10).expect("insert must succeed");
    set_expiry(&c, 1, Some(now_of(&c)));
    c.unset_ttl();

    assert_eq!(
        c.cache_set(1, 20).unwrap(),
        None,
        "the displaced entry was expired when the replacement was stamped"
    );
    assert_eq!(c.metrics().evictions, Some(1));
    assert_eq!(fired.load(Ordering::Relaxed), 1);
    assert_eq!(
        stored_expiry(&c, 1),
        Some(None),
        "the replacement must be stamped never-expires"
    );
    assert_eq!(c.evict(), 0, "a never-expires entry is never swept");
    assert_eq!(c.cache_get(&1).unwrap(), Some(20));
}

#[test]
fn deep_clone_counters_are_independent_of_reset_metrics_on_either_handle() {
    let c = ShardedTtlCache::<u32, u32>::builder()
        .ttl(Duration::from_secs(3600))
        .shards(4)
        .hasher(FixedShardHasher)
        .build()
        .unwrap();
    for i in 0..16u32 {
        c.cache_set(i, i * 10).expect("insert must succeed");
    }
    assert_eq!(c.cache_get(&0).unwrap(), Some(0));
    assert_eq!(c.cache_get(&999).unwrap(), None);
    assert_eq!(
        c.cache_remove(&1).unwrap(),
        Some(10)
    );
    let source_counters = c.shard_evictions();
    let source_metrics = c.metrics();
    assert_eq!(
        (
            source_metrics.hits,
            source_metrics.misses,
            source_metrics.evictions
        ),
        (Some(1), Some(1), Some(1))
    );

    let d = c.deep_clone();
    assert_eq!(d.shard_evictions(), source_counters);
    let clone_metrics = d.metrics();
    assert_eq!(
        (
            clone_metrics.hits,
            clone_metrics.misses,
            clone_metrics.evictions,
            clone_metrics.entry_count
        ),
        (
            source_metrics.hits,
            source_metrics.misses,
            source_metrics.evictions,
            source_metrics.entry_count
        ),
        "deep_clone must carry every counter over"
    );

    c.cache_reset_metrics().unwrap();
    assert_eq!(c.metrics().evictions, Some(0));
    assert_eq!(c.shard_evictions(), vec![0u64; 4]);
    assert_eq!(
        d.shard_evictions(),
        source_counters,
        "resetting the source must not touch the clone"
    );
    assert_eq!(d.metrics().evictions, Some(1));
    assert_eq!(c.len(), 15, "cache_reset_metrics must not remove any entry");

    assert!(c.cache_delete(&2).unwrap());
    assert_eq!(c.metrics().evictions, Some(1));
    d.cache_reset_metrics().unwrap();
    assert_eq!(d.shard_evictions(), vec![0u64; 4]);
    assert_eq!(d.metrics().evictions, Some(0));
    assert_eq!(
        c.metrics().evictions,
        Some(1),
        "resetting the clone must not touch the source"
    );

    d.clear();
    assert_eq!(d.len(), 0);
    assert_eq!(c.len(), 14, "clearing the clone must not empty the source");
}

#[test]
fn copy_from_carries_entries_but_no_counters_and_fires_no_callback() {
    let fired = Arc::new(AtomicU64::new(0));
    let fired2 = fired.clone();
    let src = ShardedTtlCache::<u32, u32>::builder()
        .ttl(Duration::from_secs(3600))
        .shards(4)
        .on_evict(move |_k: &u32, _v: &u32| {
            fired2.fetch_add(1, Ordering::Relaxed);
        })
        .build()
        .unwrap();
    for i in 0..16u32 {
        src.cache_set(i, i * 10).expect("insert must succeed");
    }
    assert_eq!(src.cache_get(&0).unwrap(), Some(0));
    assert_eq!(src.cache_get(&999).unwrap(), None);
    assert_eq!(
        src.cache_remove(&1).unwrap(),
        Some(10)
    );
    src.unset_ttl();
    src.cache_set(100, 1000).expect("insert must succeed");
    src.set_ttl(Duration::from_secs(3600));
    src.cache_set(200, 2000).expect("insert must succeed");
    set_expiry(&src, 200, Some(now_of(&src)));

    let src_before = src.metrics();
    let fired_before = fired.load(Ordering::Relaxed);
    assert_eq!(
        fired_before, 1,
        "only the explicit remove fired the callback"
    );

    let dst = ShardedTtlCache::<u32, u32>::builder()
        .ttl(Duration::from_secs(3600))
        .shards(4)
        .copy_from(&src)
        .unwrap();

    let dst_metrics = dst.metrics();
    assert_eq!(
        (dst_metrics.hits, dst_metrics.misses, dst_metrics.evictions),
        (Some(0), Some(0), Some(0)),
        "copy_from carries no counters at all"
    );
    assert_eq!(dst.shard_evictions(), vec![0u64; 4]);
    assert_eq!(
        dst.len(),
        16,
        "fifteen live originals plus the never-expires entry, minus the expired one"
    );
    for i in 2..16u32 {
        assert_eq!(dst.peek(&i), Some(i * 10));
    }
    assert_eq!(
        dst.peek(&1),
        None,
        "an entry removed before the copy is gone"
    );
    assert_eq!(dst.peek(&200), None, "an expired entry is skipped");
    assert_eq!(
        stored_expiry(&dst, 100),
        Some(None),
        "a never-expires entry keeps its None stamp through the copy"
    );

    assert_eq!(
        fired.load(Ordering::Relaxed),
        fired_before,
        "copy_from must not fire the source's on_evict"
    );
    let src_after = src.metrics();
    assert_eq!(
        (
            src_after.hits,
            src_after.misses,
            src_after.evictions,
            src_after.entry_count
        ),
        (
            src_before.hits,
            src_before.misses,
            src_before.evictions,
            src_before.entry_count
        ),
        "copy_from must leave the source's counters and entries alone"
    );
}

#[test]
fn peek_contains_and_remove_apply_the_same_now_boundary() {
    let c = ShardedTtlCache::<u32, u32>::builder()
        .ttl(Duration::from_secs(3600))
        .shards(1)
        .build()
        .unwrap();
    c.cache_set(1, 10).expect("insert must succeed");
    c.cache_set(2, 20).expect("insert must succeed");
    set_expiry(&c, 1, Some(now_of(&c)));

    assert!(!c.contains(&1), "expires_at == now reads as expired");
    assert!(c.contains(&2));
    assert_eq!(c.peek(&1), None);
    assert_eq!(c.peek(&2), Some(20));
    assert_eq!(
        c.cache_peek_with_expiry_status(&1),
        (Some(10), true)
    );
    assert_eq!(c.len(), 2, "peek and contains must not remove anything");
    assert_eq!(
        c.metrics().evictions,
        Some(0),
        "peek and contains must not count evictions"
    );

    assert_eq!(
        c.cache_remove(&1).unwrap(),
        None,
        "an expired entry is filtered from cache_remove's return"
    );
    assert_eq!(
        c.metrics().evictions,
        Some(1),
        "cache_remove still counts the removal of an expired entry"
    );
    assert_eq!(c.len(), 1);
    assert_eq!(
        c.cache_remove_entry(&2).unwrap(),
        Some((2, 20))
    );
    assert_eq!(c.metrics().evictions, Some(2));
    assert_eq!(c.len(), 0);
}

#[test]
fn evict_is_callable_through_both_entry_points_under_the_key_clone_bound() {
    let c = ShardedTtlCache::<u32, u32>::builder()
        .ttl(Duration::from_secs(3600))
        .build()
        .unwrap();
    c.cache_set(1, 10).expect("insert must succeed");
    assert_eq!(evict_both_ways(&c), 0, "nothing is expired");
    assert_eq!(c.len(), 1);
}

#[test]
fn sharded_ttl_peek_expires_at_absent_key_returns_none_none() {
    let c = ShardedTtlCache::<u32, u32>::builder()
        .ttl(Duration::from_secs(3600))
        .build()
        .unwrap();
    assert_eq!(
        ConcurrentCacheExpiry::cache_peek_expires_at(&c, &1),
        (None, None)
    );
    assert_eq!(ConcurrentCacheExpiry::peek_expires_at(&c, &1), (None, None));
}

#[test]
fn sharded_ttl_peek_expires_at_live_entry_returns_the_stored_future_deadline() {
    let ttl = Duration::from_secs(3600);
    let c = ShardedTtlCache::<u32, u32>::builder()
        .ttl(ttl)
        .build()
        .unwrap();
    let before = now_of(&c);
    c.cache_set(1, 10).expect("insert must succeed");
    let after = now_of(&c);

    let stored = stored_expiry(&c, 1)
        .expect("entry must be present")
        .expect("a configured ttl must record a deadline");

    let (value, expires_at) = ConcurrentCacheExpiry::cache_peek_expires_at(&c, &1);
    assert_eq!(value, Some(10));
    assert_eq!(
        expires_at,
        Some(stored),
        "the reported deadline must be the one the shard holds"
    );
    let expires_at = expires_at.unwrap();
    assert!(expires_at > now_of(&c), "a live entry expires later");
    assert!(expires_at >= plus(before, ttl) && expires_at <= plus(after, ttl));
}

#[test]
fn sharded_ttl_peek_expires_at_never_expiring_entry_reports_no_deadline() {
    let c = ShardedTtlCache::<u32, u32>::builder()
        .ttl(Duration::from_secs(3600))
        .build()
        .unwrap();
    c.unset_ttl();
    c.cache_set(1, 10).expect("insert must succeed");
    assert_eq!(
        ConcurrentCacheExpiry::cache_peek_expires_at(&c, &1),
        (Some(10), None)
    );
    assert_eq!(
        c.cache_peek_with_expiry_status(&1),
        (Some(10), false)
    );
}

#[test]
fn ttl_peek_expires_at_expired_entry_returns_a_past_deadline_and_keeps_the_entry() {
    let c = ShardedTtlCache::<u32, u32>::builder()
        .ttl(Duration::from_secs(3600))
        .shards(1)
        .build()
        .unwrap();
    c.cache_set(1, 10).expect("insert must succeed");
    let deadline = now_of(&c);
    set_expiry(&c, 1, Some(deadline));

    let (value, expires_at) = ConcurrentCacheExpiry::cache_peek_expires_at(&c, &1);
    assert_eq!(value, Some(10), "an expired entry is still returned");
    assert_eq!(expires_at, Some(deadline), "the past deadline is reported");
    assert!(expires_at.unwrap() <= now_of(&c));
    assert_eq!(c.len(), 1);
    assert_eq!(c.metrics().evictions, Some(0));
    assert_eq!(
        ConcurrentCacheExpiry::cache_peek_expires_at(&c, &1),
        (Some(10), Some(deadline))
    );
}

#[test]
fn ttl_peek_expires_at_deadline_is_past_exactly_when_peek_reports_expired() {
    let c = ShardedTtlCache::<u32, u32>::builder()
        .ttl(Duration::from_secs(3600))
        .shards(1)
        .build()
        .unwrap();
    c.cache_set(1, 10).expect("insert must succeed");
    for expire in [false, true] {
        if expire {
            set_expiry(&c, 1, Some(now_of(&c)));
        }
        let (_, expires_at) = ConcurrentCacheExpiry::cache_peek_expires_at(&c, &1);
        let (_, expired) = c.cache_peek_with_expiry_status(&1);
        assert_eq!(
            expires_at.is_some_and(|t| t <= now_of(&c)),
            expired,
            "the deadline must be in the past exactly when the peek reports expired"
        );
    }
}

#[test]
fn sharded_ttl_peek_expires_at_does_not_touch_hit_or_miss_counters() {
    let c = ShardedTtlCache::<u32, u32>::builder()
        .ttl(Duration::from_secs(3600))
        .build()
        .unwrap();
    c.cache_set(1, 10).expect("insert must succeed");
    let hits = c.metrics().hits;
    let misses = c.metrics().misses;

    let _ = ConcurrentCacheExpiry::cache_peek_expires_at(&c, &1);
    let _ = ConcurrentCacheExpiry::cache_peek_expires_at(&c, &2);

    assert_eq!(c.metrics().hits, hits, "a peek must not count a hit");
    assert_eq!(c.metrics().misses, misses, "a peek must not count a miss");
}

#[test]
fn peek_expires_at_extreme_ttl_is_clamped_not_overflowed() {
    let c = ShardedTtlCache::<u32, u32>::builder()
        .ttl(Duration::from_secs(60))
        .build()
        .unwrap();
    c.set_ttl(Duration::longest());
    let before = now_of(&c);
    c.cache_set(1, 42).expect("insert must succeed");
    let after = now_of(&c);

    let (value, expires_at) = ConcurrentCacheExpiry::cache_peek_expires_at(&c, &1);
    assert_eq!(value, Some(42));
    let expires_at = expires_at.expect(
        "an extreme ttl is clamped to ~584 years, not overflowed to None",
    );
    let clamped_ttl = Duration::from_nanos(u64::MAX);
    assert!(
        expires_at >= plus(before, clamped_ttl) && expires_at <= plus(after, clamped_ttl),
        "the deadline must reflect the clamped ~584-year ttl, not an overflow-to-None"
    );
    assert_eq!(
        ConcurrentCacheExpiry::peek_expires_at(&c, &1),
        ConcurrentCacheExpiry::cache_peek_expires_at(&c, &1)
    );
}

#[test]
fn sharded_ttl_peek_expires_at_reports_stale_deadline_after_ttl_change() {
    let c = ShardedTtlCache::<u32, u32>::builder()
        .ttl(Duration::from_secs(60))
        .build()
        .unwrap();
    c.cache_set(1, 100).expect("insert must succeed");
    let (_, original) = ConcurrentCacheExpiry::cache_peek_expires_at(&c, &1);
    let original = original.expect("a configured ttl must record a deadline");

    c.set_ttl(Duration::from_secs(5));
    assert_eq!(
        ConcurrentCacheExpiry::cache_peek_expires_at(&c, &1),
        (Some(100), Some(original)),
        "changing the store ttl must not retroactively rewrite an existing entry's deadline"
    );

    c.unset_ttl();
    assert_eq!(
        ConcurrentCacheExpiry::cache_peek_expires_at(&c, &1),
        (Some(100), Some(original)),
        "disabling the ttl must not clear an already-stored entry's deadline"
    );

    c.cache_set(2, 200).expect("insert must succeed");
    assert_eq!(
        ConcurrentCacheExpiry::cache_peek_expires_at(&c, &2),
        (Some(200), None)
    );
}

#[test]
fn sharded_ttl_peek_expires_at_boundary_matches_now_ge_expires_at_convention() {
    let c = ShardedTtlCache::<u32, u32>::builder()
        .ttl(Duration::from_secs(3600))
        .shards(1)
        .build()
        .unwrap();
    c.cache_set(1, 100).expect("insert must succeed");
    let tie = now_of(&c);
    set_expiry(&c, 1, Some(tie));

    assert_eq!(
        ConcurrentCacheExpiry::cache_peek_expires_at(&c, &1),
        (Some(100), Some(tie))
    );
    assert_eq!(
        c.cache_peek_with_expiry_status(&1),
        (Some(100), true),
        "now == expires_at must be treated as expired, matching the now >= expires_at convention"
    );
}

#[test]
fn sharded_ttl_peek_expires_at_reports_absent_after_cache_remove() {
    let c = ShardedTtlCache::<u32, u32>::builder()
        .ttl(Duration::from_secs(60))
        .build()
        .unwrap();
    c.cache_set(1, 100).expect("insert must succeed");
    assert_eq!(
        c.cache_remove(&1).unwrap(),
        Some(100)
    );
    assert_eq!(
        ConcurrentCacheExpiry::cache_peek_expires_at(&c, &1),
        (None, None)
    );
    assert_eq!(ConcurrentCacheExpiry::peek_expires_at(&c, &1), (None, None));
}

#[test]
fn concurrent_cache_expiry_is_reachable_through_a_generic_bound_and_the_prelude() {

    let c = ShardedTtlCache::<u32, u32>::builder()
        .ttl(Duration::from_secs(60))
        .build()
        .unwrap();
    c.cache_set(1, 100).expect("insert must succeed");

    let (value, expires_at) = peek_via_bound(&c, &1);
    assert_eq!(value, Some(100));
    assert!(expires_at.is_some());
    assert_eq!(
        peek_via_bound(&c, &2),
        (None, None),
        "absent key via the generic bound"
    );
}

#[test]
fn peek_expires_at_routes_correctly_across_many_shards() {
    let c = ShardedTtlCache::<u32, u32>::builder()
        .ttl(Duration::from_secs(3600))
        .shards(8)
        .build()
        .unwrap();
    populate_mixed(&c);

    let distinct_shards: std::collections::HashSet<usize> = (0..24u32)
        .map(|k| c.shard_number(&k))
        .collect();
    assert!(
        distinct_shards.len() > 1,
        "fixture must span multiple shards for this test to be meaningful"
    );

    for i in 0..8u32 {
        let (value, expires_at) = ConcurrentCacheExpiry::cache_peek_expires_at(&c, &i);
        assert_eq!(value, Some(i * 10), "key {i} (expired group)");
        assert!(
            expires_at.unwrap() <= now_of(&c),
            "key {i} must carry a past deadline"
        );
    }
    for i in 8..16u32 {
        let (value, expires_at) = ConcurrentCacheExpiry::cache_peek_expires_at(&c, &i);
        assert_eq!(value, Some(i * 10), "key {i} (live group)");
        assert!(
            expires_at.unwrap() > now_of(&c),
            "key {i} must carry a future deadline"
        );
    }
    for i in 16..24u32 {
        let (value, expires_at) = ConcurrentCacheExpiry::cache_peek_expires_at(&c, &i);
        assert_eq!(value, Some(i * 10), "key {i} (never-expiring group)");
        assert_eq!(expires_at, None, "key {i} must carry no deadline");
    }
    assert_eq!(
        ConcurrentCacheExpiry::cache_peek_expires_at(&c, &999u32),
        (None, None),
        "an absent key must report absent regardless of shard count"
    );
}

#[test]
fn sharded_ttl_expires_at_absent_key_returns_false_none() {
    let c = ShardedTtlCache::<u32, u32>::builder()
        .ttl(Duration::from_secs(60))
        .build()
        .unwrap();
    assert_eq!(
        ConcurrentCacheExpiry::cache_expires_at(&c, &1),
        (false, None)
    );
    assert_eq!(ConcurrentCacheExpiry::expires_at(&c, &1), (false, None));
}

#[test]
fn sharded_ttl_expires_at_live_entry_returns_the_stored_future_deadline() {
    let ttl = Duration::from_secs(60);
    let c = ShardedTtlCache::<u32, u32>::builder()
        .ttl(ttl)
        .build()
        .unwrap();
    let before = now_of(&c);
    c.cache_set(1, 100).expect("insert must succeed");
    let after = now_of(&c);

    let (present, expires_at) = ConcurrentCacheExpiry::cache_expires_at(&c, &1);
    assert!(present, "a stored key must report present");
    let expires_at = expires_at.expect("a configured ttl must record a deadline");
    assert!(expires_at > now_of(&c), "a live entry expires later");
    assert!(expires_at >= plus(before, ttl) && expires_at <= plus(after, ttl));
}

#[test]
fn sharded_ttl_expires_at_never_expiring_entry_reports_present_with_no_deadline() {
    let c = ShardedTtlCache::<u32, u32>::builder()
        .ttl(Duration::from_secs(60))
        .build()
        .unwrap();
    c.unset_ttl();
    c.cache_set(1, 100).expect("insert must succeed");
    assert_eq!(
        ConcurrentCacheExpiry::cache_expires_at(&c, &1),
        (true, None),
        "present-with-no-deadline must be distinguishable from absent by the flag"
    );
    assert_eq!(
        ConcurrentCacheExpiry::cache_expires_at(&c, &2),
        (false, None)
    );
}

#[test]
fn sharded_ttl_expires_at_does_not_touch_hit_or_miss_counters() {
    let c = ShardedTtlCache::<u32, u32>::builder()
        .ttl(Duration::from_secs(60))
        .shards(4)
        .build()
        .unwrap();
    c.cache_set(1, 100).expect("insert must succeed");
    let metrics = c.metrics();

    let _ = ConcurrentCacheExpiry::cache_expires_at(&c, &1);
    let _ = ConcurrentCacheExpiry::cache_expires_at(&c, &2);
    let _ = ConcurrentCacheExpiry::expires_at(&c, &1);

    let after = c.metrics();
    assert_eq!(after.hits, metrics.hits, "the read must not count a hit");
    assert_eq!(
        after.misses, metrics.misses,
        "the read must not count a miss"
    );
    assert_eq!(
        after.evictions, metrics.evictions,
        "the read must not evict an entry"
    );
}

#[test]
fn concurrent_cache_expires_at_is_reachable_through_a_generic_bound_and_the_prelude() {

    let c = ShardedTtlCache::<u32, u32>::builder()
        .ttl(Duration::from_secs(60))
        .build()
        .unwrap();
    c.cache_set(1, 100).expect("insert must succeed");

    let (present, expires_at) = deadline_via_bound(&c, &1);
    assert!(present);
    assert!(expires_at.is_some());
    assert_eq!(
        deadline_via_bound(&c, &2),
        (false, None),
        "absent key via the generic bound"
    );
}

#[test]
fn expires_at_routes_correctly_across_many_shards() {
    let c = ShardedTtlCache::<u32, u32>::builder()
        .ttl(Duration::from_secs(3600))
        .shards(8)
        .build()
        .unwrap();
    populate_mixed(&c);

    let distinct_shards: std::collections::HashSet<usize> = (0..24u32)
        .map(|k| c.shard_number(&k))
        .collect();
    assert!(
        distinct_shards.len() > 1,
        "fixture must span multiple shards for this test to be meaningful"
    );

    for i in 0..8u32 {
        let (present, expires_at) = ConcurrentCacheExpiry::cache_expires_at(&c, &i);
        assert!(present, "key {i} (expired group) must report present");
        assert!(
            expires_at.unwrap() <= now_of(&c),
            "key {i} must carry a past deadline"
        );
    }
    for i in 8..16u32 {
        let (present, expires_at) = ConcurrentCacheExpiry::cache_expires_at(&c, &i);
        assert!(present, "key {i} (live group) must report present");
        assert!(
            expires_at.unwrap() > now_of(&c),
            "key {i} must carry a future deadline"
        );
    }
    for i in 16..24u32 {
        assert_eq!(
            ConcurrentCacheExpiry::cache_expires_at(&c, &i),
            (true, None),
            "key {i} (never-expiring group)"
        );
    }
    assert_eq!(
        ConcurrentCacheExpiry::cache_expires_at(&c, &999u32),
        (false, None),
        "an absent key must report absent regardless of shard count"
    );
}
