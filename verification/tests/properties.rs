use cached::stores::error::validate_ttl;
use cached::stores::expiry::{compute_expires_at, TimedEntry};
use cached::stores::sharded::hasher::{checked_shard_count, shard_index, DEFAULT_SHARDS};
use cached::stores::sharded::shard::{sum_counts, sum_sizes, Tally};
use cached::stores::sharded::ttl::{decode_ttl, encode_ttl};
use cached::stores::sharded::ttl_store::{renewed_deadline, TtlStore};
use cached::stores::sharded::unbound_store::UnboundStore;
use cached::stores::ttl_sorted::judge_room;
use cached::time::{Clock, Duration, Instant, Moment, LAST_INSTANT_NANOS};
use cached::{
    BuildError, CacheEvict, SetMaxSizeError, SetTtlError, ShardedTtlCache, ShardedUnboundCache,
    SharedReads, TtlCache, TtlSortedCache,
};
use std::sync::{Arc, Mutex};

type Log = Arc<Mutex<Vec<(u32, u32)>>>;

fn at(nanos: u128) -> Instant {
    Instant { nanos }
}

fn nanos(n: u64) -> Duration {
    Duration::from_nanos(n)
}

fn logged() -> (Log, impl Fn(&u32, &u32) + Send + Sync + 'static) {
    let log: Log = Arc::new(Mutex::new(Vec::new()));
    let log2 = log.clone();
    (log, move |k: &u32, v: &u32| {
        log2.lock().unwrap().push((*k, *v))
    })
}

fn heard(log: &Log) -> Vec<(u32, u32)> {
    log.lock().unwrap().clone()
}

fn ttl_cache(ttl: u64) -> (TtlCache<u32, u32>, Log) {
    let (log, f) = logged();
    let c = TtlCache::builder().ttl(nanos(ttl)).on_evict(f).build();
    (c.unwrap(), log)
}

fn sorted_cache(ttl: u64, max_size: usize) -> (TtlSortedCache<u32, u32>, Log) {
    let (log, f) = logged();
    let c = TtlSortedCache::builder()
        .ttl(nanos(ttl))
        .max_size(max_size)
        .on_evict(f)
        .build();
    (c.unwrap(), log)
}

fn put(
    c: &mut TtlSortedCache<u32, u32>,
    k: u32,
    v: u32,
    ttl: Option<Duration>,
    sweep: bool,
    now: Instant,
) -> Option<u32> {
    c.set_inner(k, v, ttl, sweep, false, now).0
}

// Time.

#[test]
fn durations_are_counted_in_nanoseconds() {
    assert_eq!(Duration::from_secs(7).as_nanos(), 7_000_000_000);
    assert_eq!(Duration::from_millis(250).as_nanos(), 250_000_000);
    assert_eq!(Duration::from_nanos(3).as_nanos(), 3);
    assert!(Duration::zero().is_zero());
    assert!(!nanos(1).is_zero());
    assert_eq!(
        Duration::longest().as_nanos(),
        18_446_744_073_709_551_615_999_999_999
    );
}

#[test]
fn instants_end_and_begin() {
    assert_eq!(at(5).checked_add(nanos(7)), Some(at(12)));
    assert_eq!(
        at(LAST_INSTANT_NANOS - 1).checked_add(nanos(1)),
        Some(at(LAST_INSTANT_NANOS))
    );
    assert_eq!(at(LAST_INSTANT_NANOS).checked_add(nanos(1)), None);
    assert_eq!(at(5).checked_sub(nanos(5)), Some(at(0)));
    assert_eq!(at(5).checked_sub(nanos(6)), None);
}

#[test]
fn a_clock_moves_on() {
    let clock = Clock::start();
    let copy = clock;
    let first = clock.now();
    while copy.now() <= first {}
    assert!(clock.now() > first);
    assert!(Moment::Present(clock).now() > first);
    assert_eq!(Moment::At(at(7)).now(), at(7));
}

#[test]
fn deadlines() {
    assert_eq!(compute_expires_at(nanos(10), at(5)), Some(at(15)));
    assert_eq!(compute_expires_at(Duration::zero(), at(5)), None);
    assert_eq!(compute_expires_at(Duration::longest(), at(5)), None);
    let e = TimedEntry {
        expires_at: Some(at(15)),
        value: 1u32,
    };
    assert!(!e.is_expired_at(at(14)));
    assert!(e.is_expired_at(at(15)));
    assert!(e.is_expired_at(at(16)));
}

// Configuration.

#[test]
fn a_time_to_live_is_required_and_not_zero() {
    let missing = Some(BuildError::MissingRequired("ttl"));
    let zero = Some(BuildError::InvalidValue {
        field: "ttl",
        reason: "must be greater than zero",
    });
    assert_eq!(validate_ttl(None).err(), missing);
    assert_eq!(validate_ttl(Some(Duration::zero())).err(), zero);
    assert_eq!(validate_ttl(Some(nanos(1))), Ok(nanos(1)));
    assert_eq!(TtlCache::<u32, u32>::builder().build().err(), missing);
    assert_eq!(TtlSortedCache::<u32, u32>::builder().build().err(), missing);
    assert_eq!(ShardedTtlCache::<u32, u32>::builder().build().err(), missing);
    let none = Duration::zero();
    assert_eq!(TtlCache::<u32, u32>::builder().ttl(none).build().err(), zero);
    assert_eq!(TtlSortedCache::<u32, u32>::builder().ttl(none).build().err(), zero);
    assert_eq!(ShardedTtlCache::<u32, u32>::builder().ttl(none).build().err(), zero);
}

#[test]
fn size_bounds_are_not_zero() {
    let c = TtlSortedCache::<u32, u32>::builder().ttl_secs(1).max_size(0);
    assert!(matches!(
        c.build().err(),
        Some(BuildError::InvalidValue { field: "max_size", .. })
    ));
    let (mut c, _) = sorted_cache(10, 3);
    assert_eq!(c.try_set_max_size(0), Err(SetMaxSizeError::ZeroMaxSize));
    assert_eq!(c.capacity(), Some(3));
    assert_eq!(c.try_set_max_size(5), Ok(Some(3)));
    assert_eq!(c.set_max_size(4), Some(5));
    assert_eq!(c.capacity(), Some(4));
}

#[test]
fn room_that_cannot_be_had_is_refused() {
    assert_eq!(judge_room(true, "max_size"), Ok(()));
    assert!(matches!(
        judge_room(false, "initial_capacity"),
        Err(BuildError::InvalidValue { field: "initial_capacity", .. })
    ));
    let c = TtlSortedCache::<u32, u32>::builder()
        .ttl_secs(1)
        .initial_capacity(usize::MAX)
        .build();
    assert!(matches!(
        c.err(),
        Some(BuildError::InvalidValue { field: "initial_capacity", .. })
    ));
}

#[test]
fn room_is_made_and_kept() {
    let mut c: TtlSortedCache<u32, u32> = TtlSortedCache::builder()
        .ttl_secs(60)
        .initial_capacity(50)
        .build()
        .unwrap();
    assert!(c.room() >= 50);
    c.reserve(400);
    assert!(c.room() >= 400);
    c.cache_reset();
    assert!(c.room() >= 50);
    let c: TtlCache<u32, u32> = TtlCache::builder()
        .ttl_secs(60)
        .initial_capacity(50)
        .build()
        .unwrap();
    assert!(c.room() >= 50);
    assert_eq!(c.initial_capacity(), Some(50));
    assert!(!c.has_on_evict());
}

#[test]
fn shard_counts() {
    assert_eq!(checked_shard_count(None), Ok(DEFAULT_SHARDS));
    assert_eq!(checked_shard_count(Some(1)), Ok(1));
    assert_eq!(checked_shard_count(Some(5)), Ok(8));
    assert_eq!(checked_shard_count(Some(8)), Ok(8));
    assert_eq!(
        checked_shard_count(Some(0)),
        Err(BuildError::InvalidValue {
            field: "shards",
            reason: "must be greater than zero",
        })
    );
    assert_eq!(
        checked_shard_count(Some(usize::MAX)),
        Err(BuildError::InvalidValue {
            field: "shards",
            reason: "overflows when rounded up to a power of two",
        })
    );
}

#[test]
fn shards_are_chosen_by_the_upper_bits() {
    assert_eq!(shard_index(0x0000_0005_ffff_ffff, 3), 1);
    assert_eq!(shard_index(0x0000_0007_0000_0000, 15), 7);
    assert_eq!(shard_index(u64::MAX, 0), 0);
}

#[test]
fn keys_spread_over_shards_and_stay_there() {
    let c = ShardedUnboundCache::<u32, u32>::builder().shards(8).build().unwrap();
    for k in 0..256 {
        c.set(k, k);
    }
    let sizes = c.shard_sizes();
    assert!(sizes.iter().filter(|n| **n > 0).count() > 1);
    let d = c.deep_clone();
    assert_eq!(d.shard_sizes(), sizes);
    for k in 0..256 {
        assert_eq!(c.get(&k), Some(k));
        assert_eq!(d.get(&k), Some(k));
    }
}

// Shared times to live and counters.

#[test]
fn shared_ttl() {
    assert_eq!(encode_ttl(nanos(9)), 9);
    assert_eq!(encode_ttl(Duration::longest()), u64::MAX);
    assert_eq!(decode_ttl(0), None);
    assert_eq!(decode_ttl(encode_ttl(nanos(9))), Some(nanos(9)));
    assert_eq!(decode_ttl(encode_ttl(Duration::longest())), Some(nanos(u64::MAX)));
    let c = ShardedTtlCache::<u32, u32>::new(nanos(9));
    assert_eq!(c.try_set_ttl(Duration::zero()), Err(SetTtlError::ZeroTtl));
    assert_eq!(c.try_set_ttl(nanos(8)), Ok(Some(nanos(9))));
    assert_eq!(c.unset_ttl(), Some(nanos(8)));
    assert_eq!(c.ttl(), None);
    assert!(!c.refresh_on_hit());
    assert!(!c.set_refresh_on_hit(true));
    assert!(c.refresh_on_hit());
}

#[test]
fn counters_wrap_and_sizes_saturate() {
    assert_eq!(sum_counts(&vec![1, 2, 3]), 6);
    assert_eq!(sum_counts(&vec![u64::MAX, 2]), 1);
    assert_eq!(sum_sizes(&vec![1, 2, 3]), 6);
    assert_eq!(sum_sizes(&vec![usize::MAX, 2]), usize::MAX);
}

// One owner.

#[test]
fn ttl_read_after_write_until_the_deadline() {
    let (mut c, log) = ttl_cache(10);
    assert_eq!(c.cache_set_at(1, 100, at(5)), None);
    assert_eq!(c.cache_get_at(&1, at(14)), Some(&100));
    assert_eq!(c.cache_peek_at(&1, at(15)), None);
    assert_eq!(c.cache_get_at(&1, at(15)), None);
    assert_eq!(c.cache_size(), 0);
    assert_eq!(heard(&log), vec![(1, 100)]);
    assert_eq!(
        (c.cache_hits(), c.cache_misses(), c.cache_evictions()),
        (Some(1), Some(1), Some(1))
    );
}

#[test]
fn ttl_hit_renews_only_where_asked() {
    let (mut c, _) = ttl_cache(10);
    c.cache_set_at(1, 100, at(0));
    assert_eq!(c.cache_get_at(&1, at(9)), Some(&100));
    assert_eq!(c.cache_peek_at(&1, at(10)), None);
    assert!(!c.set_refresh_on_hit(true));
    assert_eq!(c.cache_get_at(&1, at(9)), Some(&100));
    assert_eq!(c.cache_peek_at(&1, at(18)), Some(&100));
    assert_eq!(c.cache_peek_at(&1, at(19)), None);
    assert_eq!(c.unset_ttl(), Some(nanos(10)));
    assert_eq!(c.cache_get_at(&1, at(18)), Some(&100));
    assert_eq!(c.cache_peek_at(&1, at(19)), None);
}

#[test]
fn ttl_write_over_an_expired_entry_evicts_it() {
    let (mut c, log) = ttl_cache(10);
    c.cache_set_at(1, 100, at(0));
    assert_eq!(c.cache_set_at(1, 101, at(9)), Some(100));
    assert_eq!(heard(&log), vec![]);
    assert_eq!(c.cache_set_at(1, 102, at(19)), None);
    assert_eq!(heard(&log), vec![(1, 101)]);
    assert_eq!(c.cache_evictions(), Some(1));
}

#[test]
fn ttl_removal_returns_what_is_live() {
    let (mut c, log) = ttl_cache(10);
    c.cache_set_at(1, 100, at(0));
    c.cache_set_at(2, 200, at(0));
    c.cache_set_at(3, 300, at(0));
    assert_eq!(c.cache_remove_at(&1, at(9)), Some(100));
    assert_eq!(c.cache_remove_at(&2, at(10)), None);
    assert_eq!(c.cache_remove_at(&2, at(10)), None);
    assert_eq!(c.cache_remove_entry(&3), Some((3, 300)));
    assert_eq!(heard(&log), vec![(1, 100), (2, 200), (3, 300)]);
    assert_eq!(c.cache_evictions(), Some(3));
}

#[test]
fn ttl_sweep_removes_exactly_the_expired() {
    let (mut c, log) = ttl_cache(10);
    for k in 0..6 {
        c.cache_set_at(k, k * 10, at(u128::from(k)));
    }
    c.unset_ttl();
    c.cache_set_at(6, 60, at(0));
    assert_eq!(c.evict_at(at(12)), 3);
    let mut swept = heard(&log);
    swept.sort_unstable();
    assert_eq!(swept, vec![(0, 0), (1, 10), (2, 20)]);
    assert_eq!(c.cache_size(), 4);
    assert_eq!(c.evict_at(at(12)), 0);
    assert_eq!(c.evict_at(at(1_000_000)), 3);
    assert_eq!(c.cache_size(), 1);
}

#[test]
fn ttl_retain_keeps_what_is_live_and_wanted() {
    let (mut c, log) = ttl_cache(10);
    for k in 0..6 {
        c.cache_set_at(k, k * 10, at(u128::from(k)));
    }
    assert_eq!(c.retain_at(|k, v| *k % 2 == 0 && *v == *k * 10, at(12)), 5);
    let mut gone = heard(&log);
    gone.sort_unstable();
    assert_eq!(gone, vec![(0, 0), (1, 10), (2, 20), (3, 30), (5, 50)]);
    assert_eq!(c.cache_size(), 1);
    assert_eq!(c.cache_peek_at(&4, at(12)), Some(&40));
}

#[test]
fn ttl_failed_fill_changes_no_entry() {
    let (mut c, log) = ttl_cache(10);
    c.cache_set_at(1, 100, at(0));
    while c.clock().now() < at(10) {}
    let r: Result<&mut u32, &str> = c.cache_try_get_or_set_with_mut(1, || Err("no"));
    assert_eq!(r, Err("no"));
    assert_eq!(c.cache_size(), 1);
    assert_eq!(heard(&log), vec![]);
    assert_eq!(c.cache_misses(), Some(1));
    assert_eq!(*c.cache_get_or_set_with_mut(1, || 7), 7);
    assert_eq!(heard(&log), vec![(1, 100)]);
    assert_eq!(c.cache_misses(), Some(2));
    assert_eq!(c.cache_evictions(), Some(1));
}

#[test]
fn ttl_values_can_be_changed_in_place() {
    let mut c: TtlCache<u32, u32> = TtlCache::new(Duration::from_secs(60));
    c.cache_set(1, 100);
    *c.cache_get_mut(&1).unwrap() += 1;
    assert_eq!(c.cache_get(&1), Some(&101));
    let now = c.clock().now();
    assert!(c.probe_at(&1, now));
    *c.stored_value_mut(&1) += 1;
    assert_eq!(c.cache_peek(&1), Some(&102));
    assert_eq!(c.cache_hits(), Some(3));
    assert!(!c.probe_at(&2, now));
    *c.fill_at(2, 200, now) += 1;
    assert_eq!(c.cache_peek(&2), Some(&201));
    assert_eq!(c.cache_misses(), Some(1));
}

#[test]
fn ttl_clear_with_callback_tells_of_every_entry() {
    let (mut c, log) = ttl_cache(10);
    for k in 0..4 {
        c.cache_set_at(k, k, at(0));
    }
    c.cache_clear_with_on_evict();
    let mut gone = heard(&log);
    gone.sort_unstable();
    assert_eq!(gone, vec![(0, 0), (1, 1), (2, 2), (3, 3)]);
    assert_eq!(c.cache_evictions(), Some(4));
    assert_eq!(c.cache_size(), 0);
}

#[test]
fn ttl_copies_share_the_callback_and_nothing_else() {
    let (mut c, log) = ttl_cache(1_000_000_000_000);
    c.cache_set(1, 100);
    let mut d = c.clone();
    assert_eq!(d.cache_remove(&1), Some(100));
    assert_eq!(heard(&log), vec![(1, 100)]);
    assert_eq!(c.cache_get(&1), Some(&100));
}

// One owner, with a bound.

#[test]
fn sorted_drops_the_next_to_expire() {
    let (mut c, log) = sorted_cache(10, 2);
    put(&mut c, 1, 10, Some(nanos(30)), false, at(0));
    put(&mut c, 2, 20, Some(nanos(10)), false, at(0));
    put(&mut c, 3, 30, Some(nanos(20)), false, at(0));
    assert_eq!(heard(&log), vec![(2, 20)]);
    put(&mut c, 4, 40, Some(Duration::zero()), false, at(0));
    assert_eq!(heard(&log), vec![(2, 20), (3, 30)]);
    put(&mut c, 5, 50, Some(nanos(40)), false, at(0));
    assert_eq!(heard(&log), vec![(2, 20), (3, 30), (1, 10)]);
    assert_eq!(c.cache_size(), 2);
    assert_eq!(c.cache_evictions(), Some(3));
    let left: Vec<u32> = c.iter_at(at(0)).into_iter().map(|(k, _)| *k).collect();
    assert_eq!(left, vec![5, 4]);
}

#[test]
fn sorted_ties_leave_in_the_order_of_keys() {
    let (mut c, log) = sorted_cache(10, 5);
    for k in [3, 1, 2] {
        put(&mut c, k, k * 10, None, false, at(0));
    }
    assert_eq!(c.retain_latest(0, false), 3);
    assert_eq!(heard(&log), vec![(1, 10), (2, 20), (3, 30)]);
}

#[test]
fn sorted_read_after_write_until_the_deadline() {
    let (mut c, log) = sorted_cache(10, 5);
    assert_eq!(put(&mut c, 1, 100, None, false, at(5)), None);
    assert_eq!(c.cache_get_at(&1, at(14)), Some(&100));
    assert_eq!(c.cache_get_at(&1, at(15)), None);
    assert_eq!(heard(&log), vec![(1, 100)]);
    assert_eq!(c.index_len(), 0);
    assert_eq!(
        (c.cache_hits(), c.cache_misses(), c.cache_evictions()),
        (Some(1), Some(1), Some(1))
    );
}

#[test]
fn sorted_fill_survives_the_bound() {
    let (mut c, log) = sorted_cache(10, 1);
    put(&mut c, 1, 10, Some(Duration::zero()), false, at(0));
    *c.set_and_get_mut_at(2, 20, at(0)) += 1;
    assert_eq!(heard(&log), vec![(1, 10)]);
    assert_eq!(c.cache_peek_at(&2, at(9)), Some(&21));
    assert_eq!(c.cache_size(), 1);
}

#[test]
fn sorted_overwriting_drops_nothing() {
    let (mut c, log) = sorted_cache(10, 2);
    put(&mut c, 1, 10, None, false, at(0));
    put(&mut c, 2, 20, None, false, at(0));
    assert_eq!(put(&mut c, 1, 11, None, false, at(5)), Some(10));
    assert_eq!(c.cache_size(), 2);
    assert_eq!(heard(&log), vec![]);
    assert_eq!(put(&mut c, 2, 21, None, false, at(10)), None);
    assert_eq!(heard(&log), vec![(2, 20)]);
}

#[test]
fn sorted_write_with_sweep_removes_what_is_due() {
    let (log, f) = logged();
    let mut c = TtlSortedCache::builder()
        .ttl(nanos(10))
        .on_evict(f)
        .build()
        .unwrap();
    put(&mut c, 1, 10, Some(nanos(1)), false, at(0));
    put(&mut c, 2, 20, Some(nanos(2)), false, at(0));
    put(&mut c, 3, 30, Some(nanos(3)), true, at(2));
    assert_eq!(heard(&log), vec![(1, 10)]);
    assert_eq!(c.cache_size(), 2);

    let (mut c, log) = sorted_cache(10, 3);
    put(&mut c, 1, 10, Some(nanos(1)), false, at(0));
    put(&mut c, 2, 20, Some(nanos(2)), false, at(0));
    put(&mut c, 3, 30, Some(nanos(3)), true, at(5));
    assert_eq!(heard(&log), vec![], "within the bound, nothing is swept");
    put(&mut c, 4, 40, Some(nanos(3)), true, at(5));
    assert_eq!(heard(&log), vec![(1, 10), (2, 20)]);
}

#[test]
fn sorted_retain_removes_the_expired_and_the_unwanted() {
    let (mut c, log) = sorted_cache(10, 10);
    for k in 0..6 {
        put(&mut c, k, k * 10, None, false, at(u128::from(k)));
    }
    c.retain_at(|k, v| *k % 2 == 0 && *v == *k * 10, at(12));
    let left: Vec<u32> = c.iter_at(at(0)).into_iter().map(|(k, _)| *k).collect();
    assert_eq!(left, vec![4]);
    let mut gone = heard(&log);
    gone.sort_unstable();
    assert_eq!(gone, vec![(0, 0), (1, 10), (2, 20), (3, 30), (5, 50)]);
    assert_eq!(c.index_len(), 1);
    assert_eq!(c.cache_evictions(), Some(5));
}

#[test]
fn sorted_removal_returns_what_is_live() {
    let (mut c, log) = sorted_cache(10, 5);
    for k in 1..4 {
        put(&mut c, k, k * 100, None, false, at(0));
    }
    assert_eq!(c.cache_remove_at(&1, at(9)), Some(100));
    assert_eq!(c.cache_remove_at(&2, at(10)), None);
    assert!(c.cache_delete(&3));
    assert!(!c.cache_delete(&3));
    assert_eq!(heard(&log), vec![(1, 100), (2, 200), (3, 300)]);
    assert_eq!(c.index_len(), 0);
}

#[test]
fn sorted_status_of_an_expired_entry() {
    let (mut c, log) = sorted_cache(10, 5);
    put(&mut c, 1, 100, None, false, at(0));
    assert_eq!(c.cache_peek_with_expiry_status_at(&1, at(9)), (Some(100), false));
    assert_eq!(c.cache_get_with_expiry_status_at(&1, at(10)), (Some(100), true));
    assert_eq!(c.cache_get_with_expiry_status_at(&2, at(10)), (None, false));
    assert_eq!(c.cache_size(), 1);
    assert_eq!(heard(&log), vec![]);
}

#[test]
fn sorted_sweep_through_the_trait() {
    let (mut c, _) = sorted_cache(10, 5);
    put(&mut c, 1, 100, None, false, at(0));
    while c.clock().now() <= at(10) {}
    assert_eq!(CacheEvict::evict(&mut c), 1);
    assert_eq!(CacheEvict::evict(&mut c), 0);
}

#[test]
fn sorted_read_counts_and_keeps() {
    let (mut c, log) = sorted_cache(10, 5);
    put(&mut c, 1, 100, None, false, at(0));
    assert_eq!(c.cache_get_read_at(&1, at(9)), Some(&100));
    assert_eq!(c.cache_get_read_at(&1, at(10)), None);
    assert_eq!(c.cache_size(), 1);
    while c.clock().now() < at(10) {}
    assert_eq!(c.cache_get_read(&1), None);
    assert_eq!((c.cache_hits(), c.cache_misses()), (Some(1), Some(2)));
    assert_eq!(heard(&log), vec![]);
}

// One shard.

#[test]
fn shard_read_after_write_until_the_deadline() {
    let mut s: TtlStore<u32, u32> = TtlStore::new(4);
    let f = s.put(1, 100, at(5), nanos(10));
    assert_eq!(f.value, None);
    assert_eq!(s.expires_at(&1), (true, Some(at(15))));
    let f = s.look_up_evicting(&1, at(14));
    assert_eq!((f.value, f.tally), (Some(100), Tally { hits: 1, misses: 0, evictions: 0 }));
    let f = s.put(1, 101, at(15), nanos(10));
    assert_eq!(f.value, None);
    assert_eq!(f.evicted.map(|e| (e.0, e.1.value)), Some((1, 100)));
    let f = s.look_up_evicting(&1, at(25));
    assert_eq!((f.value, f.tally), (None, Tally { hits: 0, misses: 1, evictions: 1 }));
    assert_eq!(f.evicted.map(|e| (e.0, e.1.value)), Some((1, 101)));
    let f = s.look_up_evicting(&1, at(25));
    assert_eq!(f.tally, Tally { hits: 0, misses: 1, evictions: 0 });
    assert_eq!(s.len(), 0);
}

#[test]
fn shard_hit_renews() {
    let mut s: TtlStore<u32, u32> = TtlStore::new(0);
    s.put(1, 100, at(0), nanos(10));
    assert_eq!(s.look_up_renewing(&1, at(9), nanos(10)).value, Some(100));
    assert_eq!(s.expires_at(&1), (true, Some(at(19))));
    assert_eq!(s.look_up_renewing(&1, at(18), Duration::zero()).value, Some(100));
    assert_eq!(s.expires_at(&1), (true, Some(at(19))));
    assert_eq!(s.status_renewing(&1, at(18), nanos(10)), (Some(100), false));
    assert_eq!(s.expires_at(&1), (true, Some(at(28))));
    assert_eq!(s.status_renewing(&1, at(28), nanos(10)), (Some(100), true));
    assert_eq!(s.expires_at(&1), (true, Some(at(28))));
    assert_eq!(renewed_deadline(nanos(1), at(1), None), Some(at(2)));
    assert_eq!(renewed_deadline(Duration::zero(), at(1), Some(at(9))), Some(at(9)));
}

#[test]
fn shard_removed_is_gone() {
    let mut s: TtlStore<u32, u32> = TtlStore::new(0);
    s.put(1, 100, at(0), nanos(10));
    s.put(2, 200, at(0), nanos(10));
    assert_eq!(s.take(&1).map(|e| (e.0, e.1.value)), Some((1, 100)));
    assert_eq!(s.take(&1).map(|e| e.0), None);
    assert_eq!(s.look_up_evicting(&1, at(0)).value, None);
    assert_eq!(s.look_up_evicting(&2, at(0)).value, Some(200));
}

#[test]
fn unbound_shard_keeps_its_values() {
    let mut s: UnboundStore<u32, u32> = UnboundStore::new(4);
    assert_eq!(s.put(1, 100), None);
    assert_eq!(s.put(1, 101), Some(100));
    assert_eq!(s.put(2, 200), None);
    assert_eq!(s.take(&1), Some((1, 101)));
    assert_eq!(s.take(&1), None);
    assert_eq!(s.len(), 1);
    let (taken, _) = s.take_rejected(|_k, v| *v > 200);
    assert_eq!(taken, vec![(2, 200)]);
}

#[test]
fn sharded_look_up_at_the_deadline_evicts_once() {
    let (log, f) = logged();
    let c = ShardedTtlCache::<u32, u32>::builder()
        .ttl(nanos(10))
        .on_evict(f)
        .build()
        .unwrap();
    c.cache_set_at(1, 100, at(5)).unwrap();
    assert_eq!(c.cache_get_at(&1, at(14)), Ok(Some(100)));
    assert_eq!(c.peek_at(&1, at(15)), None);
    assert_eq!(c.cache_contains_at(&1, at(14)), Ok(true));
    assert_eq!(c.cache_contains_at(&1, at(15)), Ok(false));
    assert_eq!(c.cache_peek_with_expiry_status_at(&1, at(15)), (Some(100), true));
    assert_eq!(c.cache_get_at(&1, at(15)), Ok(None));
    assert_eq!(c.cache_get_at(&1, at(15)), Ok(None));
    assert_eq!(heard(&log), vec![(1, 100)]);
    let m = c.metrics();
    assert_eq!((m.hits, m.misses, m.evictions), (Some(1), Some(2), Some(1)));
    assert_eq!((m.entry_count, m.capacity), (Some(0), None));
}

#[test]
fn sharded_sweeps() {
    let c = ShardedTtlCache::<u32, u32>::builder().ttl(nanos(10)).shards(4).build().unwrap();
    for k in 0..10 {
        c.cache_set_at(k, k, at(u128::from(k))).unwrap();
    }
    assert_eq!(c.evict_at(at(12)), 3);
    assert_eq!(c.retain_at(|k, _v| *k % 2 == 0, at(13)), 4);
    assert_eq!(c.len(), 3);
    assert_eq!(c.cache_evictions(), Some(7));
    assert_eq!(c.shard_evictions().iter().sum::<u64>(), 7);
}

#[test]
fn sharded_fill_is_made_once() {
    let c = ShardedTtlCache::<u32, u32>::new(Duration::from_secs(60));
    assert_eq!(c.get_or_set_with(1, || 100), 100);
    assert_eq!(c.get_or_set_with(1, || panic!("not called")), 100);
    let c = ShardedUnboundCache::<u32, u32>::new();
    assert_eq!(c.get_or_set_with(1, || 100), 100);
    assert_eq!(c.get_or_set_with(1, || panic!("not called")), 100);
    let m = c.metrics();
    assert_eq!((m.hits, m.misses, m.evictions), (Some(1), Some(1), None));
}

#[test]
fn sharded_write_over_an_expired_entry_evicts_it() {
    let (log, f) = logged();
    let c = ShardedTtlCache::<u32, u32>::builder()
        .ttl(nanos(10))
        .on_evict(f)
        .build()
        .unwrap();
    assert_eq!(c.cache_set_at(1, 100, at(0)), Ok(None));
    assert_eq!(c.cache_set_at(1, 101, at(9)), Ok(Some(100)));
    assert_eq!(heard(&log), vec![]);
    assert_eq!(c.cache_set_at(1, 102, at(19)), Ok(None));
    assert_eq!(heard(&log), vec![(1, 101)]);
    assert_eq!(c.peek_at(&1, at(28)), Some(102));
    let m = c.metrics();
    assert_eq!((m.hits, m.misses, m.evictions), (Some(0), Some(0), Some(1)));
}

#[test]
fn sharded_removal_is_judged_before_the_callback() {
    let clock = Clock::start();
    let c = ShardedTtlCache::<u32, u32>::builder()
        .ttl(Duration::from_millis(500))
        .on_evict(move |_k, _v| {
            let end = clock.now().nanos + 600_000_000;
            while clock.now().nanos < end {}
        })
        .build()
        .unwrap();
    c.set(1, 100);
    assert_eq!(c.remove(&1), Some(100));
    assert_eq!(c.remove(&1), None);
    assert_eq!(c.cache_evictions(), Some(1));
}

#[test]
fn sharded_status_evicts_nothing() {
    let (log, f) = logged();
    let c = ShardedTtlCache::<u32, u32>::builder()
        .ttl(nanos(10))
        .refresh_on_hit(true)
        .on_evict(f)
        .build()
        .unwrap();
    c.cache_set_at(1, 100, at(0)).unwrap();
    assert_eq!(c.cache_get_with_expiry_status_at(&1, at(9)), (Some(100), false));
    assert_eq!(c.cache_get_with_expiry_status_at(&1, at(18)), (Some(100), false));
    assert_eq!(c.cache_get_with_expiry_status_at(&1, at(28)), (Some(100), true));
    assert_eq!(c.cache_get_with_expiry_status_at(&2, at(28)), (None, false));
    assert_eq!(heard(&log), vec![]);
    let m = c.metrics();
    assert_eq!((m.hits, m.misses, m.evictions), (Some(2), Some(2), Some(0)));
    assert_eq!(m.entry_count, Some(1));
}

#[test]
fn entries_are_listed_with_their_deadlines() {
    let (mut c, _) = ttl_cache(10);
    c.cache_set_at(1, 100, at(0));
    c.cache_set_at(2, 200, at(5));
    let mut listed: Vec<(u32, u32, Option<Instant>)> = c
        .entries()
        .iter()
        .map(|e| (*e.key, *e.value, e.expires_at))
        .collect();
    listed.sort_by_key(|e| e.0);
    assert_eq!(listed.len(), 2);
    assert_eq!((listed[0].0, listed[0].1, listed[0].2.map(|t| t.nanos)), (1, 100, Some(10)));
    assert_eq!((listed[1].0, listed[1].1, listed[1].2.map(|t| t.nanos)), (2, 200, Some(15)));

    let (mut c, _) = sorted_cache(10, 4);
    put(&mut c, 1, 100, Some(nanos(20)), false, at(0));
    put(&mut c, 2, 200, None, false, at(0));
    let entries = c.entries();
    assert_eq!(entries.iter().map(|e| *e.key).collect::<Vec<u32>>(), vec![2, 1]);
    assert_eq!(entries[0].live_at(at(9)), Some((&2, &200)));
    assert_eq!(entries[0].live_at(at(10)), None);
    assert_eq!(entries[1].live_at(at(10)), Some((&1, &100)));
}

#[test]
fn shared_reads_are_counted() {
    let (mut c, log) = sorted_cache(10, 4);
    put(&mut c, 1, 100, None, false, at(0));
    let mut c = SharedReads::new(c);
    assert_eq!(c.cache_get_read_at(&1, at(9)), Some(&100));
    assert_eq!(c.cache_get_read_at(&1, at(10)), None);
    assert_eq!(c.cache_get_read_at(&2, at(9)), None);
    assert_eq!((c.cache_hits(), c.cache_misses()), (Some(1), Some(2)));
    assert_eq!(c.cache().cache_size(), 1);
    assert_eq!(heard(&log), vec![]);
    assert_eq!(c.cache_mut().cache_get_at(&1, at(9)), Some(&100));
    assert_eq!((c.cache_hits(), c.cache_misses()), (Some(2), Some(2)));
    c.cache_reset_metrics();
    assert_eq!((c.cache_hits(), c.cache_misses()), (Some(0), Some(0)));
    let c = SharedReads::new(TtlSortedCache::<u32, u32>::new(Duration::from_secs(60)));
    assert_eq!(c.cache_get_read(&1), None);
    assert_eq!((c.cache_hits(), c.cache_misses()), (Some(0), Some(1)));
}

#[test]
fn deep_copies_find_their_keys() {
    let c = ShardedTtlCache::<u32, u32>::new(Duration::from_secs(60));
    let u = ShardedUnboundCache::<u32, u32>::new();
    for k in 0..100 {
        c.set(k, k + 1);
        u.set(k, k + 1);
    }
    let (d, v) = (c.deep_clone(), u.deep_clone());
    for k in 0..100 {
        assert_eq!(d.shard_number(&k), c.shard_number(&k));
        assert_eq!(d.get(&k), Some(k + 1));
        assert_eq!(v.get(&k), Some(k + 1));
    }
    assert_eq!((c.cache_hits(), d.cache_hits()), (Some(0), Some(100)));
}
