//! Counted reads of a cache through a shared reference.
use crate::stores::expiry;
use crate::stores::sorted_view::SortedView;
use crate::stores::table::DefaultHashBuilder;
use crate::stores::ttl_sorted::TtlSortedCache;
use crate::time::Instant;
use std::hash::{BuildHasher, Hash};
use std::sync::atomic::{AtomicU64, Ordering};
use vstd::prelude::*;

verus! {

/// A counter that threads share.
struct SharedCount {
    count: AtomicU64,
}

impl SharedCount {
    spec fn made_of(self, n: u64) -> bool {
        call_ensures(AtomicU64::new, (n,), self.count)
    }

    spec fn reads(self, n: u64) -> bool {
        call_ensures(AtomicU64::load, (&self.count, Ordering::Relaxed), n)
    }

    spec fn adds_one(self) -> bool {
        exists|former: u64| #[trigger]
            call_ensures(AtomicU64::fetch_add, (&self.count, 1u64, Ordering::Relaxed), former)
    }

    fn new(n: u64) -> (c: SharedCount)
        ensures
            c.made_of(n),
    {
        SharedCount { count: AtomicU64::new(n) }
    }

    fn get(&self) -> (n: u64)
        ensures
            self.reads(n),
    {
        self.count.load(Ordering::Relaxed)
    }

    fn add_one(&self)
        ensures
            self.adds_one(),
    {
        let _ = self.count.fetch_add(1, Ordering::Relaxed);
    }
}

/// A [`TtlSortedCache`] that threads may read side by side, as behind a lock that readers share,
/// while the reads are counted. Reads through a shared reference change no entry; what changes the
/// cache itself goes through [`cache_mut`](Self::cache_mut).
#[verifier::reject_recursive_types(K)]
#[verifier::reject_recursive_types(V)]
#[verifier::reject_recursive_types(S)]
pub struct SharedReads<K, V, S = DefaultHashBuilder> {
    cache: TtlSortedCache<K, V, S>,
    hits: SharedCount,
    misses: SharedCount,
}

impl<K, V, S> SharedReads<K, V, S> {
    /// The cache that is read.
    pub closed spec fn inner(&self) -> TtlSortedCache<K, V, S> {
        self.cache
    }

    /// Whether the counters of shared reads are fresh, and stand at zero.
    pub closed spec fn uncounted(&self) -> bool {
        self.hits.made_of(0) && self.misses.made_of(0)
    }

    /// Whether the counters of shared reads are those of `other`.
    pub closed spec fn counts_with(&self, other: Self) -> bool {
        self.hits == other.hits && self.misses == other.misses
    }

    /// Whether a shared read was counted, as a hit or as a miss.
    pub closed spec fn counted(&self, hit: bool) -> bool {
        if hit {
            self.hits.adds_one()
        } else {
            self.misses.adds_one()
        }
    }

    /// Whether `n` is a reading of the hits of shared reads.
    pub closed spec fn shared_hits(&self, n: u64) -> bool {
        self.hits.reads(n)
    }

    /// Whether `n` is a reading of the misses of shared reads.
    pub closed spec fn shared_misses(&self, n: u64) -> bool {
        self.misses.reads(n)
    }

    /// The counters of shared reads are read as they are, and each read adds one to its own.
    proof fn law_counts_are_the_cells(self, n: u64)
        ensures
            self.shared_hits(n) <==> call_ensures(
                AtomicU64::load,
                (&self.hits.count, Ordering::Relaxed),
                n,
            ),
            self.shared_misses(n) <==> call_ensures(
                AtomicU64::load,
                (&self.misses.count, Ordering::Relaxed),
                n,
            ),
            self.counted(true) ==> exists|former: u64| #[trigger]
                call_ensures(
                    AtomicU64::fetch_add,
                    (&self.hits.count, 1u64, Ordering::Relaxed),
                    former,
                ),
            self.counted(false) ==> exists|former: u64| #[trigger]
                call_ensures(
                    AtomicU64::fetch_add,
                    (&self.misses.count, 1u64, Ordering::Relaxed),
                    former,
                ),
            self.uncounted() <==> call_ensures(AtomicU64::new, (0u64,), self.hits.count)
                && call_ensures(AtomicU64::new, (0u64,), self.misses.count),
    {
    }

    /// Lets threads read `cache` side by side.
    pub fn new(cache: TtlSortedCache<K, V, S>) -> (r: Self)
        ensures
            r.inner() == cache,
            r.uncounted(),
    {
        SharedReads { cache, hits: SharedCount::new(0), misses: SharedCount::new(0) }
    }

    /// The cache that is read.
    pub fn cache(&self) -> (c: &TtlSortedCache<K, V, S>)
        ensures
            *c == self.inner(),
    {
        &self.cache
    }

    /// Access to the cache.
    pub fn cache_mut(&mut self) -> (c: &mut TtlSortedCache<K, V, S>)
        ensures
            *c == old(self).inner(),
            final(self).inner() == *final(c),
            final(self).counts_with(*old(self)),
    {
        &mut self.cache
    }

    /// The hits of the cache, and of shared reads.
    pub fn cache_hits(&self) -> (r: Option<u64>)
        ensures
            exists|n: u64| #[trigger]
                self.shared_hits(n) && r == Some(expiry::bump(self.inner()@.hits, n as int)),
    {
        let n: u64 = self.hits.get();
        assert(self.shared_hits(n));
        match self.cache.cache_hits() {
            Some(hits) => Some(hits.wrapping_add(n)),
            None => None,
        }
    }

    /// The misses of the cache, and of shared reads.
    pub fn cache_misses(&self) -> (r: Option<u64>)
        ensures
            exists|n: u64| #[trigger]
                self.shared_misses(n) && r == Some(expiry::bump(self.inner()@.misses, n as int)),
    {
        let n: u64 = self.misses.get();
        assert(self.shared_misses(n));
        match self.cache.cache_misses() {
            Some(misses) => Some(misses.wrapping_add(n)),
            None => None,
        }
    }
}

impl<K: Hash + Eq + Ord + Clone, V, S: BuildHasher> SharedReads<K, V, S> {
    /// The live value under `k` at `now`. Counts a hit or a miss; no entry leaves.
    pub fn cache_get_read_at(&self, k: &K, now: Instant) -> (r: Option<&V>)
        requires
            self.inner().wf(),
        ensures
            match r {
                Some(v) => self.inner()@.live(*k, now) == Some(*v),
                None => self.inner()@.live(*k, now) is None,
            },
            self.counted(r is Some),
    {
        let r = self.cache.cache_peek_at(k, now);
        if r.is_some() {
            self.hits.add_one();
        } else {
            self.misses.add_one();
        }
        r
    }

    /// The live value under `k`. Counts a hit or a miss; no entry leaves.
    pub fn cache_get_read(&self, k: &K) -> (r: Option<&V>)
        requires
            self.inner().wf(),
        ensures
            exists|now: Instant|
                self.inner()@.clock.shows(now) && match r {
                    Some(v) => #[trigger] self.inner()@.live(*k, now) == Some(*v),
                    None => self.inner()@.live(*k, now) is None,
                },
            self.counted(r is Some),
    {
        let now = self.cache.clock().now();
        let ghost live = self.inner()@.live(*k, now);
        self.cache_get_read_at(k, now)
    }

    /// Zeroes the counters, those of shared reads among them.
    pub fn cache_reset_metrics(&mut self)
        requires
            old(self).inner().wf(),
        ensures
            final(self).inner().wf(),
            final(self).uncounted(),
            final(self).inner()@ == (SortedView {
                hits: 0,
                misses: 0,
                evictions: 0,
                ..old(self).inner()@
            }),
    {
        self.cache.cache_reset_metrics();
        self.hits = SharedCount::new(0);
        self.misses = SharedCount::new(0);
    }
}

} // verus!
