//! One shard: a locked store and its counters.
use crate::stores::listener::OnEvict;
use crate::stores::sharded::lock;
use parking_lot::RwLock;
use std::sync::atomic::{AtomicU64, Ordering};
use vstd::prelude::*;

verus! {

/// What an operation adds to the counters of a shard.
#[derive(Clone, Copy, Debug, PartialEq, Eq, Structural)]
pub struct Tally {
    pub hits: u64,
    pub misses: u64,
    pub evictions: u64,
}

impl Tally {
    pub open spec fn hit() -> Tally {
        Tally { hits: 1, misses: 0, evictions: 0 }
    }

    pub open spec fn miss(evictions: u64) -> Tally {
        Tally { hits: 0, misses: 1, evictions }
    }
}

/// The counters of a cache, summed over its shards.
#[derive(Clone, Copy, Debug, PartialEq, Eq)]
pub struct CacheMetrics {
    pub hits: Option<u64>,
    pub misses: Option<u64>,
    pub evictions: Option<u64>,
    pub entry_count: Option<usize>,
    pub capacity: Option<usize>,
}

/// A locked store and its counters, which threads update without holding the lock.
#[verifier::reject_recursive_types(T)]
pub struct Shard<T> {
    lock: RwLock<T>,
    hits: AtomicU64,
    misses: AtomicU64,
    evictions: AtomicU64,
}

impl<T> Shard<T> {
    /// Whether this is a fresh lock around `store`, with fresh counters that stand at `tally`.
    pub closed spec fn made_of(self, store: T, tally: Tally) -> bool {
        &&& call_ensures(lock::new_lock, (store,), self.lock)
        &&& call_ensures(AtomicU64::new, (tally.hits,), self.hits)
        &&& call_ensures(AtomicU64::new, (tally.misses,), self.misses)
        &&& call_ensures(AtomicU64::new, (tally.evictions,), self.evictions)
    }

    /// Whether `r` is what calling `f` with the store and `a` gives, under the lock for reading.
    pub closed spec fn read_gives<A, R, F: FnOnce(&T, A) -> R>(self, a: A, f: F, r: R) -> bool {
        call_ensures(lock::with_read, (&self.lock, a, f), r)
    }

    /// Whether `r` is what calling `f` with the store and `a` gives, under the lock for writing.
    pub closed spec fn write_gives<A, R, F: FnOnce(&mut T, A) -> R>(
        self,
        a: A,
        f: F,
        r: R,
    ) -> bool {
        call_ensures(lock::with_write, (&self.lock, a, f), r)
    }

    /// Whether `tally` is a reading of the counters.
    pub closed spec fn counted(self, tally: Tally) -> bool {
        &&& call_ensures(AtomicU64::load, (&self.hits, Ordering::Relaxed), tally.hits)
        &&& call_ensures(AtomicU64::load, (&self.misses, Ordering::Relaxed), tally.misses)
        &&& call_ensures(AtomicU64::load, (&self.evictions, Ordering::Relaxed), tally.evictions)
    }

    /// Whether `n` was added to the evictions; nothing is added for none.
    pub closed spec fn adds_evictions(self, n: u64) -> bool {
        n > 0 ==> exists|former: u64| #[trigger]
            call_ensures(AtomicU64::fetch_add, (&self.evictions, n, Ordering::Relaxed), former)
    }

    /// Whether the hits and misses of `tally` were added to the counters; nothing is added for
    /// none.
    pub closed spec fn adds_reads(self, tally: Tally) -> bool {
        &&& tally.hits > 0 ==> exists|former: u64| #[trigger]
            call_ensures(
                AtomicU64::fetch_add,
                (&self.hits, tally.hits, Ordering::Relaxed),
                former,
            )
        &&& tally.misses > 0 ==> exists|former: u64| #[trigger]
            call_ensures(
                AtomicU64::fetch_add,
                (&self.misses, tally.misses, Ordering::Relaxed),
                former,
            )
    }

    /// Whether zero was stored in each counter.
    pub closed spec fn zeroed(self) -> bool {
        &&& call_ensures(AtomicU64::store, (&self.hits, 0u64, Ordering::Relaxed), ())
        &&& call_ensures(AtomicU64::store, (&self.misses, 0u64, Ordering::Relaxed), ())
        &&& call_ensures(AtomicU64::store, (&self.evictions, 0u64, Ordering::Relaxed), ())
    }

    /// The cells of the hits, the misses and the evictions.
    pub closed spec fn cells(self) -> (AtomicU64, AtomicU64, AtomicU64) {
        (self.hits, self.misses, self.evictions)
    }

    /// What is counted is added to the cell of its kind: no more and no less, and none is left out.
    /// What is read and zeroed are these cells.
    pub proof fn law_counts_are_the_cells(self, tally: Tally, n: u64)
        requires
            n > 0,
        ensures
            self.adds_evictions(n) ==> exists|former: u64| #[trigger]
                call_ensures(
                    AtomicU64::fetch_add,
                    (&self.cells().2, n, Ordering::Relaxed),
                    former,
                ),
            self.adds_reads(tally) && tally.hits > 0 ==> exists|former: u64| #[trigger]
                call_ensures(
                    AtomicU64::fetch_add,
                    (&self.cells().0, tally.hits, Ordering::Relaxed),
                    former,
                ),
            self.adds_reads(tally) && tally.misses > 0 ==> exists|former: u64| #[trigger]
                call_ensures(
                    AtomicU64::fetch_add,
                    (&self.cells().1, tally.misses, Ordering::Relaxed),
                    former,
                ),
            self.counted(tally) ==> {
                &&& call_ensures(AtomicU64::load, (&self.cells().0, Ordering::Relaxed), tally.hits)
                &&& call_ensures(
                    AtomicU64::load,
                    (&self.cells().1, Ordering::Relaxed),
                    tally.misses,
                )
                &&& call_ensures(
                    AtomicU64::load,
                    (&self.cells().2, Ordering::Relaxed),
                    tally.evictions,
                )
            },
            self.zeroed() ==> {
                &&& call_ensures(AtomicU64::store, (&self.cells().0, 0u64, Ordering::Relaxed), ())
                &&& call_ensures(AtomicU64::store, (&self.cells().1, 0u64, Ordering::Relaxed), ())
                &&& call_ensures(AtomicU64::store, (&self.cells().2, 0u64, Ordering::Relaxed), ())
            },
    {
    }

    /// A shard that is made of counts has fresh cells that stand at them.
    pub proof fn law_made_of_counts(self, store: T, tally: Tally)
        requires
            self.made_of(store, tally),
        ensures
            call_ensures(AtomicU64::new, (tally.hits,), self.cells().0),
            call_ensures(AtomicU64::new, (tally.misses,), self.cells().1),
            call_ensures(AtomicU64::new, (tally.evictions,), self.cells().2),
    {
    }

    /// A shard whose counters stand at `tally`.
    pub fn new(store: T, tally: Tally) -> (s: Shard<T>)
        ensures
            s.made_of(store, tally),
    {
        Shard {
            lock: lock::new_lock(store),
            hits: AtomicU64::new(tally.hits),
            misses: AtomicU64::new(tally.misses),
            evictions: AtomicU64::new(tally.evictions),
        }
    }

    /// Calls `f` with the store, while no thread can change it.
    pub fn read<A, R, F: FnOnce(&T, A) -> R>(&self, a: A, f: F) -> (r: R)
        requires
            forall|store: &T| f.requires((store, a)),
        ensures
            self.read_gives(a, f, r),
            exists|store: &T| f.ensures((store, a), r),
    {
        lock::with_read(&self.lock, a, f)
    }

    /// Calls `f` with access to the store, while no other thread has it.
    pub fn write<A, R, F: FnOnce(&mut T, A) -> R>(&self, a: A, f: F) -> (r: R)
        requires
            forall|store: &mut T| f.requires((store, a)),
        ensures
            self.write_gives(a, f, r),
            exists|store: &mut T| f.ensures((store, a), r),
    {
        lock::with_write(&self.lock, a, f)
    }

    /// Adds the evictions of `tally` to the counter.
    pub fn count_evictions(&self, tally: Tally)
        ensures
            self.adds_evictions(tally.evictions),
    {
        if tally.evictions > 0 {
            let _ = self.evictions.fetch_add(tally.evictions, Ordering::Relaxed);
        }
    }

    /// Adds the hits and misses of `tally` to the counters.
    pub fn count_reads(&self, tally: Tally)
        ensures
            self.adds_reads(tally),
    {
        if tally.hits > 0 {
            let _ = self.hits.fetch_add(tally.hits, Ordering::Relaxed);
        }
        if tally.misses > 0 {
            let _ = self.misses.fetch_add(tally.misses, Ordering::Relaxed);
        }
    }

    /// The counters as they stand.
    pub fn counts(&self) -> (tally: Tally)
        ensures
            self.counted(tally),
    {
        Tally {
            hits: self.hits.load(Ordering::Relaxed),
            misses: self.misses.load(Ordering::Relaxed),
            evictions: self.evictions.load(Ordering::Relaxed),
        }
    }

    /// Zeroes the counters.
    pub fn reset_counts(&self)
        ensures
            self.zeroed(),
    {
        self.hits.store(0, Ordering::Relaxed);
        self.misses.store(0, Ordering::Relaxed);
        self.evictions.store(0, Ordering::Relaxed);
    }
}

/// Whether the callback, if there is one, was called for the entry `(k, v)`.
pub open spec fn told<K, V>(on_evict: Option<OnEvict<K, V>>, k: K, v: V) -> bool {
    on_evict matches Some(f) ==> f.hears(k, v)
}

/// Calls the callback, if there is one, for the entry `(k, v)`.
pub fn tell<K, V>(on_evict: &Option<OnEvict<K, V>>, k: &K, v: &V)
    requires
        on_evict matches Some(f) ==> f.attentive(),
    ensures
        told(*on_evict, *k, *v),
{
    if let Some(f) = on_evict {
        f.evicted(k, v);
    }
}

/// The sum of counters.
pub open spec fn total(counts: Seq<u64>) -> nat
    decreases counts.len(),
{
    if counts.len() == 0 {
        0
    } else {
        total(counts.drop_last()) + counts.last() as nat
    }
}

/// The sum of sizes.
pub open spec fn total_size(sizes: Seq<usize>) -> nat
    decreases sizes.len(),
{
    if sizes.len() == 0 {
        0
    } else {
        total_size(sizes.drop_last()) + sizes.last() as nat
    }
}

/// The sum of sizes, or the greatest number where it is beyond that.
pub open spec fn capped_size(sizes: Seq<usize>) -> nat {
    if total_size(sizes) <= usize::MAX {
        total_size(sizes)
    } else {
        usize::MAX as nat
    }
}

/// The hits in `tallies`.
pub open spec fn hits_of(tallies: Seq<Tally>) -> Seq<u64> {
    tallies.map_values(|t: Tally| t.hits)
}

/// The misses in `tallies`.
pub open spec fn misses_of(tallies: Seq<Tally>) -> Seq<u64> {
    tallies.map_values(|t: Tally| t.misses)
}

/// The evictions in `tallies`.
pub open spec fn evictions_of(tallies: Seq<Tally>) -> Seq<u64> {
    tallies.map_values(|t: Tally| t.evictions)
}

/// The sum of counters, which wraps as they do.
pub open spec fn wrapped(counts: Seq<u64>) -> u64 {
    (total(counts) % 0x1_0000_0000_0000_0000) as u64
}

/// The sum of counters, wrapped.
pub fn sum_counts(counts: &Vec<u64>) -> (sum: u64)
    ensures
        sum == wrapped(counts@),
{
    let mut sum: u64 = 0;
    let mut i: usize = 0;
    while i < counts.len()
        invariant
            i <= counts.len(),
            sum == wrapped(counts@.take(i as int)),
        decreases counts.len() - i,
    {
        proof {
            assert(counts@.take(i + 1).drop_last() =~= counts@.take(i as int));
            let before = total(counts@.take(i as int)) as int;
            vstd::arithmetic::div_mod::lemma_add_mod_noop(
                before,
                counts[i as int] as int,
                0x1_0000_0000_0000_0000,
            );
            vstd::arithmetic::div_mod::lemma_small_mod(
                counts[i as int] as nat,
                0x1_0000_0000_0000_0000,
            );
        }
        sum = sum.wrapping_add(counts[i]);
        i += 1;
    }
    assert(counts@.take(i as int) =~= counts@);
    sum
}

/// The sum of sizes, capped.
pub fn sum_sizes(sizes: &Vec<usize>) -> (sum: usize)
    ensures
        sum == capped_size(sizes@),
{
    let mut sum: usize = 0;
    let mut i: usize = 0;
    while i < sizes.len()
        invariant
            i <= sizes.len(),
            sum == capped_size(sizes@.take(i as int)),
        decreases sizes.len() - i,
    {
        proof {
            assert(sizes@.take(i + 1).drop_last() =~= sizes@.take(i as int));
        }
        sum = sum.saturating_add(sizes[i]);
        i += 1;
    }
    assert(sizes@.take(i as int) =~= sizes@);
    sum
}

} // verus!
