//! A cache for many threads without expiry.
use crate::stores::error::{self, BuildError};
use crate::stores::listener::{self, share, share_on_evict, OnEvict};
use crate::stores::sharded::hasher::{self, DefaultShardHasher, ShardHasher};
use crate::stores::sharded::shard::{self, CacheMetrics, Shard, Tally};
use crate::stores::sharded::unbound_store::{self, UnboundStore};
use crate::stores::table::{self, DefaultHashBuilder};
use std::convert::Infallible;
use std::hash::Hash;
use std::sync::Arc;
use vstd::prelude::*;

verus! {

/// What threads share of a [`ShardedUnboundCache`].
#[verifier::reject_recursive_types(K)]
#[verifier::reject_recursive_types(V)]
struct UnboundInner<K, V, H> {
    shards: Vec<Shard<UnboundStore<K, V>>>,
    shard_mask: usize,
    hasher: H,
    on_evict: Option<OnEvict<K, V>>,
}

impl<K, V, H> UnboundInner<K, V, H> {
    spec fn wf(&self) -> bool {
        &&& self.shards.len() == self.shard_mask + 1
        &&& vstd::arithmetic::power2::is_pow2(self.shards.len() as int)
        &&& self.on_evict matches Some(f) ==> f.attentive()
        &&& table::keyed::<K, DefaultHashBuilder>()
    }
}

/// A cache for many threads whose entries stay until they are removed. Each shard has a lock of its
/// own, and a clone of the cache shares its shards.
#[verifier::reject_recursive_types(K)]
#[verifier::reject_recursive_types(V)]
pub struct ShardedUnboundCache<K, V, H = DefaultShardHasher> {
    inner: Arc<UnboundInner<K, V, H>>,
}

impl<K, V, H> Clone for ShardedUnboundCache<K, V, H> {
    /// A second handle on the same cache.
    fn clone(&self) -> (c: Self)
        ensures
            c == *self,
    {
        ShardedUnboundCache { inner: share(&self.inner) }
    }
}

impl<K, V, H> ShardedUnboundCache<K, V, H> {
    /// Whether the cache is in order: keys behave as keys, the callback takes any entry, and the
    /// shards are as many as a power of two.
    pub closed spec fn wf(&self) -> bool {
        self.inner.wf()
    }

    /// The number of shards.
    pub closed spec fn shard_count(&self) -> nat {
        self.inner.shards.len() as nat
    }

    /// The shard with the number `i`.
    pub closed spec fn shard(&self, i: int) -> Shard<UnboundStore<K, V>> {
        self.inner.shards[i]
    }

    /// The callback for entries that are removed.
    pub closed spec fn callback(&self) -> Option<OnEvict<K, V>> {
        self.inner.on_evict
    }

    /// What chooses the shards of keys.
    pub closed spec fn shard_hasher(&self) -> H {
        self.inner.hasher
    }

    /// The number of shards.
    #[must_use]
    pub fn shards(&self) -> (n: usize)
        ensures
            n == self.shard_count(),
            self.wf() ==> vstd::arithmetic::power2::is_pow2(n as int),
    {
        self.inner.shards.len()
    }
}

/// Whether `copy` was made of copies of the entries and a reading of the hits and misses of
/// `shard`, under its lock.
pub open spec fn copied_shard<K: Hash + Eq + Clone, V: Clone>(
    shard: Shard<UnboundStore<K, V>>,
    copy: Shard<UnboundStore<K, V>>,
) -> bool {
    exists|r: (UnboundStore<K, V>, Tally), held: Map<K, V>, tally: Tally|
        {
            &&& call_ensures(
                Shard::read,
                (&shard, &shard, UnboundStore::<K, V>::copy_with_counts),
                r,
            )
            &&& #[trigger] unbound_store::copies(held, r.0@)
            &&& #[trigger] shard.counted(tally)
            &&& r.1 == (Tally { evictions: 0, ..tally })
            &&& copy.made_of(r.0, r.1)
        }
}

/// Whether `shard` was made without entries, with counters at zero, and with room for `capacity`
/// entries where there is memory for it.
pub open spec fn made_empty<K: Hash + Eq, V>(
    shard: Shard<UnboundStore<K, V>>,
    capacity: usize,
) -> bool {
    exists|store: UnboundStore<K, V>|
        {
            &&& #[trigger] shard.made_of(store, Tally { hits: 0, misses: 0, evictions: 0 })
            &&& call_ensures(UnboundStore::<K, V>::new, (capacity,), store)
            &&& store@ == Map::<K, V>::empty()
        }
}

/// What calls make of a cache: which shard is locked, what is done with it, and what is counted
/// and told when it is not locked any more.
impl<K: Hash + Eq, V, H: ShardHasher<K>> ShardedUnboundCache<K, V, H> {
    /// Whether the shard of `k` is the one with the number `i`: its hash says so.
    pub closed spec fn places(&self, k: K, i: int) -> bool {
        exists|h: u64| #[trigger]
            hasher::hashes(self.inner.hasher, k, h) && i == hasher::index_of(
                h,
                self.inner.shard_mask,
            )
    }

    /// Whether the callback was called for each of the entries `removed`.
    pub open spec fn told_all(&self, removed: Seq<(K, V)>) -> bool {
        forall|j: int|
            0 <= j < removed.len() ==> shard::told(
                self.callback(),
                (#[trigger] removed[j]).0,
                removed[j].1,
            )
    }

    /// Whether `taken` is what taking the entry of `k` out of its shard, under its lock, gives; the
    /// callback was called for an entry.
    pub open spec fn takes_out(&self, k: K, taken: Option<(K, V)>) -> bool {
        exists|i: int, held: Map<K, V>|
            {
                &&& #[trigger] self.places(k, i)
                &&& call_ensures(
                    Shard::write,
                    (&self.shard(i), &k, UnboundStore::<K, V>::take),
                    taken,
                )
                &&& #[trigger] unbound_store::takes_one(held, held.remove(k), k, taken)
                &&& taken matches Some(e) ==> shard::told(self.callback(), e.0, e.1)
            }
    }

    /// Whether `former` is what writing `v` under `k` in its shard, under its lock, gives.
    pub open spec fn writes(&self, k: K, v: V, former: Option<V>) -> bool {
        exists|i: int, held: Map<K, V>|
            {
                &&& #[trigger] self.places(k, i)
                &&& call_ensures(
                    Shard::write,
                    (&self.shard(i), (k, v), UnboundStore::<K, V>::put_all),
                    former,
                )
                &&& #[trigger] unbound_store::displaces(held, k, former)
            }
    }

    /// Whether `b` is what looking for an entry of `k` in its shard, under its lock, gives.
    pub open spec fn looks_for(&self, k: K, b: bool) -> bool {
        exists|i: int, held: Map<K, V>|
            {
                &&& #[trigger] self.places(k, i)
                &&& call_ensures(
                    Shard::read,
                    (&self.shard(i), &k, UnboundStore::<K, V>::contains),
                    b,
                )
                &&& b == #[trigger] held.contains_key(k)
            }
    }

    /// Whether `sizes` is what counting the entries of each shard, under its lock, gives.
    pub open spec fn measures(&self, sizes: Seq<usize>) -> bool {
        &&& sizes.len() == self.shard_count()
        &&& forall|i: int|
            0 <= i < sizes.len() ==> call_ensures(
                Shard::read,
                (&self.shard(i), (), UnboundStore::<K, V>::measure),
                #[trigger] sizes[i],
            )
    }

    /// Whether `tallies` are readings of the counters of each shard.
    pub open spec fn tallied(&self, tallies: Seq<Tally>) -> bool {
        &&& tallies.len() == self.shard_count()
        &&& forall|i: int| 0 <= i < tallies.len() ==> self.shard(i).counted(#[trigger] tallies[i])
    }

    /// Whether all entries of each shard were removed, under its lock.
    pub open spec fn wiped(&self) -> bool {
        forall|i: int| 0 <= i < self.shard_count() ==> #[trigger] self.wiped_shard(i)
    }

    /// Whether all entries of the shard `i` were removed; see [`wiped`](Self::wiped).
    pub open spec fn wiped_shard(&self, i: int) -> bool {
        exists|n: usize| #[trigger]
            call_ensures(Shard::write, (&self.shard(i), (), UnboundStore::<K, V>::wipe), n)
    }

    /// Whether the counters of each shard were set to zero.
    pub open spec fn zeroed(&self) -> bool {
        forall|i: int| 0 <= i < self.shard_count() ==> (#[trigger] self.shard(i)).zeroed()
    }

    /// Whether all entries of each shard were taken out, under its lock, and the callback was
    /// called for each.
    pub open spec fn drained(&self) -> bool {
        forall|i: int| 0 <= i < self.shard_count() ==> #[trigger] self.drained_shard(i)
    }

    /// Whether all entries of the shard `i` were taken out; see [`drained`](Self::drained).
    pub open spec fn drained_shard(&self, i: int) -> bool {
        exists|removed: Vec<(K, V)>, held: Map<K, V>|
            {
                &&& call_ensures(
                    Shard::write,
                    (&self.shard(i), (), UnboundStore::<K, V>::take_all),
                    removed,
                )
                &&& #[trigger] table::enumerates(removed@, held)
                &&& self.told_all(removed@)
            }
    }

    /// Whether from each shard, under its lock, the entries were taken that `keep` rejects,
    /// `counts` of them, and the callback was called for each.
    pub open spec fn sifts<F: FnMut(&K, &V) -> bool>(&self, keep: F, counts: Seq<usize>) -> bool {
        &&& counts.len() == self.shard_count()
        &&& forall|i: int|
            0 <= i < counts.len() ==> self.sifts_shard(i, keep, #[trigger] counts[i])
    }

    /// Whether `n` entries of the shard `i` were taken out; see [`sifts`](Self::sifts).
    pub open spec fn sifts_shard<F: FnMut(&K, &V) -> bool>(
        &self,
        i: int,
        keep: F,
        n: usize,
    ) -> bool {
        exists|removed: Vec<(K, V)>, pre: Map<K, V>, post: Map<K, V>|
            {
                &&& call_ensures(
                    Shard::write,
                    (&self.shard(i), keep, UnboundStore::<K, V>::take_rejected::<F>),
                    (removed, keep),
                )
                &&& #[trigger] unbound_store::takes_rejected(pre, post, keep, removed@)
                &&& n == removed.len()
                &&& self.told_all(removed@)
            }
    }

    /// Whether the cache was made without entries, with counters at zero, and with these settings.
    pub open spec fn made_with(
        &self,
        hasher: H,
        on_evict: Option<OnEvict<K, V>>,
        capacity: usize,
    ) -> bool {
        &&& forall|i: int|
            0 <= i < self.shard_count() ==> made_empty(
                #[trigger] self.shard(i),
                capacity,
            )
        &&& self.shard_hasher() == hasher
        &&& self.callback() == on_evict
    }
}

impl<K: Hash + Eq, V: Clone, H: ShardHasher<K>> ShardedUnboundCache<K, V, H> {
    /// Whether `value` is the value of `k` that a look at the shard `i`, under its lock, shows.
    pub open spec fn peeks_in(&self, i: int, k: K, value: Option<V>) -> bool {
        exists|held: Map<K, V>|
            {
                &&& call_ensures(
                    Shard::read,
                    (&self.shard(i), &k, UnboundStore::<K, V>::get),
                    value,
                )
                &&& #[trigger] unbound_store::answers(held, k, value)
            }
    }

    /// Whether `value` is the value of `k` that a look at its shard, under its lock, shows.
    pub open spec fn peeks(&self, k: K, value: Option<V>) -> bool {
        exists|i: int| #[trigger] self.places(k, i) && self.peeks_in(i, k, value)
    }

    /// Whether `value` is the value of `k` that a look at its shard, under its lock, shows; then a
    /// hit or a miss was counted.
    pub open spec fn looks_up(&self, k: K, value: Option<V>) -> bool {
        exists|i: int|
            {
                &&& #[trigger] self.places(k, i)
                &&& self.peeks_in(i, k, value)
                &&& self.shard(i).adds_reads(unbound_store::look_up_tally(value))
            }
    }
}

impl<K: Hash + Eq + Clone, V: Clone, H: ShardHasher<K>> ShardedUnboundCache<K, V, H> {
    /// Whether each shard was made of a copy of the entries and a reading of the counters of the
    /// shard of `source` with its number, under its lock, with the same callback.
    pub open spec fn duplicates(&self, source: Self) -> bool {
        &&& self.shard_count() == source.shard_count()
        &&& forall|i: int|
            0 <= i < self.shard_count() ==> copied_shard(
                source.shard(i),
                #[trigger] self.shard(i),
            )
        &&& cloned(source.shard_hasher(), self.shard_hasher())
        &&& self.callback() == source.callback()
    }

    /// Whether the entries of each shard of `source`, as its lock showed them, were written to this
    /// cache.
    pub open spec fn takes_over<H2: ShardHasher<K>>(
        &self,
        source: ShardedUnboundCache<K, V, H2>,
    ) -> bool {
        forall|j: int|
            0 <= j < source.shard_count() ==> self.takes_over_shard(#[trigger] source.shard(j))
    }

    /// Whether the entries of `shard` were stored; see [`takes_over`](Self::takes_over).
    pub open spec fn takes_over_shard(&self, shard: Shard<UnboundStore<K, V>>) -> bool {
        exists|list: Vec<(K, V)>, held: Map<K, V>|
            {
                &&& call_ensures(
                    Shard::read,
                    (&shard, (), UnboundStore::<K, V>::entries),
                    list,
                )
                &&& #[trigger] unbound_store::copies_all(held, list@)
                &&& forall|n: int|
                    0 <= n < list.len() ==> self.takes_in((#[trigger] list[n]).0, list[n].1)
            }
    }

    /// Whether `v` was written under `k`.
    pub open spec fn takes_in(&self, k: K, v: V) -> bool {
        exists|former: Option<V>| #[trigger] self.writes(k, v, former)
    }
}

impl<K: Hash + Eq, V, H: ShardHasher<K>> ShardedUnboundCache<K, V, H> {
    /// Whether `shard` is the one with the number `i`.
    spec fn is_shard(&self, shard: Shard<UnboundStore<K, V>>, i: int) -> bool {
        0 <= i < self.shard_count() && shard == self.shard(i)
    }

    /// The shard of `k`.
    fn shard_of(&self, k: &K) -> (s: &Shard<UnboundStore<K, V>>)
        requires
            self.wf(),
        ensures
            exists|i: int| #[trigger] self.places(*k, i) && self.is_shard(*s, i),
    {
        let h: u64 = self.inner.hasher.shard_hash(k);
        assert(hasher::hashes(self.inner.hasher, *k, h));
        let i: usize = hasher::shard_index(h, self.inner.shard_mask);
        assert(self.places(*k, i as int));
        assert(self.is_shard(self.inner.shards[i as int], i as int));
        &self.inner.shards[i]
    }

    /// The counters of each shard.
    fn all_counts(&self) -> (r: (Vec<u64>, Vec<u64>))
        ensures
            r.0.len() == self.shard_count(),
            r.1.len() == self.shard_count(),
            exists|tallies: Seq<Tally>|
                {
                    &&& #[trigger] self.tallied(tallies)
                    &&& r.0@ == shard::hits_of(tallies)
                    &&& r.1@ == shard::misses_of(tallies)
                },
    {
        let mut hits: Vec<u64> = Vec::new();
        let mut misses: Vec<u64> = Vec::new();
        let mut i: usize = 0;
        let ghost mut tallies: Seq<Tally> = Seq::empty();
        while i < self.inner.shards.len()
            invariant
                i <= self.inner.shards.len(),
                tallies.len() == i,
                forall|j: int|
                    0 <= j < i ==> self.inner.shards[j].counted(#[trigger] tallies[j]),
                hits@ == shard::hits_of(tallies),
                misses@ == shard::misses_of(tallies),
            decreases self.inner.shards.len() - i,
        {
            let counts = self.inner.shards[i].counts();
            hits.push(counts.hits);
            misses.push(counts.misses);
            proof {
                tallies = tallies.push(counts);
            }
            i += 1;
        }
        assert(self.tallied(tallies));
        (hits, misses)
    }

    /// The number of entries in each shard.
    #[must_use]
    pub fn shard_sizes(&self) -> (sizes: Vec<usize>)
        ensures
            sizes.len() == self.shard_count(),
            self.measures(sizes@),
    {
        let mut sizes: Vec<usize> = Vec::new();
        let mut i: usize = 0;
        while i < self.inner.shards.len()
            invariant
                i <= self.inner.shards.len(),
                sizes.len() == i,
                forall|j: int|
                    0 <= j < i ==> call_ensures(
                        Shard::read,
                        (&self.inner.shards[j], (), UnboundStore::<K, V>::measure),
                        #[trigger] sizes[j],
                    ),
            decreases self.inner.shards.len() - i,
        {
            sizes.push(self.inner.shards[i].read((), UnboundStore::measure));
            i += 1;
        }
        sizes
    }

    /// The number of entries. Other threads may change it meanwhile.
    #[must_use]
    pub fn len(&self) -> (n: usize)
        ensures
            exists|sizes: Seq<usize>| #[trigger]
                self.measures(sizes) && n == shard::capped_size(sizes),
    {
        shard::sum_sizes(&self.shard_sizes())
    }

    /// Whether no shard has an entry. Other threads may change it meanwhile.
    #[must_use]
    pub fn is_empty(&self) -> (b: bool)
        ensures
            exists|sizes: Seq<usize>| #[trigger]
                self.measures(sizes) && b == (forall|i: int|
                    0 <= i < sizes.len() ==> #[trigger] sizes[i] == 0),
    {
        let sizes = self.shard_sizes();
        let mut i: usize = 0;
        while i < sizes.len()
            invariant
                i <= sizes.len(),
                self.measures(sizes@),
                forall|j: int| 0 <= j < i ==> #[trigger] sizes@[j] == 0,
            decreases sizes.len() - i,
        {
            if sizes[i] > 0 {
                return false;
            }
            i += 1;
        }
        true
    }

    /// The counters, summed over the shards, which other threads may change meanwhile. Evictions
    /// are not counted.
    #[must_use]
    pub fn metrics(&self) -> (m: CacheMetrics)
        ensures
            exists|tallies: Seq<Tally>, sizes: Seq<usize>|
                {
                    &&& #[trigger] self.tallied(tallies)
                    &&& #[trigger] self.measures(sizes)
                    &&& m == (CacheMetrics {
                        hits: Some(shard::wrapped(shard::hits_of(tallies))),
                        misses: Some(shard::wrapped(shard::misses_of(tallies))),
                        evictions: None,
                        entry_count: Some(shard::capped_size(sizes) as usize),
                        capacity: None,
                    })
                },
    {
        let (hits, misses) = self.all_counts();
        CacheMetrics {
            hits: Some(shard::sum_counts(&hits)),
            misses: Some(shard::sum_counts(&misses)),
            evictions: None,
            entry_count: Some(self.len()),
            capacity: None,
        }
    }

    pub fn cache_size(&self) -> (r: Result<Option<usize>, Infallible>)
        ensures
            r matches Ok(Some(n)) && exists|sizes: Seq<usize>| #[trigger]
                self.measures(sizes) && n == shard::capped_size(sizes),
    {
        Ok(Some(self.len()))
    }

    pub fn cache_hits(&self) -> (r: Option<u64>)
        ensures
            exists|tallies: Seq<Tally>| #[trigger]
                self.tallied(tallies) && r == Some(shard::wrapped(shard::hits_of(tallies))),
    {
        Some(shard::sum_counts(&self.all_counts().0))
    }

    pub fn cache_misses(&self) -> (r: Option<u64>)
        ensures
            exists|tallies: Seq<Tally>| #[trigger]
                self.tallied(tallies) && r == Some(shard::wrapped(shard::misses_of(tallies))),
    {
        Some(shard::sum_counts(&self.all_counts().1))
    }

    /// Removes all entries, shard by shard. The callback is not called.
    pub fn clear(&self)
        ensures
            self.wiped(),
    {
        let mut i: usize = 0;
        while i < self.inner.shards.len()
            invariant
                i <= self.inner.shards.len(),
                forall|j: int| 0 <= j < i ==> #[trigger] self.wiped_shard(j),
            decreases self.inner.shards.len() - i,
        {
            let _ = self.inner.shards[i].write((), UnboundStore::wipe);
            assert(self.wiped_shard(i as int));
            i += 1;
        }
    }

    /// [`clear`](Self::clear), as a result.
    pub fn cache_clear(&self) -> (r: Result<(), Infallible>)
        ensures
            r is Ok,
            self.wiped(),
    {
        self.clear();
        Ok(())
    }

    /// Zeroes the counters.
    pub fn cache_reset_metrics(&self) -> (r: Result<(), Infallible>)
        ensures
            r is Ok,
            self.zeroed(),
    {
        let mut i: usize = 0;
        while i < self.inner.shards.len()
            invariant
                i <= self.inner.shards.len(),
                forall|j: int| 0 <= j < i ==> (#[trigger] self.inner.shards[j]).zeroed(),
            decreases self.inner.shards.len() - i,
        {
            self.inner.shards[i].reset_counts();
            i += 1;
        }
        Ok(())
    }

    /// Removes all entries and zeroes the counters. The callback is not called.
    pub fn cache_reset(&self) -> (r: Result<(), Infallible>)
        ensures
            r is Ok,
            self.wiped(),
            self.zeroed(),
    {
        self.clear();
        self.cache_reset_metrics()
    }

    /// Removes all entries and zeroes the counters. The callback is not called.
    pub fn reset(&self)
        ensures
            self.wiped(),
            self.zeroed(),
    {
        let _ = self.cache_reset();
    }

    /// Calls the callback for the entries `removed`.
    fn tell_all(&self, removed: &Vec<(K, V)>)
        requires
            self.wf(),
        ensures
            self.told_all(removed@),
    {
        let mut i: usize = 0;
        while i < removed.len()
            invariant
                self.wf(),
                i <= removed.len(),
                forall|j: int|
                    0 <= j < i ==> shard::told(
                        self.inner.on_evict,
                        (#[trigger] removed[j]).0,
                        removed[j].1,
                    ),
            decreases removed.len() - i,
        {
            shard::tell(&self.inner.on_evict, &removed[i].0, &removed[i].1);
            i += 1;
        }
    }

    /// Removes all entries of the shard `i`, and calls the callback for each.
    fn drain_shard(&self, i: usize)
        requires
            self.wf(),
            i < self.shard_count(),
        ensures
            self.drained_shard(i as int),
    {
        let shard = &self.inner.shards[i];
        let removed = shard.write((), UnboundStore::take_all);
        proof {
            let held = choose|store: &mut UnboundStore<K, V>| call_ensures(
                UnboundStore::<K, V>::take_all,
                (store, ()),
                removed,
            );
            assert(table::enumerates(removed@, (*held)@));
        }
        self.tell_all(&removed);
        assert(*shard == self.shard(i as int));
    }

    /// Removes the entries of the shard `i` that `keep` rejects, calls the callback for each, and
    /// returns their number, with `keep`.
    fn sift_shard<F: FnMut(&K, &V) -> bool>(&self, i: usize, keep: F) -> (r: (usize, F))
        requires
            self.wf(),
            i < self.shard_count(),
            forall|k: &K, v: &V| keep.requires((k, v)),
        ensures
            r.1 == keep,
            self.sifts_shard(i as int, keep, r.0),
    {
        let shard = &self.inner.shards[i];
        let ghost asker = keep;
        let (removed, asked) = shard.write(keep, UnboundStore::take_rejected);
        proof {
            let store = choose|store: &mut UnboundStore<K, V>| call_ensures(
                UnboundStore::<K, V>::take_rejected::<F>,
                (store, asker),
                (removed, asked),
            );
            assert(unbound_store::takes_rejected((*store)@, (*final(store))@, asker, removed@));
        }
        self.tell_all(&removed);
        assert(*shard == self.shard(i as int));
        (removed.len(), asked)
    }

    /// Removes all entries, shard by shard, and calls the callback, if there is one, for each.
    pub fn cache_clear_with_on_evict(&self)
        requires
            self.wf(),
        ensures
            if self.callback() is Some {
                self.drained()
            } else {
                self.wiped()
            },
    {
        if self.inner.on_evict.is_none() {
            self.clear();
            return;
        }
        let mut i: usize = 0;
        while i < self.inner.shards.len()
            invariant
                self.wf(),
                i <= self.inner.shards.len(),
                forall|j: int| 0 <= j < i ==> #[trigger] self.drained_shard(j),
            decreases self.inner.shards.len() - i,
        {
            self.drain_shard(i);
            i += 1;
        }
    }

    /// Removes the entries that `keep` rejects, shard by shard, calls the callback for each when no
    /// shard is locked, and returns their number. In each shard, `keep` is asked before the first
    /// entry leaves.
    pub fn retain<F: FnMut(&K, &V) -> bool>(&self, keep: F) -> (n: usize)
        requires
            self.wf(),
            forall|k: &K, v: &V| keep.requires((k, v)),
        ensures
            exists|counts: Seq<usize>|
                {
                    &&& #[trigger] self.sifts(keep, counts)
                    &&& n == shard::capped_size(counts)
                },
    {
        let mut keep = keep;
        let ghost keep0 = keep;
        let mut removed_sizes: Vec<usize> = Vec::new();
        let mut i: usize = 0;
        while i < self.inner.shards.len()
            invariant
                self.wf(),
                i <= self.inner.shards.len(),
                keep == keep0,
                forall|k: &K, v: &V| keep0.requires((k, v)),
                removed_sizes.len() == i,
                forall|j: int|
                    0 <= j < i ==> self.sifts_shard(j, keep0, #[trigger] removed_sizes[j]),
            decreases self.inner.shards.len() - i,
        {
            let (removed, asked) = self.sift_shard(i, keep);
            keep = asked;
            removed_sizes.push(removed);
            i += 1;
        }
        assert(self.sifts(keep0, removed_sizes@));
        shard::sum_sizes(&removed_sizes)
    }

    /// Takes the entry of `k` out, and calls the callback.
    fn remove_key(&self, k: &K) -> (taken: Option<(K, V)>)
        requires
            self.wf(),
        ensures
            self.takes_out(*k, taken),
    {
        let shard = self.shard_of(k);
        let ghost i = choose|i: int| #[trigger] self.places(*k, i) && self.is_shard(*shard, i);
        let taken = shard.write(k, UnboundStore::take);
        let ghost store = choose|store: &mut UnboundStore<K, V>| call_ensures(
            UnboundStore::<K, V>::take,
            (store, k),
            taken,
        );
        let ghost held = (*store)@;
        if let Some((stored, v)) = &taken {
            shard::tell(&self.inner.on_evict, stored, v);
        }
        assert(self.places(*k, i));
        assert(unbound_store::takes_one(held, held.remove(*k), *k, taken));
        taken
    }
}

impl<K: Hash + Eq, V: Clone, H: ShardHasher<K>> ShardedUnboundCache<K, V, H> {
    /// A clone of the value under `k` in `shard`.
    fn peek_in(&self, shard: &Shard<UnboundStore<K, V>>, k: &K) -> (value: Option<V>)
        requires
            self.wf(),
        ensures
            forall|i: int| #[trigger] self.is_shard(*shard, i) ==> self.peeks_in(i, *k, value),
    {
        let value = shard.read(k, UnboundStore::get);
        proof {
            let held = choose|store: &UnboundStore<K, V>| call_ensures(
                UnboundStore::<K, V>::get,
                (store, k),
                value,
            );
            assert(unbound_store::answers(held@, *k, value));
        }
        value
    }

    /// A clone of the value under `k`. Counts a hit or a miss.
    pub fn cache_get(&self, k: &K) -> (r: Result<Option<V>, Infallible>)
        requires
            self.wf(),
        ensures
            r matches Ok(value) && self.looks_up(*k, value),
    {
        let shard = self.shard_of(k);
        let value = self.peek_in(shard, k);
        shard.count_reads(unbound_store::tally_look_up(&value));
        assert(self.looks_up(*k, value));
        Ok(value)
    }

    /// Writes `v` under `k`, and returns the value that it displaces. A stored key stays.
    pub fn cache_set(&self, k: K, v: V) -> (r: Result<Option<V>, Infallible>)
        requires
            self.wf(),
        ensures
            r matches Ok(value) && self.writes(k, v, value),
    {
        let shard = self.shard_of(&k);
        let ghost i = choose|i: int| #[trigger] self.places(k, i) && self.is_shard(*shard, i);
        let ghost a = (k, v);
        let value = shard.write((k, v), UnboundStore::put_all);
        proof {
            let held = choose|store: &mut UnboundStore<K, V>| call_ensures(
                UnboundStore::<K, V>::put_all,
                (store, a),
                value,
            );
            assert(unbound_store::displaces((*held)@, a.0, value));
            assert(self.places(a.0, i));
            assert(self.writes(a.0, a.1, value));
        }
        Ok(value)
    }

    /// Removes the entry of `k`, calls the callback, and returns its value.
    pub fn cache_remove(&self, k: &K) -> (r: Result<Option<V>, Infallible>)
        requires
            self.wf(),
        ensures
            r matches Ok(value) && exists|taken: Option<(K, V)>| #[trigger]
                self.takes_out(*k, taken) && value == unbound_store::value_of(taken),
    {
        match self.remove_key(k) {
            Some((_, v)) => Ok(Some(v)),
            None => Ok(None),
        }
    }

    /// Removes the entry of `k`, calls the callback, and returns it.
    pub fn cache_remove_entry(&self, k: &K) -> (r: Result<Option<(K, V)>, Infallible>)
        requires
            self.wf(),
        ensures
            r matches Ok(removed) && self.takes_out(*k, removed),
    {
        Ok(self.remove_key(k))
    }

    /// Removes the entry of `k`, calls the callback, and tells whether there was one.
    pub fn cache_delete(&self, k: &K) -> (r: Result<bool, Infallible>)
        requires
            self.wf(),
        ensures
            r matches Ok(b) && exists|taken: Option<(K, V)>| #[trigger]
                self.takes_out(*k, taken) && b == (taken is Some),
    {
        Ok(self.remove_key(k).is_some())
    }

    /// Whether `v` is the value that a look-up of `k` found, or, where it found none, a value that
    /// `f` made, of which a clone was written.
    pub open spec fn gets_or_sets<F: FnOnce() -> V>(&self, k: K, f: F, v: V) -> bool {
        ||| self.looks_up(k, Some(v))
        ||| self.looks_up(k, None) && f.ensures((), v) && self.writes_copy(k, v)
    }

    /// Whether a clone of `v` was written under `k`.
    pub open spec fn writes_copy(&self, k: K, v: V) -> bool {
        exists|copy: V, former: Option<V>|
            cloned(v, copy) && #[trigger] self.writes(k, copy, former)
    }

    /// A clone of the value under `k`. Where there is none, `f` makes one, which is written.
    pub fn cache_get_or_set_with<F: FnOnce() -> V>(&self, k: K, f: F) -> (r: Result<V, Infallible>)
        requires
            self.wf(),
            f.requires(()),
        ensures
            r matches Ok(v) && self.gets_or_sets(k, f, v),
    {
        if let Ok(Some(v)) = self.cache_get(&k) {
            return Ok(v);
        }
        let v = f();
        let copy = v.clone();
        let ghost key = k;
        let _ = self.cache_set(k, copy);
        assert(self.writes_copy(key, v));
        Ok(v)
    }

    /// Whether there is a value under `k`. Nothing is counted.
    pub fn cache_contains(&self, k: &K) -> (r: Result<bool, Infallible>)
        requires
            self.wf(),
        ensures
            r matches Ok(b) && self.looks_for(*k, b),
    {
        let shard = self.shard_of(k);
        let b: bool = shard.read(k, UnboundStore::contains);
        proof {
            let held = choose|store: &UnboundStore<K, V>| call_ensures(
                UnboundStore::<K, V>::contains,
                (store, k),
                b,
            );
            assert(b == held@.contains_key(*k));
        }
        Ok(b)
    }

    /// A clone of the value under `k`. Nothing is counted.
    #[must_use]
    pub fn peek(&self, k: &K) -> (value: Option<V>)
        requires
            self.wf(),
        ensures
            self.peeks(*k, value),
    {
        self.peek_in(self.shard_of(k), k)
    }

    /// [`peek`](Self::peek), as a result.
    pub fn cache_peek(&self, k: &K) -> (r: Result<Option<V>, Infallible>)
        requires
            self.wf(),
        ensures
            r matches Ok(value) && self.peeks(*k, value),
    {
        Ok(self.peek(k))
    }

    /// A clone of the value under `k`; see [`cache_get`](Self::cache_get).
    #[must_use]
    pub fn get(&self, k: &K) -> (value: Option<V>)
        requires
            self.wf(),
        ensures
            self.looks_up(*k, value),
    {
        self.cache_get(k).unwrap()
    }

    /// Writes `v` under `k`; see [`cache_set`](Self::cache_set).
    pub fn set(&self, k: K, v: V) -> (value: Option<V>)
        requires
            self.wf(),
        ensures
            self.writes(k, v, value),
    {
        self.cache_set(k, v).unwrap()
    }

    /// A clone of the value under `k`, or one that `f` makes; see
    /// [`cache_get_or_set_with`](Self::cache_get_or_set_with).
    pub fn get_or_set_with<F: FnOnce() -> V>(&self, k: K, f: F) -> (v: V)
        requires
            self.wf(),
            f.requires(()),
        ensures
            self.gets_or_sets(k, f, v),
    {
        self.cache_get_or_set_with(k, f).unwrap()
    }

    /// Removes the entry of `k`; see [`cache_remove`](Self::cache_remove).
    pub fn remove(&self, k: &K) -> (value: Option<V>)
        requires
            self.wf(),
        ensures
            exists|taken: Option<(K, V)>| #[trigger]
                self.takes_out(*k, taken) && value == unbound_store::value_of(taken),
    {
        self.cache_remove(k).unwrap()
    }

    /// Removes the entry of `k`; see [`cache_remove_entry`](Self::cache_remove_entry).
    pub fn remove_entry(&self, k: &K) -> (removed: Option<(K, V)>)
        requires
            self.wf(),
        ensures
            self.takes_out(*k, removed),
    {
        self.cache_remove_entry(k).unwrap()
    }

    /// Removes the entry of `k`; see [`cache_delete`](Self::cache_delete).
    pub fn delete(&self, k: &K) -> (b: bool)
        requires
            self.wf(),
        ensures
            exists|taken: Option<(K, V)>| #[trigger]
                self.takes_out(*k, taken) && b == (taken is Some),
    {
        self.cache_delete(k).unwrap()
    }

    /// Whether there is a value under `k`; see [`cache_contains`](Self::cache_contains).
    #[must_use]
    pub fn contains(&self, k: &K) -> (b: bool)
        requires
            self.wf(),
        ensures
            self.looks_for(*k, b),
    {
        self.cache_contains(k).unwrap()
    }
}

impl<K: Hash + Eq + Clone, V: Clone, H: ShardHasher<K>> ShardedUnboundCache<K, V, H> {
    /// A cache of its own with copies of the entries and the counters, and the same callback. Each
    /// shard is copied while no thread can change it.
    #[must_use]
    pub fn deep_clone(&self) -> (c: Self)
        requires
            self.wf(),
        ensures
            c.wf(),
            c.duplicates(*self),
    {
        let mut shards: Vec<Shard<UnboundStore<K, V>>> = Vec::new();
        let mut i: usize = 0;
        while i < self.inner.shards.len()
            invariant
                i <= self.inner.shards.len(),
                shards.len() == i,
                forall|j: int|
                    0 <= j < i ==> copied_shard(self.inner.shards[j], #[trigger] shards[j]),
            decreases self.inner.shards.len() - i,
        {
            let shard = &self.inner.shards[i];
            let (store, tally) = shard.read(shard, UnboundStore::copy_with_counts);
            proof {
                let held = choose|held: &UnboundStore<K, V>| call_ensures(
                    UnboundStore::<K, V>::copy_with_counts,
                    (held, shard),
                    (store, tally),
                );
                assert(unbound_store::copies(held@, store@));
            }
            shards.push(Shard::new(store, tally));
            assert(copied_shard(*shard, shards[i as int]));
            i += 1;
        }
        ShardedUnboundCache {
            inner: Arc::new(
                UnboundInner {
                    shards,
                    shard_mask: self.inner.shard_mask,
                    hasher: self.inner.hasher.clone(),
                    on_evict: share_on_evict(&self.inner.on_evict),
                },
            ),
        }
    }
}

/// The shard of a key is one of those of the cache, chosen by the upper half of a hash that its
/// hasher gives of the key.
pub proof fn law_hash_chooses_the_shard<K: Hash + Eq, V, H: ShardHasher<K>>(
    c: ShardedUnboundCache<K, V, H>,
    k: K,
    i: int,
)
    requires
        c.wf(),
        c.places(k, i),
    ensures
        0 <= i < c.shard_count(),
        exists|h: u64| #[trigger]
            hasher::hashes(c.shard_hasher(), k, h) && i == ((h / 0x1_0000_0000) as usize) & ((
            c.shard_count() - 1) as usize),
{
    let h = choose|h: u64| #[trigger]
        hasher::hashes(c.inner.hasher, k, h) && i == hasher::index_of(h, c.inner.shard_mask);
    hasher::lemma_index_in_range(h, c.inner.shard_mask);
    crate::stores::sharded::laws::law_upper_bits_choose(h, c.inner.shard_mask);
    assert(hasher::hashes(c.shard_hasher(), k, h));
}

/// A copy whose hasher is the same has each key in the shard with the same number, so that a look-up
/// in the copy searches the shard that was made of the one that held the key.
pub proof fn law_same_hasher_same_shards<K: Hash + Eq + Clone, V: Clone, H: ShardHasher<K>>(
    c: ShardedUnboundCache<K, V, H>,
    source: ShardedUnboundCache<K, V, H>,
    k: K,
    i: int,
)
    requires
        c.wf(),
        source.wf(),
        c.duplicates(source),
        c.shard_hasher() == source.shard_hasher(),
    ensures
        c.places(k, i) <==> source.places(k, i),
        source.places(k, i) ==> 0 <= i < c.shard_count() && copied_shard(
            source.shard(i),
            c.shard(i),
        ),
{
    assert forall|h: u64| 0 <= #[trigger] hasher::index_of(h, source.inner.shard_mask)
        < source.shard_count() by {
        hasher::lemma_index_in_range(h, source.inner.shard_mask);
    }
}

/// A copy of a cache that chooses shards with the default hasher has each key in the shard with
/// the same number.
pub proof fn law_copy_finds_its_keys<K: Hash + Eq + Clone, V: Clone>(
    c: ShardedUnboundCache<K, V, DefaultShardHasher>,
    source: ShardedUnboundCache<K, V, DefaultShardHasher>,
    k: K,
    i: int,
)
    requires
        c.wf(),
        source.wf(),
        c.duplicates(source),
    ensures
        c.places(k, i) <==> source.places(k, i),
        source.places(k, i) ==> 0 <= i < c.shard_count() && copied_shard(
            source.shard(i),
            c.shard(i),
        ),
{
    law_same_hasher_same_shards(c, source, k, i);
}

/// The settings of a [`ShardedUnboundCache`] to be.
#[verifier::reject_recursive_types(K)]
#[verifier::reject_recursive_types(V)]
pub struct ShardedUnboundCacheBuilder<K, V, H = DefaultShardHasher> {
    pub shards: Option<usize>,
    pub per_shard_initial_capacity: Option<usize>,
    pub hasher: H,
    pub on_evict: Option<OnEvict<K, V>>,
}

impl<K, V> Default for ShardedUnboundCacheBuilder<K, V, DefaultShardHasher> {
    fn default() -> (b: Self)
        ensures
            b.shards is None,
            b.per_shard_initial_capacity is None,
            b.on_evict is None,
    {
        ShardedUnboundCacheBuilder {
            shards: None,
            per_shard_initial_capacity: None,
            hasher: DefaultShardHasher::default(),
            on_evict: None,
        }
    }
}

impl<K, V> ShardedUnboundCacheBuilder<K, V> {
    /// A builder without any setting.
    #[must_use]
    pub fn new() -> (b: Self)
        ensures
            b.shards is None,
            b.per_shard_initial_capacity is None,
            b.on_evict is None,
    {
        Self::default()
    }
}

impl<K, V, H> ShardedUnboundCacheBuilder<K, V, H> {
    /// Whether the callback, if there is one, takes any entry.
    pub open spec fn wf(&self) -> bool {
        self.on_evict matches Some(f) ==> f.attentive()
    }

    /// Sets the number of shards, which is rounded up to a power of two.
    #[must_use]
    pub fn shards(self, shards: usize) -> (b: Self)
        ensures
            b == (ShardedUnboundCacheBuilder { shards: Some(shards), ..self }),
    {
        ShardedUnboundCacheBuilder { shards: Some(shards), ..self }
    }

    /// Makes room for `capacity` entries in each shard, where there is memory for them.
    #[must_use]
    pub fn per_shard_initial_capacity(self, capacity: usize) -> (b: Self)
        ensures
            b == (ShardedUnboundCacheBuilder { per_shard_initial_capacity: Some(capacity), ..self }),
    {
        ShardedUnboundCacheBuilder { per_shard_initial_capacity: Some(capacity), ..self }
    }

    /// Chooses shards with `hasher`.
    #[must_use]
    pub fn hasher<H2: ShardHasher<K>>(self, hasher: H2) -> (b: ShardedUnboundCacheBuilder<
        K,
        V,
        H2,
    >)
        ensures
            b == (ShardedUnboundCacheBuilder {
                shards: self.shards,
                per_shard_initial_capacity: self.per_shard_initial_capacity,
                hasher,
                on_evict: self.on_evict,
            }),
    {
        ShardedUnboundCacheBuilder {
            shards: self.shards,
            per_shard_initial_capacity: self.per_shard_initial_capacity,
            hasher,
            on_evict: self.on_evict,
        }
    }

    /// Sets the callback for entries that are removed. It is called when no shard is locked. It is
    /// not called for entries that are cleared or overwritten.
    #[must_use]
    pub fn on_evict<F: Fn(&K, &V) + Send + Sync + 'static>(self, on_evict: F) -> (b: Self)
        requires
            forall|k: &K, v: &V| call_requires(on_evict, (k, v)),
        ensures
            listener::calls(b.on_evict, on_evict),
            b.wf(),
            b == (ShardedUnboundCacheBuilder { on_evict: b.on_evict, ..self }),
    {
        ShardedUnboundCacheBuilder { on_evict: Some(listener::on_evict_from(on_evict)), ..self }
    }
}

impl<K: Hash + Eq, V, H: ShardHasher<K>> ShardedUnboundCacheBuilder<K, V, H> {
    /// For how many entries room is asked for in each shard.
    pub open spec fn room_asked(&self) -> usize {
        match self.per_shard_initial_capacity {
            Some(capacity) => capacity,
            None => 0,
        }
    }

    /// Whether `c` is what these settings ask for.
    pub open spec fn describes(&self, c: ShardedUnboundCache<K, V, H>) -> bool {
        &&& vstd::std_specs::hash::obeys_key_model::<K>() && self.wf() ==> c.wf()
        &&& match self.shards {
            Some(wanted) => hasher::rounds_up(c.shard_count() as int, wanted as int),
            None => c.shard_count() == hasher::DEFAULT_SHARDS,
        }
        &&& c.made_with(self.hasher, self.on_evict, self.room_asked())
    }

    /// The cache with these settings. They are refused with a number of shards of zero, or one that
    /// cannot be rounded up.
    pub fn build(self) -> (r: Result<ShardedUnboundCache<K, V, H>, BuildError>)
        ensures
            match r {
                Ok(c) => self.describes(c) && !hasher::refused(self.shards),
                Err(_) => hasher::refused(self.shards) && error::refuses_field(r, "shards"@),
            },
    {
        let n: usize = match hasher::checked_shard_count(self.shards) {
            Ok(n) => n,
            Err(e) => return Err(e),
        };
        let capacity: usize = match self.per_shard_initial_capacity {
            Some(capacity) => capacity,
            None => 0,
        };
        let mut shards: Vec<Shard<UnboundStore<K, V>>> = Vec::new();
        while shards.len() < n
            invariant
                shards.len() <= n,
                shards.len() > 0 ==> vstd::std_specs::hash::builds_valid_hashers::<
                    DefaultHashBuilder,
                >(),
                forall|j: int| 0 <= j < shards.len() ==> made_empty(#[trigger] shards[j], capacity),
            decreases n - shards.len(),
        {
            let shard = Shard::new(
                UnboundStore::new(capacity),
                Tally { hits: 0, misses: 0, evictions: 0 },
            );
            assert(made_empty(shard, capacity));
            shards.push(shard);
        }
        Ok(
            ShardedUnboundCache {
                inner: Arc::new(
                    UnboundInner {
                        shards,
                        shard_mask: n - 1,
                        hasher: self.hasher,
                        on_evict: self.on_evict,
                    },
                ),
            },
        )
    }

    /// The cache with these settings, filled with copies of the entries of `existing`. Nothing is
    /// counted, and no callback is called.
    pub fn copy_from<H2: ShardHasher<K>>(
        self,
        existing: &ShardedUnboundCache<K, V, H2>,
    ) -> (r: Result<ShardedUnboundCache<K, V, H>, BuildError>) where K: Clone, V: Clone
        requires
            self.wf(),
            existing.wf(),
        ensures
            match r {
                Ok(c) => {
                    &&& self.describes(c)
                    &&& c.wf()
                    &&& c.takes_over(*existing)
                    &&& !hasher::refused(self.shards)
                },
                Err(_) => hasher::refused(self.shards) && error::refuses_field(r, "shards"@),
            },
    {
        let cache = match self.build() {
            Ok(cache) => cache,
            Err(e) => return Err(e),
        };
        let mut i: usize = 0;
        while i < existing.inner.shards.len()
            invariant
                existing.wf(),
                cache.wf(),
                i <= existing.inner.shards.len(),
                forall|j: int|
                    0 <= j < i ==> cache.takes_over_shard(#[trigger] existing.inner.shards[j]),
            decreases existing.inner.shards.len() - i,
        {
            let entries = existing.inner.shards[i].read((), UnboundStore::entries);
            proof {
                let held = choose|store: &UnboundStore<K, V>| call_ensures(
                    UnboundStore::<K, V>::entries,
                    (store, ()),
                    entries,
                );
                assert(unbound_store::copies_all(held@, entries@));
            }
            let ghost list = entries;
            for entry in it: entries
                invariant
                    cache.wf(),
                    it.seq() == list@,
                    forall|n: int|
                        0 <= n < it.index() ==> cache.takes_in((#[trigger] list[n]).0, list[n].1),
            {
                let (k, v) = entry;
                let _ = cache.cache_set(k, v);
                assert(cache.takes_in(entry.0, entry.1));
            }
            assert(cache.takes_over_shard(existing.inner.shards[i as int]));
            i += 1;
        }
        Ok(cache)
    }
}

impl<K: Hash + Eq, V> ShardedUnboundCache<K, V, DefaultShardHasher> {
    /// A cache with default settings.
    #[must_use]
    pub fn new() -> (c: Self)
        ensures
            c.shard_count() == hasher::DEFAULT_SHARDS,
            exists|hasher: DefaultShardHasher| #[trigger] c.made_with(hasher, None, 0),
            vstd::std_specs::hash::obeys_key_model::<K>() ==> c.wf(),
    {
        Self::builder().build().unwrap()
    }

    /// A builder without any setting.
    #[must_use]
    pub fn builder() -> (b: ShardedUnboundCacheBuilder<K, V, DefaultShardHasher>)
        ensures
            b.shards is None,
            b.per_shard_initial_capacity is None,
            b.on_evict is None,
    {
        ShardedUnboundCacheBuilder::default()
    }
}

impl<K: Hash + Eq, V> Default for ShardedUnboundCache<K, V, DefaultShardHasher> {
    fn default() -> (c: Self)
        ensures
            c.shard_count() == hasher::DEFAULT_SHARDS,
            exists|hasher: DefaultShardHasher| #[trigger] c.made_with(hasher, None, 0),
            vstd::std_specs::hash::obeys_key_model::<K>() ==> c.wf(),
    {
        Self::new()
    }
}

} // verus!
