//! A cache for many threads whose entries expire.
use crate::stores::error::{self, BuildError, SetTtlError};
use crate::stores::expiry::{self, TimedEntry};
use crate::stores::listener::{self, share, share_on_evict, OnEvict};
use crate::stores::sharded::hasher::{self, DefaultShardHasher, ShardHasher};
use crate::stores::sharded::shard::{self, CacheMetrics, Shard, Tally};
use crate::stores::sharded::shared::{SharedFlag, SharedTtl};
use crate::stores::sharded::ttl_store::{self, Found, Glance, TtlStore};
use crate::stores::sweep;
use crate::stores::table::{self, DefaultHashBuilder};
use crate::time::{Clock, Duration, Instant, Moment};
use crate::traits::{ConcurrentCacheEvict, ConcurrentCacheExpiry};
use std::convert::Infallible;
use std::hash::Hash;
use std::sync::Arc;
use vstd::prelude::*;

verus! {

/// A time to live as shards share it: in nanoseconds, as far as they fit; zero means that entries
/// do not expire.
pub open spec fn encoded_ttl(ttl: Duration) -> u64 {
    if ttl.nanos <= u64::MAX {
        ttl.nanos as u64
    } else {
        u64::MAX
    }
}

/// The time to live that is shared as `nanos`, `None` where entries do not expire.
pub open spec fn decoded_ttl(nanos: u64) -> Option<Duration> {
    expiry::reported(Duration { nanos: nanos as u128 })
}

/// A time to live as shards share it.
pub fn encode_ttl(ttl: Duration) -> (nanos: u64)
    ensures
        nanos == encoded_ttl(ttl),
{
    if ttl.nanos <= u64::MAX as u128 {
        ttl.nanos as u64
    } else {
        u64::MAX
    }
}

/// The time to live that is shared as `nanos`.
pub fn decode_ttl(nanos: u64) -> (r: Option<Duration>)
    ensures
        r == decoded_ttl(nanos),
{
    expiry::report_ttl(Duration { nanos: nanos as u128 })
}

/// A time to live is shared as it is, as long as its nanoseconds fit; a longer one is cut to the
/// longest that does, and does not turn into "never expires".
pub proof fn law_shared_ttl(ttl: Duration)
    ensures
        0 < ttl.nanos <= u64::MAX ==> decoded_ttl(encoded_ttl(ttl)) == Some(ttl),
        ttl.nanos > u64::MAX ==> decoded_ttl(encoded_ttl(ttl)) == Some(
            Duration { nanos: u64::MAX as u128 },
        ),
        ttl.nanos == 0 <==> decoded_ttl(encoded_ttl(ttl)) is None,
{
}

/// What threads share of a [`ShardedTtlCache`].
#[verifier::reject_recursive_types(K)]
#[verifier::reject_recursive_types(V)]
struct TtlInner<K, V, H> {
    shards: Vec<Shard<TtlStore<K, V>>>,
    shard_mask: usize,
    hasher: H,
    on_evict: Option<OnEvict<K, V>>,
    ttl: SharedTtl,
    refresh: SharedFlag,
    clock: Clock,
}

impl<K, V, H> TtlInner<K, V, H> {
    spec fn wf(&self) -> bool {
        &&& self.shards.len() == self.shard_mask + 1
        &&& vstd::arithmetic::power2::is_pow2(self.shards.len() as int)
        &&& self.on_evict matches Some(f) ==> f.attentive()
        &&& table::keyed::<K, DefaultHashBuilder>()
    }
}

/// A cache for many threads whose entries expire. Each shard has a lock of its own, and a clone of
/// the cache shares its shards.
#[verifier::reject_recursive_types(K)]
#[verifier::reject_recursive_types(V)]
pub struct ShardedTtlCache<K, V, H = DefaultShardHasher> {
    inner: Arc<TtlInner<K, V, H>>,
}

impl<K, V, H> Clone for ShardedTtlCache<K, V, H> {
    /// A second handle on the same cache.
    fn clone(&self) -> (c: Self)
        ensures
            c == *self,
    {
        ShardedTtlCache { inner: share(&self.inner) }
    }
}

impl<K, V, H> ShardedTtlCache<K, V, H> {
    /// Whether the cache is in order: keys behave as keys, the callback takes any entry, and the
    /// shards are as many as a power of two.
    pub closed spec fn wf(&self) -> bool {
        self.inner.wf()
    }

    /// The number of shards.
    pub closed spec fn shard_count(&self) -> nat {
        self.inner.shards.len() as nat
    }

    /// The clock that the cache reads.
    pub closed spec fn timepiece(&self) -> Clock {
        self.inner.clock
    }

    /// The shard with the number `i`.
    pub closed spec fn shard(&self, i: int) -> Shard<TtlStore<K, V>> {
        self.inner.shards[i]
    }

    /// The callback for entries that are evicted.
    pub closed spec fn callback(&self) -> Option<OnEvict<K, V>> {
        self.inner.on_evict
    }

    /// What chooses the shards of keys.
    pub closed spec fn shard_hasher(&self) -> H {
        self.inner.hasher
    }

    /// The time to live that the shards share.
    pub closed spec fn shared_ttl(&self) -> SharedTtl {
        self.inner.ttl
    }

    /// The switch that says whether a hit renews an entry.
    pub closed spec fn refresh_switch(&self) -> SharedFlag {
        self.inner.refresh
    }

    /// Whether `nanos` is a reading of the time to live that the shards share.
    pub open spec fn has_ttl(&self, nanos: u64) -> bool {
        self.shared_ttl().reads(nanos)
    }

    /// Whether `former` is what putting `nanos` in the place of the shared time to live gives.
    pub open spec fn trades_ttl(&self, nanos: u64, former: u64) -> bool {
        self.shared_ttl().trades(nanos, former)
    }

    /// Whether `refresh` is a reading of whether a hit renews an entry.
    pub open spec fn has_refresh(&self, refresh: bool) -> bool {
        self.refresh_switch().reads(refresh)
    }

    /// Whether `former` is what setting whether a hit renews an entry to `refresh` gives.
    pub open spec fn trades_refresh(&self, refresh: bool, former: bool) -> bool {
        self.refresh_switch().trades(refresh, former)
    }

    /// The clock that the cache reads.
    pub fn clock(&self) -> (c: Clock)
        ensures
            c == self.timepiece(),
    {
        self.inner.clock
    }

    /// The number of shards.
    #[must_use]
    pub fn shards(&self) -> (n: usize)
        ensures
            n == self.shard_count(),
            self.wf() ==> vstd::arithmetic::power2::is_pow2(n as int),
    {
        self.inner.shards.len()
    }

    /// The time to live of new entries, `None` where they do not expire.
    pub fn ttl(&self) -> (r: Option<Duration>)
        ensures
            r matches Some(d) ==> 0 < d.nanos <= u64::MAX,
            exists|nanos: u64| #[trigger] self.has_ttl(nanos) && r == decoded_ttl(nanos),
    {
        let nanos: u64 = self.inner.ttl.nanos();
        assert(self.has_ttl(nanos));
        decode_ttl(nanos)
    }

    /// Sets the time to live of entries that are written or renewed from now on, as far as its
    /// nanoseconds fit, and returns the former one. With zero they do not expire. Entries keep the
    /// deadlines that they have.
    pub fn set_ttl(&self, ttl: Duration) -> (r: Option<Duration>)
        ensures
            r matches Some(d) ==> 0 < d.nanos <= u64::MAX,
            exists|former: u64| #[trigger]
                self.trades_ttl(encoded_ttl(ttl), former) && r == decoded_ttl(former),
    {
        let former: u64 = self.inner.ttl.swap(encode_ttl(ttl));
        assert(self.trades_ttl(encoded_ttl(ttl), former));
        decode_ttl(former)
    }

    /// [`set_ttl`](Self::set_ttl), refusing zero.
    pub fn try_set_ttl(&self, ttl: Duration) -> (r: Result<Option<Duration>, SetTtlError>)
        ensures
            ttl.nanos == 0 <==> r is Err,
            ttl.nanos == 0 ==> r == Err::<Option<Duration>, SetTtlError>(SetTtlError::ZeroTtl),
            ttl.nanos != 0 ==> exists|former: u64| #[trigger]
                self.trades_ttl(encoded_ttl(ttl), former) && r == Ok::<
                    Option<Duration>,
                    SetTtlError,
                >(decoded_ttl(former)),
    {
        if ttl.is_zero() {
            return Err(SetTtlError::ZeroTtl);
        }
        Ok(self.set_ttl(ttl))
    }

    /// Lets entries that are written from now on live forever, and returns the former time to
    /// live.
    pub fn unset_ttl(&self) -> (r: Option<Duration>)
        ensures
            r matches Some(d) ==> 0 < d.nanos <= u64::MAX,
            exists|former: u64| #[trigger]
                self.trades_ttl(0, former) && r == decoded_ttl(former),
    {
        let former: u64 = self.inner.ttl.swap(0);
        assert(self.trades_ttl(0, former));
        decode_ttl(former)
    }

    /// Whether a hit renews an entry.
    pub fn refresh_on_hit(&self) -> (b: bool)
        ensures
            self.has_refresh(b),
    {
        self.inner.refresh.get()
    }

    /// Sets whether a hit renews an entry, and returns whether it did.
    pub fn set_refresh_on_hit(&self, refresh: bool) -> (former: bool)
        ensures
            self.trades_refresh(refresh, former),
    {
        self.inner.refresh.swap(refresh)
    }
}

/// Whether `copy` was made of copies of the entries and a reading of the counters of `shard`, under
/// its lock.
pub open spec fn copied_shard<K: Hash + Eq + Clone, V: Clone>(
    shard: Shard<TtlStore<K, V>>,
    copy: Shard<TtlStore<K, V>>,
) -> bool {
    exists|r: (TtlStore<K, V>, Tally), held: Map<K, TimedEntry<V>>|
        {
            &&& #[trigger] call_ensures(
                Shard::read,
                (&shard, &shard, TtlStore::<K, V>::copy_with_counts),
                r,
            )
            &&& #[trigger] expiry::copies(held, r.0@)
            &&& shard.counted(r.1)
            &&& copy.made_of(r.0, r.1)
        }
}

/// Whether `list` are copies of the entries of `shard`, under its lock, that are live at an instant
/// that `clock` shows.
#[verifier::opaque]
pub open spec fn lists_live<K: Hash + Eq + Clone, V: Clone>(
    shard: Shard<TtlStore<K, V>>,
    clock: Clock,
    list: Vec<(K, TimedEntry<V>)>,
) -> bool {
    &&& call_ensures(Shard::read, (&shard, clock, TtlStore::<K, V>::present_entries), list)
    &&& exists|held: Map<K, TimedEntry<V>>, now: Instant|
        clock.shows(now) && #[trigger] ttl_store::copies_live(held, now, list@)
}

/// Copies of the entries of `shard` that are live at the instant that `clock` shows.
fn list_live<K: Hash + Eq + Clone, V: Clone>(shard: &Shard<TtlStore<K, V>>, clock: Clock) -> (list:
    Vec<(K, TimedEntry<V>)>)
    requires
        table::keyed::<K, DefaultHashBuilder>(),
    ensures
        lists_live(*shard, clock, list),
{
    reveal(lists_live);
    shard.read(clock, TtlStore::present_entries)
}

/// Whether `shard` was made without entries, with counters at zero, and with room for `capacity`
/// entries where there is memory for it.
pub open spec fn made_empty<K: Hash + Eq, V>(
    shard: Shard<TtlStore<K, V>>,
    capacity: usize,
) -> bool {
    exists|store: TtlStore<K, V>|
        {
            &&& #[trigger] shard.made_of(store, Tally { hits: 0, misses: 0, evictions: 0 })
            &&& call_ensures(TtlStore::<K, V>::new, (capacity,), store)
            &&& store@ == Map::<K, TimedEntry<V>>::empty()
        }
}

/// What calls make of a cache: which shard is locked, what is done with it, and what is counted
/// and told when it is not locked any more.
impl<K: Hash + Eq, V, H: ShardHasher<K>> ShardedTtlCache<K, V, H> {
    /// Whether the shard of `k` is the one with the number `i`: its hash says so.
    pub closed spec fn places(&self, k: K, i: int) -> bool {
        exists|h: u64| #[trigger]
            hasher::hashes(self.inner.hasher, k, h) && i == hasher::index_of(
                h,
                self.inner.shard_mask,
            )
    }

    /// Whether what an operation on the shard `i` found was counted there, and the callback was
    /// called for what it evicted.
    pub open spec fn settled(&self, i: int, f: Found<K, V>) -> bool {
        &&& self.shard(i).adds_evictions(f.tally.evictions)
        &&& self.shard(i).adds_reads(f.tally)
        &&& f.evicted matches Some(e) ==> shard::told(self.callback(), e.0, e.1.value)
    }

    /// Whether the entries `removed` were counted as evictions of the shard `i`, and the callback
    /// was called for each.
    pub open spec fn settled_all(&self, i: int, removed: Seq<(K, TimedEntry<V>)>) -> bool {
        &&& self.shard(i).adds_evictions(removed.len() as u64)
        &&& forall|j: int|
            0 <= j < removed.len() ==> shard::told(
                self.callback(),
                (#[trigger] removed[j]).0,
                removed[j].1.value,
            )
    }

    /// Whether `taken` is what taking the entry of `k` out of its shard, under its lock, gives; an
    /// entry was counted as evicted, and the callback was called for it.
    pub open spec fn takes_out(&self, k: K, taken: Option<(K, TimedEntry<V>)>) -> bool {
        exists|i: int, held: Map<K, TimedEntry<V>>|
            {
                &&& #[trigger] self.places(k, i)
                &&& call_ensures(
                    Shard::write,
                    (&self.shard(i), &k, TtlStore::<K, V>::take),
                    taken,
                )
                &&& #[trigger] ttl_store::takes_one(held, held.remove(k), k, taken)
                &&& taken matches Some(e) ==> self.settled_all(i, seq![e])
            }
    }

    /// Whether `f` is what writing `v` under `k` at `now` in its shard, under its lock, gives, with
    /// a reading of the shared time to live; then it was settled.
    pub open spec fn writes(&self, k: K, v: V, now: Instant, f: Found<K, V>) -> bool {
        exists|i: int, ttl: Duration, pre: Map<K, TimedEntry<V>>, post: Map<K, TimedEntry<V>>|
            {
                &&& #[trigger] self.places(k, i)
                &&& self.shared_ttl().shows(ttl)
                &&& call_ensures(
                    Shard::write,
                    (&self.shard(i), (k, v, now, ttl), TtlStore::<K, V>::put_all),
                    f,
                )
                &&& #[trigger] ttl_store::writes(pre, post, k, v, now, ttl, f)
                &&& self.settled(i, f)
            }
    }

    /// Whether `entry` was stored under `k` in its shard, under its lock.
    pub open spec fn installs(&self, k: K, entry: TimedEntry<V>) -> bool {
        exists|i: int, former: Option<TimedEntry<V>>| #[trigger]
            self.places(k, i) && #[trigger] call_ensures(
                Shard::write,
                (&self.shard(i), (k, entry), TtlStore::<K, V>::install),
                former,
            )
    }

    /// Whether `b` is what looking for a live entry of `k` in its shard, under its lock, gives.
    pub open spec fn looks_for(&self, k: K, when: Moment, b: bool) -> bool {
        &&& exists|i: int| #[trigger]
            self.places(k, i) && call_ensures(
                Shard::read,
                (&self.shard(i), (&k, when), TtlStore::<K, V>::contains_when),
                b,
            )
        &&& exists|held: Map<K, TimedEntry<V>>, now: Instant|
            when.allows(now) && b == #[trigger] ttl_store::live(held, k, now)
    }

    /// Whether `r` is what reading the deadline of `k` in its shard, under its lock, gives.
    pub open spec fn reads_deadline(&self, k: K, r: (bool, Option<Instant>)) -> bool {
        exists|i: int| #[trigger]
            self.places(k, i) && call_ensures(
                Shard::read,
                (&self.shard(i), &k, TtlStore::<K, V>::expires_at),
                r,
            )
    }

    /// Whether `sizes` is what counting the entries of each shard, under its lock, gives.
    pub open spec fn measures(&self, sizes: Seq<usize>) -> bool {
        &&& sizes.len() == self.shard_count()
        &&& forall|i: int|
            0 <= i < sizes.len() ==> call_ensures(
                Shard::read,
                (&self.shard(i), (), TtlStore::<K, V>::measure),
                #[trigger] sizes[i],
            )
    }

    /// Whether `tallies` are readings of the counters of each shard.
    pub open spec fn tallied(&self, tallies: Seq<Tally>) -> bool {
        &&& tallies.len() == self.shard_count()
        &&& forall|i: int|
            0 <= i < tallies.len() ==> self.shard(i).counted(#[trigger] tallies[i])
    }

    /// Whether all entries of each shard were removed, under its lock.
    pub open spec fn wiped(&self) -> bool {
        forall|i: int| 0 <= i < self.shard_count() ==> #[trigger] self.wiped_shard(i)
    }

    /// Whether all entries of the shard `i` were removed; see [`wiped`](Self::wiped).
    pub open spec fn wiped_shard(&self, i: int) -> bool {
        exists|n: usize| #[trigger]
            call_ensures(
                Shard::write,
                (&self.shard(i), (), TtlStore::<K, V>::wipe),
                n,
            )
    }

    /// Whether the counters of each shard were set to zero.
    pub open spec fn zeroed(&self) -> bool {
        forall|i: int| 0 <= i < self.shard_count() ==> (#[trigger] self.shard(i)).zeroed()
    }

    /// Whether all entries of each shard were taken out, under its lock, then counted as evicted,
    /// and the callback was called for each.
    pub open spec fn drained(&self) -> bool {
        forall|i: int| 0 <= i < self.shard_count() ==> #[trigger] self.drained_shard(i)
    }

    /// Whether all entries of the shard `i` were taken out; see [`drained`](Self::drained).
    pub open spec fn drained_shard(&self, i: int) -> bool {
        exists|removed: Vec<(K, TimedEntry<V>)>, held: Map<K, TimedEntry<V>>|
            {
                &&& call_ensures(
                    Shard::write,
                    (&self.shard(i), (), TtlStore::<K, V>::take_all),
                    removed,
                )
                &&& #[trigger] table::enumerates(removed@, held)
                &&& self.settled_all(i, removed@)
            }
    }

    /// Whether from each shard, under its lock, the entries were taken that had expired at `now`,
    /// `counts` of them; then they were counted as evicted, and the callback was called for each.
    pub open spec fn sweeps(&self, now: Instant, counts: Seq<usize>) -> bool {
        &&& counts.len() == self.shard_count()
        &&& forall|i: int| 0 <= i < counts.len() ==> self.sweeps_shard(i, now, #[trigger] counts[i])
    }

    /// Whether `n` entries of the shard `i` were swept; see [`sweeps`](Self::sweeps).
    pub open spec fn sweeps_shard(&self, i: int, now: Instant, n: usize) -> bool {
        exists|removed: Vec<(K, TimedEntry<V>)>, held: Map<K, TimedEntry<V>>|
            {
                &&& call_ensures(
                    Shard::write,
                    (&self.shard(i), now, TtlStore::<K, V>::take_expired),
                    removed,
                )
                &&& #[trigger] sweep::sweeps(held, now, sweep::taken_keys(removed@))
                &&& sweep::takes(
                    held,
                    held.remove_keys(sweep::taken_keys(removed@).to_set()),
                    removed@,
                )
                &&& n == removed.len()
                &&& self.settled_all(i, removed@)
            }
    }

    /// Whether from each shard, under its lock, the entries were taken that had expired at `now`
    /// or that `keep` rejects, `counts` of them; then they were counted as evicted, and the
    /// callback was called for each.
    pub open spec fn sifts<F: FnMut(&K, &V) -> bool>(
        &self,
        keep: F,
        now: Instant,
        counts: Seq<usize>,
    ) -> bool {
        &&& counts.len() == self.shard_count()
        &&& forall|i: int|
            0 <= i < counts.len() ==> self.sifts_shard(i, keep, now, #[trigger] counts[i])
    }

    /// Whether `n` entries of the shard `i` were taken out; see [`sifts`](Self::sifts).
    pub open spec fn sifts_shard<F: FnMut(&K, &V) -> bool>(
        &self,
        i: int,
        keep: F,
        now: Instant,
        n: usize,
    ) -> bool {
        exists|removed: Vec<(K, TimedEntry<V>)>, held: Map<K, TimedEntry<V>>|
            {
                &&& call_ensures(
                    Shard::write,
                    (&self.shard(i), (keep, now), TtlStore::<K, V>::sift::<F>),
                    (removed, keep),
                )
                &&& #[trigger] sweep::retains(held, keep, now, sweep::taken_keys(removed@))
                &&& sweep::takes(
                    held,
                    held.remove_keys(sweep::taken_keys(removed@).to_set()),
                    removed@,
                )
                &&& n == removed.len()
                &&& self.settled_all(i, removed@)
            }
    }

    /// Whether the cache was made without entries, with counters at zero, and with these settings.
    pub open spec fn made_with(
        &self,
        ttl: Duration,
        refresh: bool,
        hasher: H,
        on_evict: Option<OnEvict<K, V>>,
        capacity: usize,
    ) -> bool {
        &&& forall|i: int|
            0 <= i < self.shard_count() ==> made_empty(
                #[trigger] self.shard(i),
                capacity,
            )
        &&& self.shared_ttl().made_of(encoded_ttl(ttl))
        &&& self.refresh_switch().made_of(refresh)
        &&& self.shard_hasher() == hasher
        &&& self.callback() == on_evict
    }
}

impl<K: Hash + Eq, V: Clone, H: ShardHasher<K>> ShardedTtlCache<K, V, H> {
    /// Whether `f` is what looking `k` up in its shard, under its lock, gives; then it was settled.
    /// Where a reading says that hits renew entries, the shard is locked for writing. Else it is
    /// locked for reading, and again for writing if the entry was seen expired.
    pub open spec fn looks_up(&self, k: K, when: Moment, f: Found<K, V>) -> bool {
        &&& exists|i: int, refresh: bool|
            {
                &&& #[trigger] self.places(k, i)
                &&& #[trigger] self.has_refresh(refresh)
                &&& if refresh {
                    self.renews_in(i, k, when, f)
                } else {
                    self.glances_in(i, k, when, f)
                }
                &&& self.settled(i, f)
            }
        &&& self.explains(k, when, f)
    }

    /// Whether `f` follows from a look-up in what a shard held, at the moment `when`. Where a
    /// reading says that hits renew entries, they are renewed with a reading of the time to live.
    pub open spec fn explains(&self, k: K, when: Moment, f: Found<K, V>) -> bool {
        exists|
            pre: Map<K, TimedEntry<V>>,
            post: Map<K, TimedEntry<V>>,
            now: Instant,
            renewal: Option<Duration>,
        |
            {
                &&& #[trigger] ttl_store::looks_up(pre, post, k, now, renewal, f)
                &&& when.allows(now)
                &&& self.has_refresh(renewal is Some)
                &&& renewal matches Some(ttl) ==> self.shared_ttl().shows(ttl)
            }
    }

    /// Whether `f` is what a look-up of `k` that renews its entry gives in the shard `i`.
    pub open spec fn renews_in(&self, i: int, k: K, when: Moment, f: Found<K, V>) -> bool {
        exists|r: (Found<K, V>, Instant, Duration)| #[trigger]
            call_ensures(
                Shard::write,
                (
                    &self.shard(i),
                    (&k, when, &self.shared_ttl()),
                    TtlStore::<K, V>::look_up_when,
                ),
                r,
            ) && f == r.0
    }

    /// Whether `f` is what a look-up of `k` that renews nothing gives in the shard `i`.
    pub open spec fn glances_in(&self, i: int, k: K, when: Moment, f: Found<K, V>) -> bool {
        exists|g: (Glance<V>, Instant)| #[trigger]
            call_ensures(
                Shard::read,
                (&self.shard(i), (&k, when), TtlStore::<K, V>::glance_when),
                g,
            ) && match g.0 {
                Glance::Absent => f == (Found::<K, V> {
                    value: None,
                    evicted: None,
                    tally: Tally::miss(0),
                }),
                Glance::Live(v) => f == (Found::<K, V> {
                    value: Some(v),
                    evicted: None,
                    tally: Tally::hit(),
                }),
                Glance::Expired => call_ensures(
                    Shard::write,
                    (&self.shard(i), (&k, g.1), TtlStore::<K, V>::look_up_again),
                    f,
                ),
            }
    }

    /// Whether `value` is the live value of `k` that a look at its shard, under its lock, shows.
    pub open spec fn peeks(&self, k: K, when: Moment, value: Option<V>) -> bool {
        &&& exists|i: int, g: (Glance<V>, Instant)|
            {
                &&& #[trigger] self.places(k, i)
                &&& #[trigger] call_ensures(
                    Shard::read,
                    (&self.shard(i), (&k, when), TtlStore::<K, V>::glance_when),
                    g,
                )
                &&& value == ttl_store::seen_value(g.0)
            }
        &&& exists|held: Map<K, TimedEntry<V>>, now: Instant|
            when.allows(now) && #[trigger] ttl_store::answers(held, k, now, value)
    }

    /// Whether `r` is what reading the status of `k` in its shard, under its lock, gives; then it
    /// was counted. Where a reading says that hits renew entries, the shard is locked for writing.
    pub open spec fn looks_up_status(&self, k: K, when: Moment, r: (Option<V>, bool)) -> bool {
        &&& exists|i: int, refresh: bool|
            {
                &&& #[trigger] self.places(k, i)
                &&& #[trigger] self.has_refresh(refresh)
                &&& if refresh {
                    self.renews_status_in(i, k, when, r)
                } else {
                    self.reads_status_in(i, k, when, r)
                }
                &&& self.shard(i).adds_reads(ttl_store::status_tally(r))
            }
        &&& self.explains_status(k, when, r)
    }

    /// Whether `r` follows from reading the status of `k` in what a shard held, at the moment
    /// `when`. Where a reading says that hits renew entries, they are renewed with a reading of the
    /// time to live.
    pub open spec fn explains_status(&self, k: K, when: Moment, r: (Option<V>, bool)) -> bool {
        exists|
            pre: Map<K, TimedEntry<V>>,
            post: Map<K, TimedEntry<V>>,
            now: Instant,
            renewal: Option<Duration>,
        |
            {
                &&& #[trigger] ttl_store::reads_status(pre, post, k, now, renewal, r)
                &&& when.allows(now)
                &&& self.has_refresh(renewal is Some)
                &&& renewal matches Some(ttl) ==> self.shared_ttl().shows(ttl)
            }
    }

    /// Whether `r` is what reading the status of `k`, and renewing its entry, gives in the shard
    /// `i`.
    pub open spec fn renews_status_in(
        &self,
        i: int,
        k: K,
        when: Moment,
        r: (Option<V>, bool),
    ) -> bool {
        exists|s: ((Option<V>, bool), Instant, Duration)| #[trigger]
            call_ensures(
                Shard::write,
                (
                    &self.shard(i),
                    (&k, when, &self.shared_ttl()),
                    TtlStore::<K, V>::status_renewing_when,
                ),
                s,
            ) && r == s.0
    }

    /// Whether `r` is what reading the status of `k` gives in the shard `i`.
    pub open spec fn reads_status_in(
        &self,
        i: int,
        k: K,
        when: Moment,
        r: (Option<V>, bool),
    ) -> bool {
        exists|s: ((Option<V>, bool), Instant)| #[trigger]
            call_ensures(
                Shard::read,
                (&self.shard(i), (&k, when), TtlStore::<K, V>::status_when),
                s,
            ) && r == s.0
    }

    /// Whether `r` is what reading the status of `k` in its shard, under its lock, gives.
    pub open spec fn peeks_status(&self, k: K, when: Moment, r: (Option<V>, bool)) -> bool {
        &&& exists|i: int| #[trigger] self.places(k, i) && self.reads_status_in(i, k, when, r)
        &&& exists|held: Map<K, TimedEntry<V>>, now: Instant|
            when.allows(now) && #[trigger] ttl_store::reports(held, k, now, r)
    }

    /// Whether `r` is what reading the value and the deadline of `k` in its shard, under its lock,
    /// gives.
    pub open spec fn reads_entry(&self, k: K, r: (Option<V>, Option<Instant>)) -> bool {
        exists|i: int| #[trigger]
            self.places(k, i) && call_ensures(
                Shard::read,
                (&self.shard(i), &k, TtlStore::<K, V>::peek_expires_at),
                r,
            )
    }
}

impl<K: Hash + Eq + Clone, V: Clone, H: ShardHasher<K>> ShardedTtlCache<K, V, H> {
    /// Whether each shard was made of a copy of the entries and a reading of the counters of the
    /// shard of `source` with its number, under its lock, and the settings of readings of those of
    /// `source`; the callback and the clock are the same.
    pub open spec fn duplicates(&self, source: Self) -> bool {
        &&& self.shard_count() == source.shard_count()
        &&& forall|i: int|
            0 <= i < self.shard_count() ==> copied_shard(
                source.shard(i),
                #[trigger] self.shard(i),
            )
        &&& exists|nanos: u64| #[trigger]
            source.has_ttl(nanos) && self.shared_ttl().made_of(nanos)
        &&& exists|refresh: bool| #[trigger]
            source.has_refresh(refresh) && self.refresh_switch().made_of(refresh)
        &&& cloned(source.shard_hasher(), self.shard_hasher())
        &&& self.callback() == source.callback()
        &&& self.timepiece() == source.timepiece()
    }

    /// Whether the live entries of each shard of `source`, as its lock and its clock showed them,
    /// were stored in this cache.
    pub open spec fn takes_over<H2: ShardHasher<K>>(
        &self,
        source: ShardedTtlCache<K, V, H2>,
    ) -> bool {
        forall|j: int|
            0 <= j < source.shard_count() ==> self.takes_over_shard(
                #[trigger] source.shard(j),
                source.timepiece(),
            )
    }

    /// Whether the entries of `shard` were stored; see [`takes_over`](Self::takes_over).
    pub open spec fn takes_over_shard(
        &self,
        shard: Shard<TtlStore<K, V>>,
        clock: Clock,
    ) -> bool {
        exists|list: Vec<(K, TimedEntry<V>)>| #[trigger]
            lists_live(shard, clock, list) && forall|n: int|
                0 <= n < list.len() ==> self.installs((#[trigger] list[n]).0, list[n].1)
    }

    /// Stores copies of the live entries of `shard`, at the instant that `clock` shows.
    fn take_over(&self, shard: &Shard<TtlStore<K, V>>, clock: Clock)
        requires
            self.wf(),
        ensures
            self.takes_over_shard(*shard, clock),
    {
        let entries = list_live(shard, clock);
        let ghost list = entries;
        for pair in it: entries
            invariant
                self.wf(),
                it.seq() == list@,
                forall|n: int|
                    0 <= n < it.index() ==> self.installs((#[trigger] list[n]).0, list[n].1),
        {
            let (k, entry) = pair;
            self.install(k, entry);
        }
        assert(lists_live(*shard, clock, list));
    }
}

impl<K: Hash + Eq, V, H: ShardHasher<K>> ShardedTtlCache<K, V, H> {
    /// The number of the shard of `k`.
    pub fn shard_number(&self, k: &K) -> (i: usize)
        requires
            self.wf(),
        ensures
            i < self.shard_count(),
            self.places(*k, i as int),
    {
        let h: u64 = self.inner.hasher.shard_hash(k);
        assert(hasher::hashes(self.inner.hasher, *k, h));
        hasher::shard_index(h, self.inner.shard_mask)
    }

    /// The shard of `k`.
    fn shard_of(&self, k: &K) -> (s: &Shard<TtlStore<K, V>>)
        requires
            self.wf(),
        ensures
            exists|i: int| #[trigger] self.places(*k, i) && self.is_shard(*s, i),
    {
        let i: usize = self.shard_number(k);
        assert(self.is_shard(self.inner.shards[i as int], i as int));
        &self.inner.shards[i]
    }

    /// Whether `shard` is the one with the number `i`.
    spec fn is_shard(&self, shard: Shard<TtlStore<K, V>>, i: int) -> bool {
        0 <= i < self.shard_count() && shard == self.shard(i)
    }

    /// Counts what an operation on `shard` found, calls the callback for what it evicted, and
    /// returns its value.
    fn settle(&self, shard: &Shard<TtlStore<K, V>>, f: Found<K, V>) -> (value: Option<V>)
        requires
            self.wf(),
        ensures
            value == f.value,
            forall|i: int| #[trigger] self.is_shard(*shard, i) ==> self.settled(i, f),
    {
        shard.count_evictions(f.tally);
        if let Some((stored, entry)) = &f.evicted {
            shard::tell(&self.inner.on_evict, stored, &entry.value);
        }
        shard.count_reads(f.tally);
        f.value
    }

    /// Counts the entries `removed` from `shard` as evicted, then calls the callback for each.
    fn settle_removed(
        &self,
        shard: &Shard<TtlStore<K, V>>,
        removed: &Vec<(K, TimedEntry<V>)>,
    )
        requires
            self.wf(),
        ensures
            forall|i: int| #[trigger] self.is_shard(*shard, i) ==> self.settled_all(i, removed@),
    {
        shard.count_evictions(Tally { hits: 0, misses: 0, evictions: removed.len() as u64 });
        let mut i: usize = 0;
        while i < removed.len()
            invariant
                self.wf(),
                i <= removed.len(),
                forall|j: int|
                    0 <= j < i ==> shard::told(
                        self.inner.on_evict,
                        (#[trigger] removed[j]).0,
                        removed[j].1.value,
                    ),
            decreases removed.len() - i,
        {
            shard::tell(&self.inner.on_evict, &removed[i].0, &removed[i].1.value);
            i += 1;
        }
    }

    /// Counts the entry `taken` from `shard`, if there is one, as evicted, then calls the callback.
    fn settle_taken(
        &self,
        shard: &Shard<TtlStore<K, V>>,
        taken: &Option<(K, TimedEntry<V>)>,
    )
        requires
            self.wf(),
        ensures
            *taken matches Some(e) ==> forall|i: int| #[trigger]
                self.is_shard(*shard, i) ==> self.settled_all(i, seq![e]),
    {
        if let Some((stored, entry)) = taken {
            shard.count_evictions(Tally { hits: 0, misses: 0, evictions: 1 });
            shard::tell(&self.inner.on_evict, stored, &entry.value);
        }
    }

    /// Takes the entry of `k` out. It is still to be counted.
    fn take_key(&self, k: &K) -> (r: (Option<(K, TimedEntry<V>)>, &Shard<TtlStore<K, V>>))
        requires
            self.wf(),
        ensures
            exists|i: int|
                {
                    &&& #[trigger] self.places(*k, i)
                    &&& self.is_shard(*r.1, i)
                    &&& call_ensures(Shard::write, (r.1, k, TtlStore::<K, V>::take), r.0)
                },
            exists|held: Map<K, TimedEntry<V>>| #[trigger]
                ttl_store::takes_one(held, held.remove(*k), *k, r.0),
    {
        let shard = self.shard_of(k);
        let taken = shard.write(k, TtlStore::take);
        let ghost store = choose|store: &mut TtlStore<K, V>| call_ensures(
            TtlStore::<K, V>::take,
            (store, k),
            taken,
        );
        let ghost held = (*store)@;
        let r = (taken, shard);
        assert(ttl_store::takes_one(held, held.remove(*k), *k, r.0));
        r
    }

    /// Takes the entry of `k` out, counts it as evicted, and calls the callback.
    fn evict_key(&self, k: &K) -> (taken: Option<(K, TimedEntry<V>)>)
        requires
            self.wf(),
        ensures
            self.takes_out(*k, taken),
    {
        let (taken, shard) = self.take_key(k);
        self.settle_taken(shard, &taken);
        taken
    }
}

impl<K: Hash + Eq, V: Clone, H: ShardHasher<K>> ShardedTtlCache<K, V, H> {
    /// A clone of the live value under `k`. Counts a hit or a miss; an expired entry is evicted.
    /// Where hits renew entries, the shard is locked for writing; else only to evict. The instant
    /// is taken while the shard is locked.
    fn get_when(&self, k: &K, when: Moment) -> (value: Option<V>)
        requires
            self.wf(),
        ensures
            exists|f: Found<K, V>| #[trigger] self.looks_up(*k, when, f) && value == f.value,
    {
        let shard = self.shard_of(k);
        let ghost i = choose|i: int| #[trigger] self.places(*k, i) && self.is_shard(*shard, i);
        if self.refresh_on_hit() {
            assert(self.has_refresh(true));
            let r = shard.write((k, when, &self.inner.ttl), TtlStore::look_up_when);
            proof {
                let held = choose|store: &mut TtlStore<K, V>| call_ensures(
                    TtlStore::<K, V>::look_up_when,
                    (store, (k, when, &self.inner.ttl)),
                    r,
                );
                assert(ttl_store::looks_up((*held)@, (*final(held))@, *k, r.1, Some(r.2), r.0));
                assert(self.renews_in(i, *k, when, r.0));
            }
            let ghost f = r.0;
            let value = self.settle(shard, r.0);
            assert(self.looks_up(*k, when, f));
            return value;
        }
        assert(self.has_refresh(false));
        let r = shard.read((k, when), TtlStore::glance_when);
        let ghost seen = choose|store: &TtlStore<K, V>| call_ensures(
            TtlStore::<K, V>::glance_when,
            (store, (k, when)),
            r,
        );
        let (g, now) = r;
        let f: Found<K, V> = match g {
            Glance::Absent => Found {
                value: None,
                evicted: None,
                tally: Tally { hits: 0, misses: 1, evictions: 0 },
            },
            Glance::Live(v) => Found {
                value: Some(v),
                evicted: None,
                tally: Tally { hits: 1, misses: 0, evictions: 0 },
            },
            Glance::Expired => {
                let f = shard.write((k, now), TtlStore::look_up_again);
                proof {
                    let held = choose|store: &mut TtlStore<K, V>| call_ensures(
                        TtlStore::<K, V>::look_up_again,
                        (store, (k, now)),
                        f,
                    );
                    assert(ttl_store::looks_up((*held)@, (*final(held))@, *k, now, None, f));
                }
                f
            },
        };
        assert(!(g is Expired) ==> ttl_store::looks_up(seen@, seen@, *k, now, None, f));
        assert(self.glances_in(i, *k, when, f));
        let ghost found = f;
        let value = self.settle(shard, f);
        assert(self.looks_up(*k, when, found));
        value
    }
}

impl<K: Hash + Eq, V: Clone, H: ShardHasher<K>> ShardedTtlCache<K, V, H> {
    /// A clone of the live value under `k` at `now`. Counts a hit or a miss; an expired entry is
    /// evicted.
    pub fn cache_get_at(&self, k: &K, now: Instant) -> (r: Result<Option<V>, Infallible>)
        requires
            self.wf(),
        ensures
            r matches Ok(value) && exists|f: Found<K, V>| #[trigger]
                self.looks_up(*k, Moment::At(now), f) && value == f.value,
    {
        Ok(self.get_when(k, Moment::At(now)))
    }

    /// A clone of the live value under `k`. Counts a hit or a miss; an expired entry is evicted.
    pub fn cache_get(&self, k: &K) -> (r: Result<Option<V>, Infallible>)
        requires
            self.wf(),
        ensures
            r matches Ok(value) && exists|f: Found<K, V>| #[trigger]
                self.looks_up(*k, Moment::Present(self.timepiece()), f) && value == f.value,
    {
        Ok(self.get_when(k, Moment::Present(self.clock())))
    }

    /// Writes `v` under `k` at `now`, and returns the value that it displaces unless that had
    /// expired; then it is evicted. The stored key is replaced.
    pub fn cache_set_at(&self, k: K, v: V, now: Instant) -> (r: Result<Option<V>, Infallible>)
        requires
            self.wf(),
        ensures
            r matches Ok(value) && exists|f: Found<K, V>| #[trigger]
                self.writes(k, v, now, f) && value == f.value,
    {
        let shard = self.shard_of(&k);
        let ghost i = choose|i: int| #[trigger] self.places(k, i) && self.is_shard(*shard, i);
        let ttl = self.inner.ttl.ttl();
        let ghost a = (k, v, now, ttl);
        let f = shard.write((k, v, now, ttl), TtlStore::put_all);
        proof {
            let held = choose|store: &mut TtlStore<K, V>| call_ensures(
                TtlStore::<K, V>::put_all,
                (store, a),
                f,
            );
            assert(ttl_store::writes((*held)@, (*final(held))@, a.0, a.1, now, ttl, f));
        }
        let ghost found = f;
        let value = self.settle(shard, f);
        assert(self.places(a.0, i));
        assert(self.writes(a.0, a.1, now, found));
        Ok(value)
    }

    /// Writes `v` under `k`, and returns the value that it displaces unless that had expired; then
    /// it is evicted. The stored key is replaced.
    pub fn cache_set(&self, k: K, v: V) -> (r: Result<Option<V>, Infallible>)
        requires
            self.wf(),
        ensures
            r matches Ok(value) && exists|now: Instant, f: Found<K, V>|
                self.timepiece().shows_after(v, now) && #[trigger] self.writes(k, v, now, f)
                    && value == f.value,
    {
        let now = self.inner.clock.now_after(&v);
        self.cache_set_at(k, v, now)
    }

    /// Evicts the entry of `k`, and returns its value unless it had expired when it was taken out.
    pub fn cache_remove(&self, k: &K) -> (r: Result<Option<V>, Infallible>)
        requires
            self.wf(),
        ensures
            r matches Ok(value) && exists|taken: Option<(K, TimedEntry<V>)>, now: Instant|
                {
                    &&& #[trigger] self.takes_out(*k, taken)
                    &&& #[trigger] self.timepiece().shows(now)
                    &&& value == ttl_store::value_unless_expired(taken, now)
                },
    {
        let (taken, shard) = self.take_key(k);
        let now = self.inner.clock.now();
        self.settle_taken(shard, &taken);
        assert(self.takes_out(*k, taken) && self.timepiece().shows(now));
        match taken {
            Some((_, entry)) => Ok(ttl_store::unless_expired(entry, now)),
            None => Ok(None),
        }
    }

    /// Evicts the entry of `k`, and returns it with its key even if it had expired.
    pub fn cache_remove_entry(&self, k: &K) -> (r: Result<Option<(K, V)>, Infallible>)
        requires
            self.wf(),
        ensures
            r matches Ok(removed) && exists|taken: Option<(K, TimedEntry<V>)>| #[trigger]
                self.takes_out(*k, taken) && removed == ttl_store::stripped(taken),
            r matches Ok(Some(e)) ==> e.0 == *k,
    {
        match self.evict_key(k) {
            Some((stored, entry)) => Ok(Some((stored, entry.value))),
            None => Ok(None),
        }
    }

    /// Evicts the entry of `k`, and tells whether there was one, expired or not.
    pub fn cache_delete(&self, k: &K) -> (r: Result<bool, Infallible>)
        requires
            self.wf(),
        ensures
            r matches Ok(b) && exists|taken: Option<(K, TimedEntry<V>)>| #[trigger]
                self.takes_out(*k, taken) && b == (taken is Some),
    {
        match self.evict_key(k) {
            Some(_) => Ok(true),
            None => Ok(false),
        }
    }

    /// Whether `v` is the value that a look-up of `k` found, or, where it found none, a value that
    /// `f` made, of which a clone was written.
    pub open spec fn gets_or_sets<F: FnOnce() -> V>(&self, k: K, f: F, v: V) -> bool {
        exists|found: Found<K, V>| #[trigger]
            self.looks_up(k, Moment::Present(self.timepiece()), found) && match found.value {
                Some(w) => v == w,
                None => f.ensures((), v) && self.writes_copy(k, v),
            }
    }

    /// Whether a clone of `v` was written under `k`.
    pub open spec fn writes_copy(&self, k: K, v: V) -> bool {
        exists|copy: V, now: Instant, f: Found<K, V>|
            {
                &&& cloned(v, copy)
                &&& self.timepiece().shows_after(copy, now)
                &&& #[trigger] self.writes(k, copy, now, f)
            }
    }

    /// A clone of the live value under `k`. Where there is none, `f` makes one, which is written.
    pub fn cache_get_or_set_with<F: FnOnce() -> V>(&self, k: K, f: F) -> (r: Result<V, Infallible>)
        requires
            self.wf(),
            f.requires(()),
        ensures
            r matches Ok(v) && self.gets_or_sets(k, f, v),
    {
        let found = self.get_when(&k, Moment::Present(self.clock()));
        if let Some(v) = found {
            return Ok(v);
        }
        let v = f();
        let copy = v.clone();
        let ghost key = k;
        let _ = self.cache_set(k, copy);
        assert(self.writes_copy(key, v));
        Ok(v)
    }

    /// Whether there is a live value under `k`, at an instant that is taken while its shard is
    /// locked.
    fn contains_when(&self, k: &K, when: Moment) -> (b: bool)
        requires
            self.wf(),
        ensures
            self.looks_for(*k, when, b),
    {
        let b = self.shard_of(k).read((k, when), TtlStore::contains_when);
        proof {
            let held = choose|store: &TtlStore<K, V>| call_ensures(
                TtlStore::<K, V>::contains_when,
                (store, (k, when)),
                b,
            );
            let now = choose|now: Instant|
                when.allows(now) && b == #[trigger] ttl_store::live(held@, *k, now);
            assert(when.allows(now) && b == ttl_store::live(held@, *k, now));
        }
        b
    }

    /// Whether there is a live value under `k` at `now`. Nothing is counted or renewed.
    pub fn cache_contains_at(&self, k: &K, now: Instant) -> (r: Result<bool, Infallible>)
        requires
            self.wf(),
        ensures
            r matches Ok(b) && self.looks_for(*k, Moment::At(now), b),
    {
        Ok(self.contains_when(k, Moment::At(now)))
    }

    /// Whether there is a live value under `k`. Nothing is counted or renewed.
    pub fn cache_contains(&self, k: &K) -> (r: Result<bool, Infallible>)
        requires
            self.wf(),
        ensures
            r matches Ok(b) && self.looks_for(*k, Moment::Present(self.timepiece()), b),
    {
        Ok(self.contains_when(k, Moment::Present(self.clock())))
    }

    /// A clone of the live value under `k`, at an instant that is taken while its shard is locked.
    fn peek_when(&self, k: &K, when: Moment) -> (value: Option<V>)
        requires
            self.wf(),
        ensures
            self.peeks(*k, when, value),
    {
        let shard = self.shard_of(k);
        let ghost i = choose|i: int| #[trigger] self.places(*k, i) && self.is_shard(*shard, i);
        let r = shard.read((k, when), TtlStore::glance_when);
        assert(self.places(*k, i) && self.is_shard(*shard, i));
        let ghost seen = choose|store: &TtlStore<K, V>| call_ensures(
            TtlStore::<K, V>::glance_when,
            (store, (k, when)),
            r,
        );
        let ghost now = r.1;
        match r.0 {
            Glance::Live(v) => {
                assert(ttl_store::answers(seen@, *k, now, Some(v)));
                Some(v)
            },
            _ => {
                assert(ttl_store::answers(seen@, *k, now, None));
                None
            },
        }
    }

    /// A clone of the live value under `k` at `now`. Nothing is counted or renewed.
    #[must_use]
    pub fn peek_at(&self, k: &K, now: Instant) -> (value: Option<V>)
        requires
            self.wf(),
        ensures
            self.peeks(*k, Moment::At(now), value),
    {
        self.peek_when(k, Moment::At(now))
    }

    /// A clone of the live value under `k`. Nothing is counted or renewed.
    #[must_use]
    pub fn peek(&self, k: &K) -> (value: Option<V>)
        requires
            self.wf(),
        ensures
            self.peeks(*k, Moment::Present(self.timepiece()), value),
    {
        self.peek_when(k, Moment::Present(self.clock()))
    }

    /// [`peek`](Self::peek), as a result.
    pub fn cache_peek(&self, k: &K) -> (r: Result<Option<V>, Infallible>)
        requires
            self.wf(),
        ensures
            r matches Ok(value) && self.peeks(*k, Moment::Present(self.timepiece()), value),
    {
        Ok(self.peek(k))
    }

    /// A clone of the value under `k`, expired or not, and whether it has expired, at an instant
    /// that is taken while its shard is locked. Counts a hit for a live value, which may renew the
    /// entry, and a miss otherwise.
    fn get_status_when(&self, k: &K, when: Moment) -> (r: (Option<V>, bool))
        requires
            self.wf(),
        ensures
            self.looks_up_status(*k, when, r),
    {
        let shard = self.shard_of(k);
        let ghost i = choose|i: int| #[trigger] self.places(*k, i) && self.is_shard(*shard, i);
        let refresh: bool = self.refresh_on_hit();
        let r: (Option<V>, bool) = if refresh {
            let s = shard.write((k, when, &self.inner.ttl), TtlStore::status_renewing_when);
            proof {
                let held = choose|store: &mut TtlStore<K, V>| call_ensures(
                    TtlStore::<K, V>::status_renewing_when,
                    (store, (k, when, &self.inner.ttl)),
                    s,
                );
                assert(ttl_store::reads_status(
                    (*held)@,
                    (*final(held))@,
                    *k,
                    s.1,
                    Some(s.2),
                    s.0,
                ));
                assert(self.renews_status_in(i, *k, when, s.0));
            }
            s.0
        } else {
            let s = shard.read((k, when), TtlStore::status_when);
            proof {
                let held = choose|store: &TtlStore<K, V>| call_ensures(
                    TtlStore::<K, V>::status_when,
                    (store, (k, when)),
                    s,
                );
                assert(ttl_store::reads_status(held@, held@, *k, s.1, None, s.0));
                assert(self.reads_status_in(i, *k, when, s.0));
            }
            s.0
        };
        shard.count_reads(ttl_store::tally_status(&r));
        assert(self.has_refresh(refresh));
        assert(self.explains_status(*k, when, r));
        r
    }

    /// A clone of the value under `k`, expired or not, and whether it has expired, at an instant
    /// that is taken while its shard is locked.
    fn peek_status_when(&self, k: &K, when: Moment) -> (r: (Option<V>, bool))
        requires
            self.wf(),
        ensures
            self.peeks_status(*k, when, r),
    {
        let shard = self.shard_of(k);
        let ghost i = choose|i: int| #[trigger] self.places(*k, i) && self.is_shard(*shard, i);
        let s = shard.read((k, when), TtlStore::status_when);
        proof {
            let held = choose|store: &TtlStore<K, V>| call_ensures(
                TtlStore::<K, V>::status_when,
                (store, (k, when)),
                s,
            );
            assert(ttl_store::reports(held@, *k, s.1, s.0));
            assert(self.reads_status_in(i, *k, when, s.0));
        }
        s.0
    }

    /// A clone of the value under `k`, expired or not, and whether it has expired at `now`. Counts
    /// a hit for a live value, which may renew the entry, and a miss otherwise; nothing is evicted.
    pub fn cache_get_with_expiry_status_at(&self, k: &K, now: Instant) -> (r: (Option<V>, bool))
        requires
            self.wf(),
        ensures
            self.looks_up_status(*k, Moment::At(now), r),
    {
        self.get_status_when(k, Moment::At(now))
    }

    /// A clone of the value under `k`, expired or not, and whether it has expired. Counts a hit
    /// for a live value, which may renew the entry, and a miss otherwise; nothing is evicted.
    pub fn cache_get_with_expiry_status(&self, k: &K) -> (r: (Option<V>, bool))
        requires
            self.wf(),
        ensures
            self.looks_up_status(*k, Moment::Present(self.timepiece()), r),
    {
        self.get_status_when(k, Moment::Present(self.clock()))
    }

    /// A clone of the value under `k`, expired or not, and whether it has expired at `now`.
    /// Nothing is counted or renewed.
    pub fn cache_peek_with_expiry_status_at(&self, k: &K, now: Instant) -> (r: (Option<V>, bool))
        requires
            self.wf(),
        ensures
            self.peeks_status(*k, Moment::At(now), r),
    {
        self.peek_status_when(k, Moment::At(now))
    }

    /// A clone of the value under `k`, expired or not, and whether it has expired. Nothing is
    /// counted or renewed.
    pub fn cache_peek_with_expiry_status(&self, k: &K) -> (r: (Option<V>, bool))
        requires
            self.wf(),
        ensures
            self.peeks_status(*k, Moment::Present(self.timepiece()), r),
    {
        self.peek_status_when(k, Moment::Present(self.clock()))
    }

    /// A clone of the live value under `k`; see [`cache_get`](Self::cache_get).
    #[must_use]
    pub fn get(&self, k: &K) -> (value: Option<V>)
        requires
            self.wf(),
        ensures
            exists|f: Found<K, V>| #[trigger]
                self.looks_up(*k, Moment::Present(self.timepiece()), f) && value == f.value,
    {
        self.cache_get(k).unwrap()
    }

    /// Writes `v` under `k`; see [`cache_set`](Self::cache_set).
    pub fn set(&self, k: K, v: V) -> (value: Option<V>)
        requires
            self.wf(),
        ensures
            exists|now: Instant, f: Found<K, V>|
                self.timepiece().shows_after(v, now) && #[trigger] self.writes(k, v, now, f)
                    && value == f.value,
    {
        self.cache_set(k, v).unwrap()
    }

    /// A clone of the live value under `k`, or one that `f` makes; see
    /// [`cache_get_or_set_with`](Self::cache_get_or_set_with).
    pub fn get_or_set_with<F: FnOnce() -> V>(&self, k: K, f: F) -> (v: V)
        requires
            self.wf(),
            f.requires(()),
        ensures
            self.gets_or_sets(k, f, v),
    {
        self.cache_get_or_set_with(k, f).unwrap()
    }

    /// Evicts the entry of `k`; see [`cache_remove`](Self::cache_remove).
    pub fn remove(&self, k: &K) -> (value: Option<V>)
        requires
            self.wf(),
        ensures
            exists|taken: Option<(K, TimedEntry<V>)>, now: Instant|
                {
                    &&& #[trigger] self.takes_out(*k, taken)
                    &&& #[trigger] self.timepiece().shows(now)
                    &&& value == ttl_store::value_unless_expired(taken, now)
                },
    {
        self.cache_remove(k).unwrap()
    }

    /// Evicts the entry of `k`; see [`cache_remove_entry`](Self::cache_remove_entry).
    pub fn remove_entry(&self, k: &K) -> (removed: Option<(K, V)>)
        requires
            self.wf(),
        ensures
            exists|taken: Option<(K, TimedEntry<V>)>| #[trigger]
                self.takes_out(*k, taken) && removed == ttl_store::stripped(taken),
            removed matches Some(e) ==> e.0 == *k,
    {
        self.cache_remove_entry(k).unwrap()
    }

    /// Evicts the entry of `k`; see [`cache_delete`](Self::cache_delete).
    pub fn delete(&self, k: &K) -> (b: bool)
        requires
            self.wf(),
        ensures
            exists|taken: Option<(K, TimedEntry<V>)>| #[trigger]
                self.takes_out(*k, taken) && b == (taken is Some),
    {
        self.cache_delete(k).unwrap()
    }

    /// Whether there is a live value under `k`; see [`cache_contains`](Self::cache_contains).
    #[must_use]
    pub fn contains(&self, k: &K) -> (b: bool)
        requires
            self.wf(),
        ensures
            self.looks_for(*k, Moment::Present(self.timepiece()), b),
    {
        self.cache_contains(k).unwrap()
    }
}

impl<K: Hash + Eq, V, H: ShardHasher<K>> ShardedTtlCache<K, V, H> {
    /// The counters of each shard.
    fn all_counts(&self) -> (r: (Vec<u64>, Vec<u64>, Vec<u64>))
        ensures
            r.0.len() == self.shard_count(),
            r.1.len() == self.shard_count(),
            r.2.len() == self.shard_count(),
            exists|tallies: Seq<Tally>|
                {
                    &&& #[trigger] self.tallied(tallies)
                    &&& r.0@ == shard::hits_of(tallies)
                    &&& r.1@ == shard::misses_of(tallies)
                    &&& r.2@ == shard::evictions_of(tallies)
                },
    {
        let mut hits: Vec<u64> = Vec::new();
        let mut misses: Vec<u64> = Vec::new();
        let mut evictions: Vec<u64> = Vec::new();
        let mut i: usize = 0;
        let ghost mut tallies: Seq<Tally> = Seq::empty();
        while i < self.inner.shards.len()
            invariant
                i <= self.inner.shards.len(),
                tallies.len() == i,
                forall|j: int|
                    0 <= j < i ==> self.inner.shards[j].counted(#[trigger] tallies[j]),
                hits@ == shard::hits_of(tallies),
                misses@ == shard::misses_of(tallies),
                evictions@ == shard::evictions_of(tallies),
            decreases self.inner.shards.len() - i,
        {
            let counts = self.inner.shards[i].counts();
            hits.push(counts.hits);
            misses.push(counts.misses);
            evictions.push(counts.evictions);
            proof {
                tallies = tallies.push(counts);
            }
            i += 1;
        }
        assert(self.tallied(tallies));
        (hits, misses, evictions)
    }

    /// The number of entries in each shard, expired ones among them.
    #[must_use]
    pub fn shard_sizes(&self) -> (sizes: Vec<usize>)
        ensures
            sizes.len() == self.shard_count(),
            self.measures(sizes@),
    {
        let mut sizes: Vec<usize> = Vec::new();
        let mut i: usize = 0;
        while i < self.inner.shards.len()
            invariant
                i <= self.inner.shards.len(),
                sizes.len() == i,
                forall|j: int|
                    0 <= j < i ==> call_ensures(
                        Shard::read,
                        (&self.inner.shards[j], (), TtlStore::<K, V>::measure),
                        #[trigger] sizes[j],
                    ),
            decreases self.inner.shards.len() - i,
        {
            sizes.push(self.inner.shards[i].read((), TtlStore::measure));
            i += 1;
        }
        sizes
    }

    /// The number of evictions that each shard has counted.
    pub fn shard_evictions(&self) -> (counts: Vec<u64>)
        ensures
            counts.len() == self.shard_count(),
            exists|tallies: Seq<Tally>| #[trigger]
                self.tallied(tallies) && counts@ == shard::evictions_of(tallies),
    {
        self.all_counts().2
    }

    /// The number of entries, expired ones among them. Other threads may change it meanwhile.
    #[must_use]
    pub fn len(&self) -> (n: usize)
        ensures
            exists|sizes: Seq<usize>| #[trigger]
                self.measures(sizes) && n == shard::capped_size(sizes),
    {
        shard::sum_sizes(&self.shard_sizes())
    }

    /// Whether no shard has an entry. Other threads may change it meanwhile.
    #[must_use]
    pub fn is_empty(&self) -> (b: bool)
        ensures
            exists|sizes: Seq<usize>| #[trigger]
                self.measures(sizes) && b == (forall|i: int|
                    0 <= i < sizes.len() ==> #[trigger] sizes[i] == 0),
    {
        let sizes = self.shard_sizes();
        let mut i: usize = 0;
        while i < sizes.len()
            invariant
                i <= sizes.len(),
                self.measures(sizes@),
                forall|j: int| 0 <= j < i ==> #[trigger] sizes@[j] == 0,
            decreases sizes.len() - i,
        {
            if sizes[i] > 0 {
                return false;
            }
            i += 1;
        }
        true
    }

    /// The counters, summed over the shards, which other threads may change meanwhile.
    #[must_use]
    pub fn metrics(&self) -> (m: CacheMetrics)
        ensures
            exists|tallies: Seq<Tally>, sizes: Seq<usize>|
                {
                    &&& #[trigger] self.tallied(tallies)
                    &&& #[trigger] self.measures(sizes)
                    &&& m == (CacheMetrics {
                        hits: Some(shard::wrapped(shard::hits_of(tallies))),
                        misses: Some(shard::wrapped(shard::misses_of(tallies))),
                        evictions: Some(shard::wrapped(shard::evictions_of(tallies))),
                        entry_count: Some(shard::capped_size(sizes) as usize),
                        capacity: None,
                    })
                },
    {
        let (hits, misses, evictions) = self.all_counts();
        CacheMetrics {
            hits: Some(shard::sum_counts(&hits)),
            misses: Some(shard::sum_counts(&misses)),
            evictions: Some(shard::sum_counts(&evictions)),
            entry_count: Some(self.len()),
            capacity: None,
        }
    }

    pub fn cache_size(&self) -> (r: Result<Option<usize>, Infallible>)
        ensures
            r matches Ok(Some(n)) && exists|sizes: Seq<usize>| #[trigger]
                self.measures(sizes) && n == shard::capped_size(sizes),
    {
        Ok(Some(self.len()))
    }

    pub fn cache_hits(&self) -> (r: Option<u64>)
        ensures
            exists|tallies: Seq<Tally>| #[trigger]
                self.tallied(tallies) && r == Some(shard::wrapped(shard::hits_of(tallies))),
    {
        Some(shard::sum_counts(&self.all_counts().0))
    }

    pub fn cache_misses(&self) -> (r: Option<u64>)
        ensures
            exists|tallies: Seq<Tally>| #[trigger]
                self.tallied(tallies) && r == Some(shard::wrapped(shard::misses_of(tallies))),
    {
        Some(shard::sum_counts(&self.all_counts().1))
    }

    pub fn cache_evictions(&self) -> (r: Option<u64>)
        ensures
            exists|tallies: Seq<Tally>| #[trigger]
                self.tallied(tallies) && r == Some(shard::wrapped(shard::evictions_of(tallies))),
    {
        Some(shard::sum_counts(&self.all_counts().2))
    }

    /// Removes all entries, shard by shard. None counts as evicted, and the callback is not called.
    pub fn clear(&self)
        ensures
            self.wiped(),
    {
        let mut i: usize = 0;
        while i < self.inner.shards.len()
            invariant
                i <= self.inner.shards.len(),
                forall|j: int| 0 <= j < i ==> #[trigger] self.wiped_shard(j),
            decreases self.inner.shards.len() - i,
        {
            let _ = self.inner.shards[i].write((), TtlStore::wipe);
            assert(self.wiped_shard(i as int));
            i += 1;
        }
    }

    /// [`clear`](Self::clear), as a result.
    pub fn cache_clear(&self) -> (r: Result<(), Infallible>)
        ensures
            r is Ok,
            self.wiped(),
    {
        self.clear();
        Ok(())
    }

    /// Zeroes the counters.
    pub fn cache_reset_metrics(&self) -> (r: Result<(), Infallible>)
        ensures
            r is Ok,
            self.zeroed(),
    {
        let mut i: usize = 0;
        while i < self.inner.shards.len()
            invariant
                i <= self.inner.shards.len(),
                forall|j: int| 0 <= j < i ==> (#[trigger] self.inner.shards[j]).zeroed(),
            decreases self.inner.shards.len() - i,
        {
            self.inner.shards[i].reset_counts();
            i += 1;
        }
        Ok(())
    }

    /// Removes all entries and zeroes the counters. The callback is not called.
    pub fn cache_reset(&self) -> (r: Result<(), Infallible>)
        ensures
            r is Ok,
            self.wiped(),
            self.zeroed(),
    {
        self.clear();
        self.cache_reset_metrics()
    }

    /// Removes all entries and zeroes the counters. The callback is not called.
    pub fn reset(&self)
        ensures
            self.wiped(),
            self.zeroed(),
    {
        let _ = self.cache_reset();
    }

    /// Evicts the entries of the shard `i` that have expired at `now`, and returns their number.
    fn sweep_shard(&self, i: usize, now: Instant) -> (n: usize)
        requires
            self.wf(),
            i < self.shard_count(),
        ensures
            self.sweeps_shard(i as int, now, n),
    {
        let shard = &self.inner.shards[i];
        let removed = shard.write(now, TtlStore::take_expired);
        proof {
            let held = choose|store: &mut TtlStore<K, V>| call_ensures(
                TtlStore::<K, V>::take_expired,
                (store, now),
                removed,
            );
            assert(sweep::sweeps((*held)@, now, sweep::taken_keys(removed@)));
        }
        self.settle_removed(shard, &removed);
        assert(self.is_shard(*shard, i as int));
        removed.len()
    }

    /// Evicts the entries of the shard `i` that have expired at `now` or that `keep` rejects, and
    /// returns their number, with `keep`.
    fn sift_shard<F: FnMut(&K, &V) -> bool>(&self, i: usize, keep: F, now: Instant) -> (r: (
        usize,
        F,
    ))
        requires
            self.wf(),
            i < self.shard_count(),
            forall|k: &K, v: &V| keep.requires((k, v)),
        ensures
            r.1 == keep,
            self.sifts_shard(i as int, keep, now, r.0),
    {
        let shard = &self.inner.shards[i];
        let ghost a = (keep, now);
        let (removed, asked) = shard.write((keep, now), TtlStore::sift);
        proof {
            let held = choose|store: &mut TtlStore<K, V>| call_ensures(
                TtlStore::<K, V>::sift::<F>,
                (store, a),
                (removed, asked),
            );
            assert(sweep::retains((*held)@, a.0, now, sweep::taken_keys(removed@)));
        }
        self.settle_removed(shard, &removed);
        assert(self.is_shard(*shard, i as int));
        (removed.len(), asked)
    }

    /// Stores `entry` under `k`. Nothing is counted, and the callback is not called.
    fn install(&self, k: K, entry: TimedEntry<V>)
        requires
            self.wf(),
        ensures
            self.installs(k, entry),
    {
        let shard = self.shard_of(&k);
        let ghost i = choose|i: int| #[trigger] self.places(k, i) && self.is_shard(*shard, i);
        let ghost a = (k, entry);
        let former = shard.write((k, entry), TtlStore::install);
        assert(self.places(a.0, i) && call_ensures(
            Shard::write,
            (&self.shard(i), a, TtlStore::<K, V>::install),
            former,
        ));
    }

    /// Evicts all entries, shard by shard: each counts, whether or not there is a callback.
    pub fn cache_clear_with_on_evict(&self)
        requires
            self.wf(),
        ensures
            self.drained(),
    {
        let mut i: usize = 0;
        while i < self.inner.shards.len()
            invariant
                self.wf(),
                i <= self.inner.shards.len(),
                forall|j: int| 0 <= j < i ==> #[trigger] self.drained_shard(j),
            decreases self.inner.shards.len() - i,
        {
            let shard = &self.inner.shards[i];
            let removed = shard.write((), TtlStore::take_all);
            self.settle_removed(shard, &removed);
            assert(self.is_shard(*shard, i as int));
            assert(self.drained_shard(i as int));
            i += 1;
        }
    }

    /// Evicts the entries that have expired at `now`, shard by shard, and returns their number.
    pub fn evict_at(&self, now: Instant) -> (n: usize)
        requires
            self.wf(),
        ensures
            exists|counts: Seq<usize>|
                {
                    &&& #[trigger] self.sweeps(now, counts)
                    &&& n == shard::capped_size(counts)
                },
    {
        let mut removed_sizes: Vec<usize> = Vec::new();
        let mut i: usize = 0;
        while i < self.inner.shards.len()
            invariant
                self.wf(),
                i <= self.inner.shards.len(),
                removed_sizes.len() == i,
                forall|j: int|
                    0 <= j < i ==> self.sweeps_shard(j, now, #[trigger] removed_sizes[j]),
            decreases self.inner.shards.len() - i,
        {
            removed_sizes.push(self.sweep_shard(i, now));
            i += 1;
        }
        assert(self.sweeps(now, removed_sizes@));
        shard::sum_sizes(&removed_sizes)
    }

    /// Evicts the expired entries, shard by shard, all judged at the same instant, and returns
    /// their number.
    #[must_use]
    pub fn evict(&self) -> (n: usize)
        requires
            self.wf(),
        ensures
            exists|counts: Seq<usize>, now: Instant|
                {
                    &&& self.timepiece().shows(now)
                    &&& #[trigger] self.sweeps(now, counts)
                    &&& n == shard::capped_size(counts)
                },
    {
        let now = self.inner.clock.now();
        self.evict_at(now)
    }

    /// Evicts the entries that have expired at `now` or that `keep` rejects, shard by shard, and
    /// returns their number. In each shard, `keep` is asked before the first entry leaves.
    pub fn retain_at<F: FnMut(&K, &V) -> bool>(&self, keep: F, now: Instant) -> (n: usize)
        requires
            self.wf(),
            forall|k: &K, v: &V| keep.requires((k, v)),
        ensures
            exists|counts: Seq<usize>|
                {
                    &&& #[trigger] self.sifts(keep, now, counts)
                    &&& n == shard::capped_size(counts)
                },
    {
        let mut keep = keep;
        let ghost keep0 = keep;
        let mut removed_sizes: Vec<usize> = Vec::new();
        let mut i: usize = 0;
        while i < self.inner.shards.len()
            invariant
                self.wf(),
                i <= self.inner.shards.len(),
                keep == keep0,
                forall|k: &K, v: &V| keep0.requires((k, v)),
                removed_sizes.len() == i,
                forall|j: int|
                    0 <= j < i ==> self.sifts_shard(j, keep0, now, #[trigger] removed_sizes[j]),
            decreases self.inner.shards.len() - i,
        {
            let (removed, asked) = self.sift_shard(i, keep, now);
            keep = asked;
            removed_sizes.push(removed);
            i += 1;
        }
        assert(self.sifts(keep0, now, removed_sizes@));
        shard::sum_sizes(&removed_sizes)
    }

    /// Evicts the entries that have expired or that `keep` rejects; see
    /// [`retain_at`](Self::retain_at). All are judged at the same instant.
    pub fn retain<F: FnMut(&K, &V) -> bool>(&self, keep: F) -> (n: usize)
        requires
            self.wf(),
            forall|k: &K, v: &V| keep.requires((k, v)),
        ensures
            exists|counts: Seq<usize>, now: Instant|
                {
                    &&& self.timepiece().shows(now)
                    &&& #[trigger] self.sifts(keep, now, counts)
                    &&& n == shard::capped_size(counts)
                },
    {
        let now = self.inner.clock.now();
        self.retain_at(keep, now)
    }
}

impl<K: Hash + Eq, V, H: ShardHasher<K>> ConcurrentCacheExpiry<K, V> for ShardedTtlCache<K, V, H> {
    open spec fn readable(&self) -> bool {
        self.wf()
    }

    open spec fn peeked(&self, k: K, r: (Option<V>, Option<Instant>)) -> bool where V: Clone {
        self.reads_entry(k, r)
    }

    open spec fn found(&self, k: K, r: (bool, Option<Instant>)) -> bool {
        self.reads_deadline(k, r)
    }

    fn cache_peek_expires_at(&self, k: &K) -> (r: (Option<V>, Option<Instant>)) where V: Clone {
        let r = self.shard_of(k).read(k, TtlStore::peek_expires_at);
        proof {
            let held = choose|store: &TtlStore<K, V>| call_ensures(
                TtlStore::<K, V>::peek_expires_at,
                (store, k),
                r,
            );
            assert(expiry::peeks(held@, *k, r));
        }
        r
    }

    fn cache_expires_at(&self, k: &K) -> (r: (bool, Option<Instant>)) {
        let r = self.shard_of(k).read(k, TtlStore::expires_at);
        proof {
            let held = choose|store: &TtlStore<K, V>| call_ensures(
                TtlStore::<K, V>::expires_at,
                (store, k),
                r,
            );
            assert(expiry::finds(held@, *k, r));
        }
        r
    }
}

impl<K: Hash + Eq, V, H: ShardHasher<K>> ConcurrentCacheEvict for ShardedTtlCache<K, V, H> {
    open spec fn sweepable(&self) -> bool {
        self.wf()
    }

    open spec fn swept(&self, n: usize) -> bool {
        exists|counts: Seq<usize>, now: Instant|
            {
                &&& self.timepiece().shows(now)
                &&& #[trigger] self.sweeps(now, counts)
                &&& n == shard::capped_size(counts)
            }
    }

    fn evict(&self) -> (n: usize) {
        ShardedTtlCache::evict(self)
    }
}

impl<K: Hash + Eq + Clone, V: Clone, H: ShardHasher<K>> ShardedTtlCache<K, V, H> {
    /// A cache of its own with copies of the entries, the counters and the settings, and the same
    /// callback. Each shard is copied while no thread can change it.
    #[must_use]
    pub fn deep_clone(&self) -> (c: Self)
        requires
            self.wf(),
        ensures
            c.wf(),
            c.duplicates(*self),
    {
        let mut shards: Vec<Shard<TtlStore<K, V>>> = Vec::new();
        let mut i: usize = 0;
        while i < self.inner.shards.len()
            invariant
                i <= self.inner.shards.len(),
                shards.len() == i,
                forall|j: int|
                    0 <= j < i ==> copied_shard(self.inner.shards[j], #[trigger] shards[j]),
            decreases self.inner.shards.len() - i,
        {
            let shard = &self.inner.shards[i];
            let (store, tally) = shard.read(shard, TtlStore::copy_with_counts);
            proof {
                let held = choose|held: &TtlStore<K, V>| call_ensures(
                    TtlStore::<K, V>::copy_with_counts,
                    (held, shard),
                    (store, tally),
                );
                assert(expiry::copies(held@, store@));
            }
            shards.push(Shard::new(store, tally));
            assert(copied_shard(*shard, shards[i as int]));
            i += 1;
        }
        let nanos: u64 = self.inner.ttl.nanos();
        let refresh: bool = self.inner.refresh.get();
        assert(self.has_ttl(nanos) && self.has_refresh(refresh));
        ShardedTtlCache {
            inner: Arc::new(
                TtlInner {
                    shards,
                    shard_mask: self.inner.shard_mask,
                    hasher: self.inner.hasher.clone(),
                    on_evict: share_on_evict(&self.inner.on_evict),
                    ttl: SharedTtl::new(nanos),
                    refresh: SharedFlag::new(refresh),
                    clock: self.inner.clock,
                },
            ),
        }
    }
}

/// A look-up is a hit or a miss of the shard of its key, and counted there. A hit evicts nothing. A
/// miss returns nothing, and evicts at most the entry of the key, which then is counted, and told
/// to the callback.
pub proof fn law_look_up_is_settled<K: Hash + Eq, V: Clone, H: ShardHasher<K>>(
    c: ShardedTtlCache<K, V, H>,
    k: K,
    when: Moment,
    f: Found<K, V>,
)
    requires
        c.looks_up(k, when, f),
    ensures
        exists|i: int|
            {
                &&& #[trigger] c.places(k, i)
                &&& c.shard(i).adds_reads(f.tally)
                &&& c.shard(i).adds_evictions(f.tally.evictions)
            },
        f.value is Some ==> f.tally == Tally::hit() && f.evicted is None,
        f.value is None && f.evicted is None ==> f.tally == Tally::miss(0),
        f.evicted matches Some(e) ==> {
            &&& f.value is None
            &&& f.tally == Tally::miss(1)
            &&& e.0 == k
            &&& exists|now: Instant| #[trigger] when.allows(now) && e.1.expired(now)
            &&& shard::told(c.callback(), e.0, e.1.value)
        },
{
}

/// A write is neither a hit nor a miss. It evicts the entry that it displaces if that had expired,
/// which then is counted, and told to the callback; else it returns the displaced value.
pub proof fn law_write_is_settled<K: Hash + Eq, V, H: ShardHasher<K>>(
    c: ShardedTtlCache<K, V, H>,
    k: K,
    v: V,
    now: Instant,
    f: Found<K, V>,
)
    requires
        c.writes(k, v, now, f),
    ensures
        exists|i: int| #[trigger]
            c.places(k, i) && c.shard(i).adds_evictions(f.tally.evictions),
        f.tally.hits == 0 && f.tally.misses == 0,
        f.evicted is None ==> f.tally.evictions == 0,
        f.evicted matches Some(e) ==> {
            &&& f.value is None
            &&& f.tally.evictions == 1
            &&& e.0 == k
            &&& e.1.expired(now)
            &&& shard::told(c.callback(), e.0, e.1.value)
        },
{
}

/// What is taken out is the entry of the key. It is told to the callback, and its value is handed
/// out unless it had expired.
pub proof fn law_removal_is_settled<K: Hash + Eq, V, H: ShardHasher<K>>(
    c: ShardedTtlCache<K, V, H>,
    k: K,
    taken: Option<(K, TimedEntry<V>)>,
    now: Instant,
)
    requires
        c.takes_out(k, taken),
    ensures
        taken matches Some(e) ==> {
            &&& e.0 == k
            &&& shard::told(c.callback(), e.0, e.1.value)
            &&& exists|i: int| #[trigger] c.places(k, i) && c.shard(i).adds_evictions(1)
            &&& ttl_store::value_unless_expired(taken, now) == if e.1.expired(now) {
                None
            } else {
                Some(e.1.value)
            }
        },
        taken is None ==> ttl_store::value_unless_expired(taken, now) is None,
{
    if let Some(e) = taken {
        assert(seq![e][0] == e);
    }
}

/// The shard of a key is one of those of the cache, chosen by the upper half of a hash that its
/// hasher gives of the key.
pub proof fn law_hash_chooses_the_shard<K: Hash + Eq, V, H: ShardHasher<K>>(
    c: ShardedTtlCache<K, V, H>,
    k: K,
    i: int,
)
    requires
        c.wf(),
        c.places(k, i),
    ensures
        0 <= i < c.shard_count(),
        exists|h: u64| #[trigger]
            hasher::hashes(c.shard_hasher(), k, h) && i == ((h / 0x1_0000_0000) as usize) & ((
            c.shard_count() - 1) as usize),
{
    let h = choose|h: u64| #[trigger]
        hasher::hashes(c.inner.hasher, k, h) && i == hasher::index_of(h, c.inner.shard_mask);
    hasher::lemma_index_in_range(h, c.inner.shard_mask);
    crate::stores::sharded::laws::law_upper_bits_choose(h, c.inner.shard_mask);
    assert(hasher::hashes(c.shard_hasher(), k, h));
}

/// A copy whose hasher is the same has each key in the shard with the same number, so that a look-up
/// in the copy searches the shard that was made of the one that held the key.
pub proof fn law_same_hasher_same_shards<K: Hash + Eq + Clone, V: Clone, H: ShardHasher<K>>(
    c: ShardedTtlCache<K, V, H>,
    source: ShardedTtlCache<K, V, H>,
    k: K,
    i: int,
)
    requires
        c.wf(),
        source.wf(),
        c.duplicates(source),
        c.shard_hasher() == source.shard_hasher(),
    ensures
        c.places(k, i) <==> source.places(k, i),
        source.places(k, i) ==> 0 <= i < c.shard_count() && copied_shard(
            source.shard(i),
            c.shard(i),
        ),
{
    assert forall|h: u64| 0 <= #[trigger] hasher::index_of(h, source.inner.shard_mask)
        < source.shard_count() by {
        hasher::lemma_index_in_range(h, source.inner.shard_mask);
    }
}

/// A copy of a cache that chooses shards with the default hasher has each key in the shard with
/// the same number.
pub proof fn law_copy_finds_its_keys<K: Hash + Eq + Clone, V: Clone>(
    c: ShardedTtlCache<K, V, DefaultShardHasher>,
    source: ShardedTtlCache<K, V, DefaultShardHasher>,
    k: K,
    i: int,
)
    requires
        c.wf(),
        source.wf(),
        c.duplicates(source),
    ensures
        c.places(k, i) <==> source.places(k, i),
        source.places(k, i) ==> 0 <= i < c.shard_count() && copied_shard(
            source.shard(i),
            c.shard(i),
        ),
{
    law_same_hasher_same_shards(c, source, k, i);
}

/// The settings of a [`ShardedTtlCache`] to be.
#[verifier::reject_recursive_types(K)]
#[verifier::reject_recursive_types(V)]
pub struct ShardedTtlCacheBuilder<K, V, H = DefaultShardHasher> {
    pub shards: Option<usize>,
    pub per_shard_initial_capacity: Option<usize>,
    pub ttl: Option<Duration>,
    pub refresh: bool,
    pub hasher: H,
    pub on_evict: Option<OnEvict<K, V>>,
}

impl<K, V> Default for ShardedTtlCacheBuilder<K, V, DefaultShardHasher> {
    fn default() -> (b: Self)
        ensures
            b.shards is None,
            b.per_shard_initial_capacity is None,
            b.ttl is None,
            !b.refresh,
            b.on_evict is None,
    {
        ShardedTtlCacheBuilder {
            shards: None,
            per_shard_initial_capacity: None,
            ttl: None,
            refresh: false,
            hasher: DefaultShardHasher::default(),
            on_evict: None,
        }
    }
}

impl<K, V> ShardedTtlCacheBuilder<K, V> {
    /// A builder without any setting.
    #[must_use]
    pub fn new() -> (b: Self)
        ensures
            b.shards is None,
            b.per_shard_initial_capacity is None,
            b.ttl is None,
            !b.refresh,
            b.on_evict is None,
    {
        Self::default()
    }
}

impl<K, V, H> ShardedTtlCacheBuilder<K, V, H> {
    /// Whether the callback, if there is one, takes any entry.
    pub open spec fn wf(&self) -> bool {
        self.on_evict matches Some(f) ==> f.attentive()
    }

    /// Sets the time to live of entries, in place of any that was set before.
    #[must_use]
    pub fn ttl(self, ttl: Duration) -> (b: Self)
        ensures
            b == (ShardedTtlCacheBuilder { ttl: Some(ttl), ..self }),
    {
        ShardedTtlCacheBuilder { ttl: Some(ttl), ..self }
    }

    /// Sets the time to live of entries in seconds, in place of any that was set before.
    #[must_use]
    pub fn ttl_secs(self, secs: u64) -> (b: Self)
        ensures
            b == (ShardedTtlCacheBuilder {
                ttl: Some(Duration { nanos: (secs * 1_000_000_000) as u128 }),
                ..self
            }),
    {
        self.ttl(Duration::from_secs(secs))
    }

    /// Sets the time to live of entries in milliseconds, in place of any that was set before.
    #[must_use]
    pub fn ttl_millis(self, millis: u64) -> (b: Self)
        ensures
            b == (ShardedTtlCacheBuilder {
                ttl: Some(Duration { nanos: (millis * 1_000_000) as u128 }),
                ..self
            }),
    {
        self.ttl(Duration::from_millis(millis))
    }

    /// Sets the number of shards, which is rounded up to a power of two.
    #[must_use]
    pub fn shards(self, shards: usize) -> (b: Self)
        ensures
            b == (ShardedTtlCacheBuilder { shards: Some(shards), ..self }),
    {
        ShardedTtlCacheBuilder { shards: Some(shards), ..self }
    }

    /// Makes room for `capacity` entries in each shard, where there is memory for them.
    #[must_use]
    pub fn per_shard_initial_capacity(self, capacity: usize) -> (b: Self)
        ensures
            b == (ShardedTtlCacheBuilder { per_shard_initial_capacity: Some(capacity), ..self }),
    {
        ShardedTtlCacheBuilder { per_shard_initial_capacity: Some(capacity), ..self }
    }

    /// Sets whether a hit renews an entry.
    #[must_use]
    pub fn refresh_on_hit(self, refresh: bool) -> (b: Self)
        ensures
            b == (ShardedTtlCacheBuilder { refresh, ..self }),
    {
        ShardedTtlCacheBuilder { refresh, ..self }
    }

    /// Chooses shards with `hasher`.
    #[must_use]
    pub fn hasher<H2: ShardHasher<K>>(self, hasher: H2) -> (b: ShardedTtlCacheBuilder<K, V, H2>)
        ensures
            b == (ShardedTtlCacheBuilder {
                shards: self.shards,
                per_shard_initial_capacity: self.per_shard_initial_capacity,
                ttl: self.ttl,
                refresh: self.refresh,
                hasher,
                on_evict: self.on_evict,
            }),
    {
        ShardedTtlCacheBuilder {
            shards: self.shards,
            per_shard_initial_capacity: self.per_shard_initial_capacity,
            ttl: self.ttl,
            refresh: self.refresh,
            hasher,
            on_evict: self.on_evict,
        }
    }

    /// Sets the callback for entries that are evicted. It is called when no shard is locked. It is
    /// not called for entries that are cleared.
    #[must_use]
    pub fn on_evict<F: Fn(&K, &V) + Send + Sync + 'static>(self, on_evict: F) -> (b: Self)
        requires
            forall|k: &K, v: &V| call_requires(on_evict, (k, v)),
        ensures
            listener::calls(b.on_evict, on_evict),
            b.wf(),
            b == (ShardedTtlCacheBuilder { on_evict: b.on_evict, ..self }),
    {
        ShardedTtlCacheBuilder { on_evict: Some(listener::on_evict_from(on_evict)), ..self }
    }
}

impl<K: Hash + Eq, V, H: ShardHasher<K>> ShardedTtlCacheBuilder<K, V, H> {
    /// For how many entries room is asked for in each shard.
    pub open spec fn room_asked(&self) -> usize {
        match self.per_shard_initial_capacity {
            Some(capacity) => capacity,
            None => 0,
        }
    }

    /// Whether `c` is what these settings ask for.
    pub open spec fn describes(&self, c: ShardedTtlCache<K, V, H>) -> bool {
        &&& vstd::std_specs::hash::obeys_key_model::<K>() && self.wf() ==> c.wf()
        &&& match self.shards {
            Some(wanted) => hasher::rounds_up(c.shard_count() as int, wanted as int),
            None => c.shard_count() == hasher::DEFAULT_SHARDS,
        }
        &&& self.ttl matches Some(ttl) && c.made_with(
            ttl,
            self.refresh,
            self.hasher,
            self.on_evict,
            self.room_asked(),
        )
    }

    /// The cache with these settings, which reads `clock`.
    fn build_with_clock(self, clock: Clock) -> (r: Result<ShardedTtlCache<K, V, H>, BuildError>)
        ensures
            match self.ttl {
                Some(ttl) if ttl.nanos != 0 => match r {
                    Ok(c) => {
                        &&& self.describes(c)
                        &&& c.timepiece() == clock
                        &&& !hasher::refused(self.shards)
                    },
                    Err(_) => hasher::refused(self.shards) && error::refuses_field(r, "shards"@),
                },
                _ => error::refuses_ttl(self.ttl, r),
            },
    {
        let ttl = match error::validate_ttl(self.ttl) {
            Ok(ttl) => ttl,
            Err(e) => return Err(e),
        };
        let n: usize = match hasher::checked_shard_count(self.shards) {
            Ok(n) => n,
            Err(e) => return Err(e),
        };
        let capacity: usize = match self.per_shard_initial_capacity {
            Some(capacity) => capacity,
            None => 0,
        };
        let mut shards: Vec<Shard<TtlStore<K, V>>> = Vec::new();
        while shards.len() < n
            invariant
                shards.len() <= n,
                shards.len() > 0 ==> vstd::std_specs::hash::builds_valid_hashers::<
                    DefaultHashBuilder,
                >(),
                forall|j: int| 0 <= j < shards.len() ==> made_empty(#[trigger] shards[j], capacity),
            decreases n - shards.len(),
        {
            let shard = Shard::new(
                TtlStore::new(capacity),
                Tally { hits: 0, misses: 0, evictions: 0 },
            );
            assert(made_empty(shard, capacity));
            shards.push(shard);
        }
        Ok(
            ShardedTtlCache {
                inner: Arc::new(
                    TtlInner {
                        shards,
                        shard_mask: n - 1,
                        hasher: self.hasher,
                        on_evict: self.on_evict,
                        ttl: SharedTtl::new(encode_ttl(ttl)),
                        refresh: SharedFlag::new(self.refresh),
                        clock,
                    },
                ),
            },
        )
    }

    /// The cache with these settings. They are refused without a time to live, or with one of
    /// zero; and with a number of shards of zero, or one that cannot be rounded up.
    pub fn build(self) -> (r: Result<ShardedTtlCache<K, V, H>, BuildError>)
        ensures
            match self.ttl {
                Some(ttl) if ttl.nanos != 0 => match r {
                    Ok(c) => {
                        &&& self.describes(c)
                        &&& c.timepiece().started()
                        &&& !hasher::refused(self.shards)
                    },
                    Err(_) => hasher::refused(self.shards) && error::refuses_field(r, "shards"@),
                },
                _ => error::refuses_ttl(self.ttl, r),
            },
    {
        self.build_with_clock(Clock::start())
    }

    /// The cache with these settings, filled with copies of the live entries of `existing`, which
    /// keep their deadlines, and reading its clock. Nothing is counted, and no callback is called.
    pub fn copy_from<H2: ShardHasher<K>>(
        self,
        existing: &ShardedTtlCache<K, V, H2>,
    ) -> (r: Result<ShardedTtlCache<K, V, H>, BuildError>) where K: Clone, V: Clone
        requires
            self.wf(),
            existing.wf(),
        ensures
            match self.ttl {
                Some(ttl) if ttl.nanos != 0 => match r {
                    Ok(c) => {
                        &&& self.describes(c)
                        &&& c.wf()
                        &&& c.timepiece() == existing.timepiece()
                        &&& c.takes_over(*existing)
                        &&& !hasher::refused(self.shards)
                    },
                    Err(_) => hasher::refused(self.shards) && error::refuses_field(r, "shards"@),
                },
                _ => error::refuses_ttl(self.ttl, r),
            },
    {
        let cache = match self.build_with_clock(existing.clock()) {
            Ok(cache) => cache,
            Err(e) => return Err(e),
        };
        let mut i: usize = 0;
        while i < existing.inner.shards.len()
            invariant
                existing.wf(),
                cache.wf(),
                i <= existing.inner.shards.len(),
                forall|j: int|
                    0 <= j < i ==> cache.takes_over_shard(
                        #[trigger] existing.inner.shards[j],
                        existing.timepiece(),
                    ),
            decreases existing.inner.shards.len() - i,
        {
            cache.take_over(&existing.inner.shards[i], existing.clock());
            i += 1;
        }
        Ok(cache)
    }
}

impl<K: Hash + Eq, V> ShardedTtlCache<K, V, DefaultShardHasher> {
    /// A cache whose entries live for `ttl`.
    #[must_use]
    pub fn new(ttl: Duration) -> (c: Self)
        requires
            ttl.nanos != 0,
        ensures
            c.shard_count() == hasher::DEFAULT_SHARDS,
            c.timepiece().started(),
            exists|hasher: DefaultShardHasher| #[trigger] c.made_with(ttl, false, hasher, None, 0),
            vstd::std_specs::hash::obeys_key_model::<K>() ==> c.wf(),
    {
        Self::builder().ttl(ttl).build().unwrap()
    }

    /// A builder without any setting.
    #[must_use]
    pub fn builder() -> (b: ShardedTtlCacheBuilder<K, V, DefaultShardHasher>)
        ensures
            b.shards is None,
            b.per_shard_initial_capacity is None,
            b.ttl is None,
            !b.refresh,
            b.on_evict is None,
    {
        ShardedTtlCacheBuilder::default()
    }
}

} // verus!
