//! What a call of a cache that threads share does: which shard it locks, with which settings, and
//! what it makes of it.
use crate::stores::expiry::{self, TimedEntry};
use crate::stores::listener::OnEvict;
use crate::stores::sharded::hasher::{self, ShardHasher};
use crate::stores::sharded::laws;
use crate::stores::sharded::shard::{self, Shard, Tally};
use crate::stores::sharded::ttl::{self, ShardedTtlCache, ShardedTtlCacheBuilder};
use crate::stores::sharded::ttl_store::{self, Found, TtlStore};
use crate::stores::sharded::unbound::{self, ShardedUnboundCache, ShardedUnboundCacheBuilder};
use crate::stores::sharded::unbound_store::{self, UnboundStore};
use crate::stores::sweep;
use crate::stores::ttl_laws::{holds, one_ttl_after, same_but_for};
use crate::time::{Duration, Instant, Moment};
use crate::traits::{ConcurrentCacheEvict, ConcurrentCacheExpiry};
use std::hash::Hash;
use vstd::prelude::*;

verus! {

/// A moment is the instant that was given, or one that the clock shows.
pub proof fn law_moments(moment: Moment, now: Instant)
    ensures
        moment matches Moment::At(t) ==> (moment.allows(now) <==> now.nanos == t.nanos),
        moment matches Moment::Present(clock) ==> (moment.allows(now) <==> clock.shows(now)),
{
}

/// The hash of a key is what the hasher gives of it.
pub proof fn law_hash_is_what_the_hasher_gives<K, H: ShardHasher<K>>(h: H, k: K, hash: u64)
    ensures
        hasher::hashes(h, k, hash) <==> call_ensures(H::shard_hash, (&h, &k), hash),
{
}

/// A look-up judges the entry at the moment that was asked for. It renews it exactly if a reading
/// of the switch says so, with a reading of the time to live as it is.
pub proof fn law_look_up_as_set<K: Hash + Eq, V: Clone, H: ShardHasher<K>>(
    c: ShardedTtlCache<K, V, H>,
    k: K,
    when: Moment,
    f: Found<K, V>,
)
    requires
        c.looks_up(k, when, f),
    ensures
        exists|
            pre: Map<K, TimedEntry<V>>,
            post: Map<K, TimedEntry<V>>,
            now: Instant,
            renewal: Option<Duration>,
        |
            {
                &&& #[trigger] ttl_store::looks_up(pre, post, k, now, renewal, f)
                &&& when.allows(now)
                &&& c.refresh_switch().reads(renewal is Some)
                &&& renewal is Some ==> renewal->0.nanos <= u64::MAX && c.shared_ttl().reads(
                    renewal->0.nanos as u64,
                )
                &&& laws::gives_clone(pre, k, now, f.value)
                &&& same_but_for(pre, post, k)
                &&& holds(pre, k, now) ==> laws::follows_hit(pre, post, k, now, renewal)
                &&& pre.contains_key(k) && !holds(pre, k, now) ==> !post.contains_key(k)
                    && f.evicted == Some((k, pre[k]))
            },
{
    assert(c.explains(k, when, f));
    let (pre, post, now, renewal) = choose|
        pre: Map<K, TimedEntry<V>>,
        post: Map<K, TimedEntry<V>>,
        now: Instant,
        renewal: Option<Duration>,
    |
        {
            &&& #[trigger] ttl_store::looks_up(pre, post, k, now, renewal, f)
            &&& when.allows(now)
            &&& c.has_refresh(renewal is Some)
            &&& renewal matches Some(ttl) ==> c.shared_ttl().shows(ttl)
        };
    laws::law_shard_look_up(pre, post, k, now, renewal, f);
}

/// A status report judges the entry at the moment that was asked for, and evicts nothing. It renews
/// the entry only if a reading of the switch says so, with a reading of the time to live as it is.
pub proof fn law_status_as_set<K: Hash + Eq, V: Clone, H: ShardHasher<K>>(
    c: ShardedTtlCache<K, V, H>,
    k: K,
    when: Moment,
    r: (Option<V>, bool),
)
    requires
        c.looks_up_status(k, when, r),
    ensures
        exists|
            pre: Map<K, TimedEntry<V>>,
            post: Map<K, TimedEntry<V>>,
            now: Instant,
            renewal: Option<Duration>,
        |
            {
                &&& #[trigger] ttl_store::reads_status(pre, post, k, now, renewal, r)
                &&& when.allows(now)
                &&& c.refresh_switch().reads(renewal is Some)
                &&& renewal is Some ==> renewal->0.nanos <= u64::MAX && c.shared_ttl().reads(
                    renewal->0.nanos as u64,
                )
                &&& r.0 is Some <==> pre.contains_key(k)
                &&& r.1 == (pre.contains_key(k) && !holds(pre, k, now))
                &&& same_but_for(pre, post, k) && post.contains_key(k) == pre.contains_key(k)
                &&& holds(pre, k, now) ==> laws::follows_hit(pre, post, k, now, renewal)
                &&& !holds(pre, k, now) ==> post == pre
            },
{
    assert(c.explains_status(k, when, r));
    let (pre, post, now, renewal) = choose|
        pre: Map<K, TimedEntry<V>>,
        post: Map<K, TimedEntry<V>>,
        now: Instant,
        renewal: Option<Duration>,
    |
        {
            &&& #[trigger] ttl_store::reads_status(pre, post, k, now, renewal, r)
            &&& when.allows(now)
            &&& c.has_refresh(renewal is Some)
            &&& renewal matches Some(ttl) ==> c.shared_ttl().shows(ttl)
        };
    laws::law_shard_status(pre, post, k, now, renewal, r);
}

/// A write is made in the shard of its key, with a reading of the time to live as it is. What it
/// stores is due one such time later.
pub proof fn law_write_as_set<K: Hash + Eq, V, H: ShardHasher<K>>(
    c: ShardedTtlCache<K, V, H>,
    k: K,
    v: V,
    now: Instant,
    f: Found<K, V>,
)
    requires
        c.writes(k, v, now, f),
    ensures
        exists|i: int, ttl: Duration, pre: Map<K, TimedEntry<V>>, post: Map<K, TimedEntry<V>>|
            {
                &&& #[trigger] c.places(k, i)
                &&& call_ensures(
                    Shard::write,
                    (&c.shard(i), (k, v, now, ttl), TtlStore::<K, V>::put_all),
                    f,
                )
                &&& #[trigger] ttl_store::writes(pre, post, k, v, now, ttl, f)
                &&& ttl.nanos <= u64::MAX && c.shared_ttl().reads(ttl.nanos as u64)
                &&& same_but_for(pre, post, k)
                &&& post.contains_key(k) && post[k].value == v
                &&& one_ttl_after(ttl, now, post[k].expires_at)
                &&& f.value == if holds(pre, k, now) {
                    Some(pre[k].value)
                } else {
                    None
                }
            },
{
    let (i, ttl, pre, post) = choose|
        i: int,
        ttl: Duration,
        pre: Map<K, TimedEntry<V>>,
        post: Map<K, TimedEntry<V>>,
    |
        {
            &&& #[trigger] c.places(k, i)
            &&& c.shared_ttl().shows(ttl)
            &&& call_ensures(
                Shard::write,
                (&c.shard(i), (k, v, now, ttl), TtlStore::<K, V>::put_all),
                f,
            )
            &&& #[trigger] ttl_store::writes(pre, post, k, v, now, ttl, f)
            &&& c.settled(i, f)
        };
    laws::law_shard_write(pre, post, k, v, now, ttl, f);
}

/// What a look at an entry shows is a clone of its value if that is stored and not due at the
/// moment that was asked for, and else nothing; and so is whether there is one.
pub proof fn law_peeks_show_what_is_not_due<K: Hash + Eq, V: Clone, H: ShardHasher<K>>(
    c: ShardedTtlCache<K, V, H>,
    k: K,
    when: Moment,
    value: Option<V>,
    b: bool,
)
    ensures
        c.peeks(k, when, value) ==> exists|held: Map<K, TimedEntry<V>>, now: Instant|
            when.allows(now) && #[trigger] laws::gives_clone(held, k, now, value),
        c.looks_for(k, when, b) ==> exists|held: Map<K, TimedEntry<V>>, now: Instant|
            when.allows(now) && b == #[trigger] holds(held, k, now),
{
    if c.peeks(k, when, value) {
        let (held, now) = choose|held: Map<K, TimedEntry<V>>, now: Instant|
            when.allows(now) && #[trigger] ttl_store::answers(held, k, now, value);
        assert(laws::gives_clone(held, k, now, value));
    }
    if c.looks_for(k, when, b) {
        let (held, now) = choose|held: Map<K, TimedEntry<V>>, now: Instant|
            when.allows(now) && b == #[trigger] ttl_store::live(held, k, now);
        assert(b == holds(held, k, now));
    }
}

/// What is sifted out of a shard was due or rejected there; it is counted, and each entry is told
/// of.
pub proof fn law_sift_is_counted_and_told<
    K: Hash + Eq,
    V,
    H: ShardHasher<K>,
    F: FnMut(&K, &V) -> bool,
>(c: ShardedTtlCache<K, V, H>, keep: F, now: Instant, counts: Seq<usize>, i: int)
    requires
        c.sifts(keep, now, counts),
        0 <= i < c.shard_count(),
    ensures
        counts.len() == c.shard_count(),
        exists|removed: Vec<(K, TimedEntry<V>)>, held: Map<K, TimedEntry<V>>|
            {
                &&& call_ensures(
                    Shard::write,
                    (&c.shard(i), (keep, now), TtlStore::<K, V>::sift::<F>),
                    (removed, keep),
                )
                &&& #[trigger] sweep::retains(held, keep, now, sweep::taken_keys(removed@))
                &&& counts[i] == removed.len()
                &&& c.shard(i).adds_evictions(removed.len() as u64)
                &&& forall|j: int|
                    0 <= j < removed.len() ==> held.contains_key((#[trigger] removed[j]).0)
                        && removed[j].1.value == held[removed[j].0].value && shard::told(
                        c.callback(),
                        removed[j].0,
                        removed[j].1.value,
                    )
            },
{
    assert(c.sifts_shard(i, keep, now, counts[i]));
    let (removed, held) = choose|removed: Vec<(K, TimedEntry<V>)>, held: Map<K, TimedEntry<V>>|
        {
            &&& call_ensures(
                Shard::write,
                (&c.shard(i), (keep, now), TtlStore::<K, V>::sift::<F>),
                (removed, keep),
            )
            &&& #[trigger] sweep::retains(held, keep, now, sweep::taken_keys(removed@))
            &&& sweep::takes(
                held,
                held.remove_keys(sweep::taken_keys(removed@).to_set()),
                removed@,
            )
            &&& counts[i] == removed.len()
            &&& c.settled_all(i, removed@)
        };
    laws::law_shard_sift(
        held,
        held.remove_keys(sweep::taken_keys(removed@).to_set()),
        keep,
        now,
        removed@,
    );
}

/// A cleared shard was wiped, and a shard whose counters were reset was zeroed.
pub proof fn law_clearing_wipes_each_shard<K: Hash + Eq, V, H: ShardHasher<K>>(
    c: ShardedTtlCache<K, V, H>,
    u: ShardedUnboundCache<K, V, H>,
    i: int,
)
    ensures
        c.wiped() && 0 <= i < c.shard_count() ==> exists|n: usize| #[trigger]
            call_ensures(Shard::write, (&c.shard(i), (), TtlStore::<K, V>::wipe), n),
        c.zeroed() && 0 <= i < c.shard_count() ==> c.shard(i).zeroed(),
        u.wiped() && 0 <= i < u.shard_count() ==> exists|n: usize| #[trigger]
            call_ensures(Shard::write, (&u.shard(i), (), UnboundStore::<K, V>::wipe), n),
        u.zeroed() && 0 <= i < u.shard_count() ==> u.shard(i).zeroed(),
{
    if c.wiped() && 0 <= i < c.shard_count() {
        assert(c.wiped_shard(i));
    }
    if u.wiped() && 0 <= i < u.shard_count() {
        assert(u.wiped_shard(i));
    }
}

/// A cache that was built has as many shards as the least power of two that is not below the wish.
/// Each was made without entries and with counters at zero. It has the time to live that was asked
/// for, as far as its nanoseconds fit, and the other settings as they were given.
pub proof fn law_built_as_asked<K: Hash + Eq, V, H: ShardHasher<K>>(
    b: ShardedTtlCacheBuilder<K, V, H>,
    c: ShardedTtlCache<K, V, H>,
    i: int,
)
    requires
        b.describes(c),
        0 <= i < c.shard_count(),
    ensures
        b.ttl is Some,
        c.shared_ttl().made_of(
            if b.ttl->0.nanos < u64::MAX {
                b.ttl->0.nanos as u64
            } else {
                u64::MAX
            },
        ),
        c.refresh_switch().made_of(b.refresh),
        c.shard_hasher() == b.hasher,
        c.callback() == b.on_evict,
        b.shards is Some ==> {
            &&& b.shards->0 <= c.shard_count()
            &&& vstd::arithmetic::power2::is_pow2(c.shard_count() as int)
            &&& forall|p: int| #[trigger]
                vstd::arithmetic::power2::is_pow2(p) && b.shards->0 <= p ==> c.shard_count() <= p
        },
        exists|store: TtlStore<K, V>|
            {
                &&& #[trigger] c.shard(i).made_of(
                    store,
                    Tally { hits: 0, misses: 0, evictions: 0 },
                )
                &&& store@.dom() == Set::<K>::empty()
                &&& call_ensures(
                    TtlStore::<K, V>::new,
                    (match b.per_shard_initial_capacity {
                        Some(n) => n,
                        None => 0,
                    },),
                    store,
                )
            },
{
    assert(ttl::made_empty(c.shard(i), b.room_asked()));
    let store = choose|store: TtlStore<K, V>|
        {
            &&& #[trigger] c.shard(i).made_of(store, Tally { hits: 0, misses: 0, evictions: 0 })
            &&& call_ensures(TtlStore::<K, V>::new, (b.room_asked(),), store)
            &&& store@ == Map::<K, TimedEntry<V>>::empty()
        };
    assert(store@.dom() =~= Set::<K>::empty());
}

/// The same of a cache without expiry.
pub proof fn law_unbound_built_as_asked<K: Hash + Eq, V, H: ShardHasher<K>>(
    b: ShardedUnboundCacheBuilder<K, V, H>,
    c: ShardedUnboundCache<K, V, H>,
    i: int,
)
    requires
        b.describes(c),
        0 <= i < c.shard_count(),
    ensures
        c.shard_hasher() == b.hasher,
        c.callback() == b.on_evict,
        b.shards is Some ==> {
            &&& b.shards->0 <= c.shard_count()
            &&& vstd::arithmetic::power2::is_pow2(c.shard_count() as int)
            &&& forall|p: int| #[trigger]
                vstd::arithmetic::power2::is_pow2(p) && b.shards->0 <= p ==> c.shard_count() <= p
        },
        exists|store: UnboundStore<K, V>|
            {
                &&& #[trigger] c.shard(i).made_of(
                    store,
                    Tally { hits: 0, misses: 0, evictions: 0 },
                )
                &&& store@.dom() == Set::<K>::empty()
                &&& call_ensures(
                    UnboundStore::<K, V>::new,
                    (match b.per_shard_initial_capacity {
                        Some(n) => n,
                        None => 0,
                    },),
                    store,
                )
            },
{
    assert(unbound::made_empty(c.shard(i), b.room_asked()));
    let store = choose|store: UnboundStore<K, V>|
        {
            &&& #[trigger] c.shard(i).made_of(store, Tally { hits: 0, misses: 0, evictions: 0 })
            &&& call_ensures(UnboundStore::<K, V>::new, (b.room_asked(),), store)
            &&& store@ == Map::<K, V>::empty()
        };
    assert(store@.dom() =~= Set::<K>::empty());
}

/// A deep copy has the callback and the clock of its source, and a reading of each of its settings.
/// Each shard was made of a copy of all entries of the shard with its number, with their deadlines,
/// and of a reading of its counters.
pub proof fn law_deep_copy_is_made_of_its_source<
    K: Hash + Eq + Clone,
    V: Clone,
    H: ShardHasher<K>,
>(c: ShardedTtlCache<K, V, H>, source: ShardedTtlCache<K, V, H>, i: int)
    requires
        c.duplicates(source),
        0 <= i < source.shard_count(),
    ensures
        c.shard_count() == source.shard_count(),
        c.callback() == source.callback(),
        c.timepiece() == source.timepiece(),
        exists|nanos: u64| #[trigger]
            source.shared_ttl().reads(nanos) && c.shared_ttl().made_of(nanos),
        exists|refresh: bool| #[trigger]
            source.refresh_switch().reads(refresh) && c.refresh_switch().made_of(refresh),
        exists|store: TtlStore<K, V>, tally: Tally, held: Map<K, TimedEntry<V>>|
            {
                &&& #[trigger] c.shard(i).made_of(store, tally)
                &&& source.shard(i).counted(tally)
                &&& call_ensures(
                    Shard::read,
                    (&source.shard(i), &source.shard(i), TtlStore::<K, V>::copy_with_counts),
                    (store, tally),
                )
                &&& #[trigger] expiry::copies(held, store@)
            },
{
    let nanos = choose|nanos: u64| #[trigger]
        source.has_ttl(nanos) && c.shared_ttl().made_of(nanos);
    assert(source.shared_ttl().reads(nanos));
    let refresh = choose|refresh: bool| #[trigger]
        source.has_refresh(refresh) && c.refresh_switch().made_of(refresh);
    assert(source.refresh_switch().reads(refresh));
    assert(ttl::copied_shard(source.shard(i), c.shard(i)));
    let (r, held) = choose|r: (TtlStore<K, V>, Tally), held: Map<K, TimedEntry<V>>|
        {
            &&& #[trigger] call_ensures(
                Shard::read,
                (&source.shard(i), &source.shard(i), TtlStore::<K, V>::copy_with_counts),
                r,
            )
            &&& #[trigger] expiry::copies(held, r.0@)
            &&& source.shard(i).counted(r.1)
            &&& c.shard(i).made_of(r.0, r.1)
        };
    assert(c.shard(i).made_of(r.0, r.1) && expiry::copies(held, r.0@));
    assert((r.0, r.1) == r);
}

/// A deep copy without expiry has the callback of its source. Each shard was made of a copy of all
/// entries of the shard with its number, and of a reading of its hits and misses.
pub proof fn law_unbound_deep_copy_is_made_of_its_source<
    K: Hash + Eq + Clone,
    V: Clone,
    H: ShardHasher<K>,
>(c: ShardedUnboundCache<K, V, H>, source: ShardedUnboundCache<K, V, H>, i: int)
    requires
        c.duplicates(source),
        0 <= i < source.shard_count(),
    ensures
        c.shard_count() == source.shard_count(),
        c.callback() == source.callback(),
        exists|store: UnboundStore<K, V>, tally: Tally, held: Map<K, V>|
            {
                &&& c.shard(i).made_of(
                    store,
                    Tally { hits: tally.hits, misses: tally.misses, evictions: 0 },
                )
                &&& #[trigger] source.shard(i).counted(tally)
                &&& #[trigger] unbound_store::copies(held, store@)
            },
{
    assert(unbound::copied_shard(source.shard(i), c.shard(i)));
    let (r, held, tally) = choose|r: (UnboundStore<K, V>, Tally), held: Map<K, V>, tally: Tally|
        {
            &&& call_ensures(
                Shard::read,
                (&source.shard(i), &source.shard(i), UnboundStore::<K, V>::copy_with_counts),
                r,
            )
            &&& #[trigger] unbound_store::copies(held, r.0@)
            &&& #[trigger] source.shard(i).counted(tally)
            &&& r.1 == (Tally { evictions: 0, ..tally })
            &&& c.shard(i).made_of(r.0, r.1)
        };
    assert(source.shard(i).counted(tally) && unbound_store::copies(held, r.0@));
}

/// What a cache without expiry is asked of a key is done in the shard of the key: a look-up shows a
/// clone of its value and is counted, a write returns what it displaces, a removal takes out its
/// entry and tells of it.
pub proof fn law_unbound_calls_are_on_the_shard_of_the_key<
    K: Hash + Eq,
    V: Clone,
    H: ShardHasher<K>,
>(
    c: ShardedUnboundCache<K, V, H>,
    k: K,
    v: V,
    value: Option<V>,
    taken: Option<(K, V)>,
)
    ensures
        c.looks_up(k, value) ==> exists|i: int|
            {
                &&& #[trigger] c.places(k, i)
                &&& call_ensures(Shard::read, (&c.shard(i), &k, UnboundStore::<K, V>::get), value)
                &&& c.shard(i).adds_reads(
                    Tally {
                        hits: if value is Some {
                            1
                        } else {
                            0
                        },
                        misses: if value is Some {
                            0
                        } else {
                            1
                        },
                        evictions: 0,
                    },
                )
            },
        c.writes(k, v, value) ==> exists|i: int| #[trigger]
            c.places(k, i) && call_ensures(
                Shard::write,
                (&c.shard(i), (k, v), UnboundStore::<K, V>::put_all),
                value,
            ),
        c.takes_out(k, taken) ==> exists|i: int| #[trigger]
            c.places(k, i) && call_ensures(
                Shard::write,
                (&c.shard(i), &k, UnboundStore::<K, V>::take),
                taken,
            ),
        c.takes_out(k, taken) ==> (taken matches Some(e) ==> e.0 == k && shard::told(
            c.callback(),
            k,
            e.1,
        )),
{
}

/// What is sifted out of, or drained from, a shard without expiry is told of, each entry with its
/// value.
pub proof fn law_unbound_leavers_are_told<
    K: Hash + Eq,
    V,
    H: ShardHasher<K>,
    F: FnMut(&K, &V) -> bool,
>(c: ShardedUnboundCache<K, V, H>, keep: F, counts: Seq<usize>, i: int)
    requires
        0 <= i < c.shard_count(),
    ensures
        c.sifts(keep, counts) ==> counts.len() == c.shard_count() && exists|
            removed: Vec<(K, V)>,
            pre: Map<K, V>,
            post: Map<K, V>,
        |
            {
                &&& call_ensures(
                    Shard::write,
                    (&c.shard(i), keep, UnboundStore::<K, V>::take_rejected::<F>),
                    (removed, keep),
                )
                &&& #[trigger] unbound_store::takes_rejected(pre, post, keep, removed@)
                &&& counts[i] == removed.len()
                &&& forall|j: int|
                    0 <= j < removed.len() ==> shard::told(
                        c.callback(),
                        (#[trigger] removed[j]).0,
                        removed[j].1,
                    )
            },
        c.drained() ==> exists|removed: Vec<(K, V)>|
            {
                &&& #[trigger] call_ensures(
                    Shard::write,
                    (&c.shard(i), (), UnboundStore::<K, V>::take_all),
                    removed,
                )
                &&& forall|j: int|
                    0 <= j < removed.len() ==> shard::told(
                        c.callback(),
                        (#[trigger] removed[j]).0,
                        removed[j].1,
                    )
            },
{
    if c.sifts(keep, counts) {
        assert(c.sifts_shard(i, keep, counts[i]));
    }
    if c.drained() {
        assert(c.drained_shard(i));
    }
}

/// An entry that is taken over is stored as it is in the shard of its key.
pub proof fn law_taken_over_as_it_is<K: Hash + Eq, V, H: ShardHasher<K>>(
    c: ShardedTtlCache<K, V, H>,
    k: K,
    entry: TimedEntry<V>,
)
    requires
        c.installs(k, entry),
    ensures
        exists|i: int, former: Option<TimedEntry<V>>| #[trigger]
            c.places(k, i) && #[trigger] call_ensures(
                Shard::write,
                (&c.shard(i), (k, entry), TtlStore::<K, V>::install),
                former,
            ),
{
}

/// The callback is told of an entry by being called with it, if there is one.
pub proof fn law_told_means_called<K, V>(on_evict: Option<OnEvict<K, V>>, k: K, v: V)
    ensures
        shard::told(on_evict, k, v) <==> (on_evict is Some ==> on_evict->0.hears(k, v)),
{
}

/// The settings that are read and traded are those of the cells that the shards share.
pub proof fn law_settings_are_shared<K, V, H>(
    c: ShardedTtlCache<K, V, H>,
    nanos: u64,
    former: u64,
    refresh: bool,
    before: bool,
)
    ensures
        c.has_ttl(nanos) <==> c.shared_ttl().reads(nanos),
        c.trades_ttl(nanos, former) <==> c.shared_ttl().trades(nanos, former),
        c.has_refresh(refresh) <==> c.refresh_switch().reads(refresh),
        c.trades_refresh(refresh, before) <==> c.refresh_switch().trades(refresh, before),
{
}

/// Sizes and counters are read shard by shard, each from its own shard.
pub proof fn law_readings_are_of_each_shard<K: Hash + Eq, V, H: ShardHasher<K>>(
    c: ShardedTtlCache<K, V, H>,
    u: ShardedUnboundCache<K, V, H>,
    sizes: Seq<usize>,
    tallies: Seq<Tally>,
    i: int,
)
    ensures
        c.measures(sizes) ==> sizes.len() == c.shard_count(),
        c.measures(sizes) && 0 <= i < sizes.len() ==> call_ensures(
            Shard::read,
            (&c.shard(i), (), TtlStore::<K, V>::measure),
            sizes[i],
        ),
        c.tallied(tallies) ==> tallies.len() == c.shard_count(),
        c.tallied(tallies) && 0 <= i < tallies.len() ==> c.shard(i).counted(tallies[i]),
        u.measures(sizes) ==> sizes.len() == u.shard_count(),
        u.measures(sizes) && 0 <= i < sizes.len() ==> call_ensures(
            Shard::read,
            (&u.shard(i), (), UnboundStore::<K, V>::measure),
            sizes[i],
        ),
        u.tallied(tallies) ==> tallies.len() == u.shard_count(),
        u.tallied(tallies) && 0 <= i < tallies.len() ==> u.shard(i).counted(tallies[i]),
{
}

/// Deadlines, and the status of an entry, are read in the shard of the key.
pub proof fn law_deadlines_are_read_in_the_shard_of_the_key<
    K: Hash + Eq,
    V: Clone,
    H: ShardHasher<K>,
>(
    c: ShardedTtlCache<K, V, H>,
    k: K,
    when: Moment,
    p: (Option<V>, Option<Instant>),
    d: (bool, Option<Instant>),
    r: (Option<V>, bool),
)
    ensures
        ConcurrentCacheExpiry::<K, V>::peeked(&c, k, p) ==> exists|i: int| #[trigger]
            c.places(k, i) && call_ensures(
                Shard::read,
                (&c.shard(i), &k, TtlStore::<K, V>::peek_expires_at),
                p,
            ),
        ConcurrentCacheExpiry::<K, V>::found(&c, k, d) ==> exists|i: int| #[trigger]
            c.places(k, i) && call_ensures(
                Shard::read,
                (&c.shard(i), &k, TtlStore::<K, V>::expires_at),
                d,
            ),
        c.peeks_status(k, when, r) ==> exists|held: Map<K, TimedEntry<V>>, now: Instant|
            {
                &&& when.allows(now)
                &&& #[trigger] ttl_store::reports(held, k, now, r)
                &&& r.0 is Some <==> held.contains_key(k)
                &&& r.1 == (held.contains_key(k) && !holds(held, k, now))
            },
{
    if c.peeks_status(k, when, r) {
        let (held, now) = choose|held: Map<K, TimedEntry<V>>, now: Instant|
            when.allows(now) && #[trigger] ttl_store::reports(held, k, now, r);
        assert(when.allows(now) && ttl_store::reports(held, k, now, r));
    }
}

/// A sweep through what caches have in common is one sweep of each shard at one instant that the
/// clock shows.
pub proof fn law_sweep_at_one_instant<K: Hash + Eq, V, H: ShardHasher<K>>(
    c: ShardedTtlCache<K, V, H>,
    n: usize,
)
    requires
        ConcurrentCacheEvict::swept(&c, n),
    ensures
        exists|counts: Seq<usize>, now: Instant|
            {
                &&& #[trigger] c.sweeps(now, counts)
                &&& c.timepiece().shows(now)
                &&& counts.len() == c.shard_count()
                &&& shard::total_size(counts) <= usize::MAX ==> n == shard::total_size(counts)
            },
{
}

/// A cache that takes over another stores the copies of the live entries of each shard, as a
/// reading of that shard gave them, as they are.
pub proof fn law_taken_over_from_each_shard<
    K: Hash + Eq + Clone,
    V: Clone,
    H: ShardHasher<K>,
    H2: ShardHasher<K>,
>(c: ShardedTtlCache<K, V, H>, source: ShardedTtlCache<K, V, H2>, j: int)
    requires
        c.takes_over(source),
        0 <= j < source.shard_count(),
    ensures
        exists|list: Vec<(K, TimedEntry<V>)>|
            {
                &&& #[trigger] call_ensures(
                    Shard::read,
                    (&source.shard(j), source.timepiece(), TtlStore::<K, V>::present_entries),
                    list,
                )
                &&& forall|n: int|
                    0 <= n < list.len() ==> c.installs((#[trigger] list[n]).0, list[n].1)
            },
{
    assert(c.takes_over_shard(source.shard(j), source.timepiece()));
    let list = choose|list: Vec<(K, TimedEntry<V>)>| #[trigger]
        ttl::lists_live(source.shard(j), source.timepiece(), list) && forall|n: int|
            0 <= n < list.len() ==> c.installs((#[trigger] list[n]).0, list[n].1);
    assert(call_ensures(
        Shard::read,
        (&source.shard(j), source.timepiece(), TtlStore::<K, V>::present_entries),
        list,
    )) by {
        reveal(ttl::lists_live);
    }
}

/// A look-up in a cache without expiry that goes on to fill returns what it found, or else what was
/// made, of which a clone was written under the same key.
pub proof fn law_unbound_get_or_set_steps<
    K: Hash + Eq,
    V: Clone,
    H: ShardHasher<K>,
    F: FnOnce() -> V,
>(c: ShardedUnboundCache<K, V, H>, k: K, f: F, v: V)
    requires
        c.gets_or_sets(k, f, v),
    ensures
        c.looks_up(k, Some(v)) || {
            &&& c.looks_up(k, None)
            &&& f.ensures((), v)
            &&& exists|copy: V, former: Option<V>| #[trigger]
                c.writes(k, copy, former) && cloned(v, copy)
        },
{
}

} // verus!
