//! What one shard of a cache with expiry holds.
use crate::stores::expiry::{self, TimedEntry};
use crate::stores::sharded::shard::{Shard, Tally};
use crate::stores::sharded::shared::SharedTtl;
use crate::stores::sweep;
use crate::stores::table::{self, DefaultHashBuilder};
use crate::time::{Clock, Duration, Instant, Moment};
use std::collections::HashMap;
use std::hash::Hash;
use vstd::prelude::*;

verus! {

broadcast use vstd::std_specs::hash::group_hash_axioms;

/// What a look-up sees.
pub enum Glance<V> {
    /// No entry.
    Absent,
    /// An entry that has expired.
    Expired,
    /// A live entry, and a clone of its value.
    Live(V),
}

/// What an operation on a shard yields: a value to return, an entry that was evicted, and what to
/// add to the counters.
pub struct Found<K, V> {
    pub value: Option<V>,
    pub evicted: Option<(K, TimedEntry<V>)>,
    pub tally: Tally,
}

/// Whether there is a live entry under `k`.
pub open spec fn live<K, V>(m: Map<K, TimedEntry<V>>, k: K, now: Instant) -> bool {
    m.contains_key(k) && !m[k].expired(now)
}

/// The deadline of an entry that a hit renews at `now`. Where there would be none, it keeps the
/// deadline that it has.
pub open spec fn renewed(ttl: Duration, now: Instant, current: Option<Instant>) -> Option<Instant> {
    match expiry::deadline(ttl, now) {
        Some(t) => Some(t),
        None => current,
    }
}

/// Whether `g` is what is seen of `k` at `now`.
pub open spec fn sees<K, V: Clone>(
    m: Map<K, TimedEntry<V>>,
    k: K,
    now: Instant,
    g: Glance<V>,
) -> bool {
    match g {
        Glance::Absent => !m.contains_key(k),
        Glance::Expired => m.contains_key(k) && m[k].expired(now),
        Glance::Live(v) => live(m, k, now) && cloned(m[k].value, v),
    }
}

/// Whether `value` answers a look-up of `k` at `now`: a clone of the live value, if there is one.
pub open spec fn answers<K, V: Clone>(
    m: Map<K, TimedEntry<V>>,
    k: K,
    now: Instant,
    value: Option<V>,
) -> bool {
    match value {
        Some(v) => live(m, k, now) && cloned(m[k].value, v),
        None => !live(m, k, now),
    }
}

/// Whether `value` is what leaves with the entry of `k` at `now`: its value, unless it has expired.
pub open spec fn displaces<K, V>(
    m: Map<K, TimedEntry<V>>,
    k: K,
    now: Instant,
    value: Option<V>,
) -> bool {
    value == if live(m, k, now) {
        Some(m[k].value)
    } else {
        None
    }
}

/// Whether `f` and `post` follow from a look-up of `k` that evicts an expired entry. With `ttl`, a
/// hit renews the entry.
pub open spec fn looks_up<K, V: Clone>(
    pre: Map<K, TimedEntry<V>>,
    post: Map<K, TimedEntry<V>>,
    k: K,
    now: Instant,
    ttl: Option<Duration>,
    f: Found<K, V>,
) -> bool {
    &&& answers(pre, k, now, f.value)
    &&& if live(pre, k, now) {
        &&& f.evicted is None
        &&& f.tally == Tally::hit()
        &&& post == match ttl {
            Some(ttl) => pre.insert(
                k,
                TimedEntry {
                    expires_at: renewed(ttl, now, pre[k].expires_at),
                    value: pre[k].value,
                },
            ),
            None => pre,
        }
    } else if pre.contains_key(k) {
        &&& f.evicted == Some((k, pre[k]))
        &&& f.tally == Tally::miss(1)
        &&& post == pre.remove(k)
    } else {
        &&& f.evicted is None
        &&& f.tally == Tally::miss(0)
        &&& post == pre
    }
}

/// Whether `f` and `post` follow from writing `v` under `k` at `now`. A displaced value is returned
/// unless it had expired; then it is evicted.
pub open spec fn writes<K, V>(
    pre: Map<K, TimedEntry<V>>,
    post: Map<K, TimedEntry<V>>,
    k: K,
    v: V,
    now: Instant,
    ttl: Duration,
    f: Found<K, V>,
) -> bool {
    &&& post == pre.insert(k, TimedEntry { expires_at: expiry::deadline(ttl, now), value: v })
    &&& displaces(pre, k, now, f.value)
    &&& f.evicted == if pre.contains_key(k) && pre[k].expired(now) {
        Some((k, pre[k]))
    } else {
        None
    }
    &&& f.tally == (Tally {
        hits: 0,
        misses: 0,
        evictions: if f.evicted is Some {
            1
        } else {
            0
        },
    })
}

/// The key and the value of an entry that was taken out.
pub open spec fn stripped<K, V>(taken: Option<(K, TimedEntry<V>)>) -> Option<(K, V)> {
    match taken {
        Some((k, entry)) => Some((k, entry.value)),
        None => None,
    }
}

/// The value of an entry that was taken out, unless it has expired at `now`.
pub open spec fn value_unless_expired<K, V>(
    taken: Option<(K, TimedEntry<V>)>,
    now: Instant,
) -> Option<V> {
    match taken {
        Some((_, entry)) if !entry.expired(now) => Some(entry.value),
        _ => None,
    }
}

/// Whether `taken` and `post` follow from taking the entry of `k` out.
pub open spec fn takes_one<K, V>(
    pre: Map<K, TimedEntry<V>>,
    post: Map<K, TimedEntry<V>>,
    k: K,
    taken: Option<(K, TimedEntry<V>)>,
) -> bool {
    &&& post == pre.remove(k)
    &&& taken == if pre.contains_key(k) {
        Some((k, pre[k]))
    } else {
        None
    }
}

/// Whether `r` reports the value under `k`, expired or not, and whether it has expired at `now`.
pub open spec fn reports<K, V: Clone>(
    m: Map<K, TimedEntry<V>>,
    k: K,
    now: Instant,
    r: (Option<V>, bool),
) -> bool {
    &&& match r.0 {
        Some(v) => m.contains_key(k) && cloned(m[k].value, v),
        None => !m.contains_key(k),
    }
    &&& r.1 == (m.contains_key(k) && m[k].expired(now))
}

/// Whether `r` and `post` follow from a look-up of `k` that reports the value, expired or not, and
/// evicts nothing. With `ttl`, a hit renews the entry.
pub open spec fn reads_status<K, V: Clone>(
    pre: Map<K, TimedEntry<V>>,
    post: Map<K, TimedEntry<V>>,
    k: K,
    now: Instant,
    ttl: Option<Duration>,
    r: (Option<V>, bool),
) -> bool {
    &&& reports(pre, k, now, r)
    &&& post == match ttl {
        Some(ttl) if live(pre, k, now) => pre.insert(
            k,
            TimedEntry {
                expires_at: renewed(ttl, now, pre[k].expires_at),
                value: pre[k].value,
            },
        ),
        _ => pre,
    }
}

/// What a look-up that reports `r` adds to the counters: a hit for a live value, else a miss.
pub open spec fn status_tally<V>(r: (Option<V>, bool)) -> Tally {
    if r.0 is Some && !r.1 {
        Tally::hit()
    } else {
        Tally::miss(0)
    }
}

/// What a look-up that reports `r` adds to the counters.
pub fn tally_status<V>(r: &(Option<V>, bool)) -> (t: Tally)
    ensures
        t == status_tally(*r),
{
    if r.0.is_some() && !r.1 {
        Tally { hits: 1, misses: 0, evictions: 0 }
    } else {
        Tally { hits: 0, misses: 1, evictions: 0 }
    }
}

/// The live value that a look-up saw.
pub open spec fn seen_value<V>(g: Glance<V>) -> Option<V> {
    match g {
        Glance::Live(v) => Some(v),
        _ => None,
    }
}

/// The value of an entry that was taken out, unless it has expired at `now`.
pub fn unless_expired<V>(entry: TimedEntry<V>, now: Instant) -> (v: Option<V>)
    ensures
        v == if entry.expired(now) {
            None
        } else {
            Some(entry.value)
        },
{
    if entry.is_expired_at(now) {
        None
    } else {
        Some(entry.value)
    }
}

/// The deadline of an entry that a hit renews at `now`.
pub fn renewed_deadline(ttl: Duration, now: Instant, current: Option<Instant>) -> (at: Option<
    Instant,
>)
    ensures
        at == renewed(ttl, now, current),
{
    match expiry::compute_expires_at(ttl, now) {
        Some(t) => Some(t),
        None => current,
    }
}

/// The entries of one shard.
#[verifier::reject_recursive_types(K)]
#[verifier::reject_recursive_types(V)]
pub struct TtlStore<K, V> {
    map: HashMap<K, TimedEntry<V>, DefaultHashBuilder>,
}

impl<K, V> View for TtlStore<K, V> {
    type V = Map<K, TimedEntry<V>>;

    closed spec fn view(&self) -> Map<K, TimedEntry<V>> {
        self.map@
    }
}

impl<K: Hash + Eq, V> TtlStore<K, V> {
    /// A store without entries, with room for `capacity` of them where there is memory for it.
    pub fn new(capacity: usize) -> (s: Self)
        ensures
            s@ == Map::<K, TimedEntry<V>>::empty(),
            vstd::std_specs::hash::builds_valid_hashers::<DefaultHashBuilder>(),
            capacity > 0 ==> exists|hasher: DefaultHashBuilder, made: bool| #[trigger]
                table::asked_for_fresh_room::<K, TimedEntry<V>, DefaultHashBuilder>(
                    hasher,
                    capacity,
                    made,
                ),
    {
        let hasher = table::new_default_hash_builder();
        let room: Option<usize> = if capacity > 0 {
            Some(capacity)
        } else {
            None
        };
        let (map, _) = table::table_with_room(hasher, room);
        TtlStore { map }
    }

    /// Writes `v` under `k` at `now`, with the time to live `ttl`. The stored key is replaced.
    pub fn put(&mut self, k: K, v: V, now: Instant, ttl: Duration) -> (f: Found<K, V>)
        requires
            table::keyed::<K, DefaultHashBuilder>(),
        ensures
            writes(old(self)@, final(self)@, k, v, now, ttl, f),
    {
        let entry = TimedEntry { expires_at: expiry::compute_expires_at(ttl, now), value: v };
        let ghost pre = self@;
        match table::take_entry(&mut self.map, &k) {
            Some((stored, former)) => {
                let expired: bool = former.is_expired_at(now);
                self.map.insert(k, entry);
                assert(self@ =~= pre.insert(k, entry));
                if expired {
                    Found {
                        value: None,
                        evicted: Some((stored, former)),
                        tally: Tally { hits: 0, misses: 0, evictions: 1 },
                    }
                } else {
                    Found {
                        value: Some(former.value),
                        evicted: None,
                        tally: Tally { hits: 0, misses: 0, evictions: 0 },
                    }
                }
            },
            None => {
                self.map.insert(k, entry);
                assert(self@ =~= pre.insert(k, entry));
                Found {
                    value: None,
                    evicted: None,
                    tally: Tally { hits: 0, misses: 0, evictions: 0 },
                }
            },
        }
    }

    /// [`put`](Self::put) of the value `a.1` under the key `a.0` at `a.2`, with the time to live
    /// `a.3`.
    pub fn put_all(&mut self, a: (K, V, Instant, Duration)) -> (f: Found<K, V>)
        requires
            table::keyed::<K, DefaultHashBuilder>(),
        ensures
            writes(old(self)@, final(self)@, a.0, a.1, a.2, a.3, f),
    {
        self.put(a.0, a.1, a.2, a.3)
    }

    /// Stores the entry `a.1` under the key `a.0`, and returns the entry that it displaces. A
    /// stored key stays.
    pub fn install(&mut self, a: (K, TimedEntry<V>)) -> (former: Option<TimedEntry<V>>)
        requires
            table::keyed::<K, DefaultHashBuilder>(),
        ensures
            final(self)@ == old(self)@.insert(a.0, a.1),
            former == if old(self)@.contains_key(a.0) {
                Some(old(self)@[a.0])
            } else {
                None
            },
    {
        self.map.insert(a.0, a.1)
    }

    /// Takes the entry of `k` out, expired or not.
    pub fn take(&mut self, k: &K) -> (r: Option<(K, TimedEntry<V>)>)
        requires
            table::keyed::<K, DefaultHashBuilder>(),
        ensures
            takes_one(old(self)@, final(self)@, *k, r),
    {
        table::take_entry(&mut self.map, k)
    }

    /// Takes the entry of `k` out, which a look-up found to be no longer live, as evicted.
    fn evict_one(&mut self, k: &K) -> (f: Found<K, V>)
        requires
            table::keyed::<K, DefaultHashBuilder>(),
        ensures
            final(self)@ == old(self)@.remove(*k),
            f.value is None,
            f.evicted == if old(self)@.contains_key(*k) {
                Some((*k, old(self)@[*k]))
            } else {
                None
            },
            f.tally == Tally::miss(
                if old(self)@.contains_key(*k) {
                    1
                } else {
                    0
                },
            ),
    {
        match table::take_entry(&mut self.map, k) {
            Some(taken) => Found {
                value: None,
                evicted: Some(taken),
                tally: Tally { hits: 0, misses: 1, evictions: 1 },
            },
            None => Found {
                value: None,
                evicted: None,
                tally: Tally { hits: 0, misses: 1, evictions: 0 },
            },
        }
    }

    /// Whether there is a live entry under `k`.
    pub fn contains(&self, k: &K, now: Instant) -> (b: bool)
        requires
            table::keyed::<K, DefaultHashBuilder>(),
        ensures
            b == live(self@, *k, now),
    {
        match self.map.get(k) {
            Some(entry) => !entry.is_expired_at(now),
            None => false,
        }
    }

    /// Whether there is a live entry under the key `a.0`, at the moment `a.1`.
    pub fn contains_when(&self, a: (&K, Moment)) -> (b: bool)
        requires
            table::keyed::<K, DefaultHashBuilder>(),
        ensures
            exists|now: Instant| a.1.allows(now) && b == #[trigger] live(self@, *a.0, now),
    {
        let now = a.1.now();
        self.contains(a.0, now)
    }

    /// Whether there is an entry under `k`, expired or not, and its deadline.
    pub fn expires_at(&self, k: &K) -> (r: (bool, Option<Instant>))
        requires
            table::keyed::<K, DefaultHashBuilder>(),
        ensures
            expiry::finds(self@, *k, r),
    {
        match self.map.get(k) {
            Some(entry) => (true, entry.expires_at),
            None => (false, None),
        }
    }

    pub fn len(&self) -> (n: usize)
        ensures
            table::keyed::<K, DefaultHashBuilder>() ==> n == self@.len(),
    {
        self.map.len()
    }

    /// The number of entries, for a look at the shard that takes nothing else.
    pub fn measure(&self, _a: ()) -> (n: usize)
        ensures
            table::keyed::<K, DefaultHashBuilder>() ==> n == self@.len(),
    {
        self.len()
    }

    /// Removes all entries.
    pub fn clear(&mut self)
        ensures
            table::keyed::<K, DefaultHashBuilder>() ==> final(self)@
                == Map::<K, TimedEntry<V>>::empty(),
    {
        self.map.clear()
    }

    /// Removes all entries, and returns how many there were.
    pub fn wipe(&mut self, _a: ()) -> (n: usize)
        ensures
            table::keyed::<K, DefaultHashBuilder>() ==> final(self)@
                == Map::<K, TimedEntry<V>>::empty() && n == old(self)@.len(),
    {
        let n: usize = self.len();
        self.clear();
        n
    }

    /// Takes all entries out.
    pub fn take_all(&mut self, _a: ()) -> (r: Vec<(K, TimedEntry<V>)>)
        ensures
            table::keyed::<K, DefaultHashBuilder>() ==> final(self)@
                == Map::<K, TimedEntry<V>>::empty() && table::enumerates(r@, old(self)@),
    {
        table::take_all(&mut self.map)
    }

    /// Takes out the entries that have expired at `now`.
    pub fn take_expired(&mut self, now: Instant) -> (r: Vec<(K, TimedEntry<V>)>)
        requires
            table::keyed::<K, DefaultHashBuilder>(),
        ensures
            sweep::takes(old(self)@, final(self)@, r@),
            sweep::sweeps(old(self)@, now, sweep::taken_keys(r@)),
    {
        sweep::take_expired(&mut self.map, now)
    }

    /// Takes out the entries that have expired at `now` or that `keep` rejects, and hands `keep`
    /// back. All of them are chosen before the first one leaves.
    pub fn take_doomed<F: FnMut(&K, &V) -> bool>(&mut self, keep: F, now: Instant) -> (r: (
        Vec<(K, TimedEntry<V>)>,
        F,
    ))
        requires
            table::keyed::<K, DefaultHashBuilder>(),
            forall|k: &K, v: &V| keep.requires((k, v)),
        ensures
            r.1 == keep,
            sweep::takes(old(self)@, final(self)@, r.0@),
            sweep::retains(old(self)@, keep, now, sweep::taken_keys(r.0@)),
    {
        sweep::take_doomed(&mut self.map, keep, now)
    }

    /// [`take_doomed`](Self::take_doomed) with the `keep` `a.0` at `a.1`.
    pub fn sift<F: FnMut(&K, &V) -> bool>(&mut self, a: (F, Instant)) -> (r: (
        Vec<(K, TimedEntry<V>)>,
        F,
    ))
        requires
            table::keyed::<K, DefaultHashBuilder>(),
            forall|k: &K, v: &V| a.0.requires((k, v)),
        ensures
            r.1 == a.0,
            sweep::takes(old(self)@, final(self)@, r.0@),
            sweep::retains(old(self)@, a.0, a.1, sweep::taken_keys(r.0@)),
    {
        self.take_doomed(a.0, a.1)
    }
}

impl<K: Hash + Eq, V: Clone> TtlStore<K, V> {
    /// What is seen of `k` at `now`.
    pub fn glance(&self, k: &K, now: Instant) -> (g: Glance<V>)
        requires
            table::keyed::<K, DefaultHashBuilder>(),
        ensures
            sees(self@, *k, now, g),
    {
        match self.map.get(k) {
            None => Glance::Absent,
            Some(entry) => if entry.is_expired_at(now) {
                Glance::Expired
            } else {
                Glance::Live(entry.value.clone())
            },
        }
    }

    /// What is seen of the key `a.0` at the moment `a.1`, and the instant at which it was seen.
    pub fn glance_when(&self, a: (&K, Moment)) -> (r: (Glance<V>, Instant))
        requires
            table::keyed::<K, DefaultHashBuilder>(),
        ensures
            a.1.allows(r.1),
            sees(self@, *a.0, r.1, r.0),
    {
        let now = a.1.now();
        (self.glance(a.0, now), now)
    }

    /// [`status`](Self::status) of the key `a.0` at the moment `a.1`, and the instant at which it
    /// was read.
    pub fn status_when(&self, a: (&K, Moment)) -> (r: ((Option<V>, bool), Instant))
        requires
            table::keyed::<K, DefaultHashBuilder>(),
        ensures
            a.1.allows(r.1),
            reads_status(self@, self@, *a.0, r.1, None, r.0),
    {
        let now = a.1.now();
        (self.status(a.0, now), now)
    }

    /// [`look_up_evicting`](Self::look_up_evicting) of the key `a.0` at `a.1`.
    pub fn look_up_again(&mut self, a: (&K, Instant)) -> (f: Found<K, V>)
        requires
            table::keyed::<K, DefaultHashBuilder>(),
        ensures
            looks_up(old(self)@, final(self)@, *a.0, a.1, None, f),
    {
        self.look_up_evicting(a.0, a.1)
    }

    /// Looks `k` up at `now`. A hit renews the entry, and an expired entry is evicted.
    pub fn look_up_renewing(&mut self, k: &K, now: Instant, ttl: Duration) -> (f: Found<K, V>)
        requires
            table::keyed::<K, DefaultHashBuilder>(),
        ensures
            looks_up(old(self)@, final(self)@, *k, now, Some(ttl), f),
    {
        let ghost pre = self@;
        let value: Option<V> = match table::value_mut(&mut self.map, k) {
            None => None,
            Some(entry) => if entry.is_expired_at(now) {
                None
            } else {
                entry.expires_at = renewed_deadline(ttl, now, entry.expires_at);
                Some(entry.value.clone())
            },
        };
        match value {
            Some(v) => Found {
                value: Some(v),
                evicted: None,
                tally: Tally { hits: 1, misses: 0, evictions: 0 },
            },
            None => {
                assert(self@ =~= pre);
                let f = self.evict_one(k);
                assert(!pre.contains_key(*k) ==> self@ =~= pre);
                f
            },
        }
    }

    /// Looks the key `a.0` up at the moment `a.1`. A hit renews the entry with the time to live
    /// that `a.2` shows, and an expired entry is evicted. Also returned are the instant and the
    /// time to live.
    pub fn look_up_when(&mut self, a: (&K, Moment, &SharedTtl)) -> (r: (
        Found<K, V>,
        Instant,
        Duration,
    ))
        requires
            table::keyed::<K, DefaultHashBuilder>(),
        ensures
            a.1.allows(r.1),
            a.2.shows(r.2),
            looks_up(old(self)@, final(self)@, *a.0, r.1, Some(r.2), r.0),
    {
        let now = a.1.now();
        let ttl = a.2.ttl();
        (self.look_up_renewing(a.0, now, ttl), now, ttl)
    }

    /// Looks `k` up at `now` again after it was seen expired: another thread may have written it
    /// since. What is still expired is evicted.
    pub fn look_up_evicting(&mut self, k: &K, now: Instant) -> (f: Found<K, V>)
        requires
            table::keyed::<K, DefaultHashBuilder>(),
        ensures
            looks_up(old(self)@, final(self)@, *k, now, None, f),
    {
        let ghost pre = self@;
        match self.glance(k, now) {
            Glance::Live(v) => Found {
                value: Some(v),
                evicted: None,
                tally: Tally { hits: 1, misses: 0, evictions: 0 },
            },
            _ => {
                let f = self.evict_one(k);
                assert(!pre.contains_key(*k) ==> self@ =~= pre);
                f
            },
        }
    }

    /// The value under `k`, expired or not, and whether it has expired at `now`. A hit renews the
    /// entry.
    pub fn status_renewing(&mut self, k: &K, now: Instant, ttl: Duration) -> (r: (Option<V>, bool))
        requires
            table::keyed::<K, DefaultHashBuilder>(),
        ensures
            reads_status(old(self)@, final(self)@, *k, now, Some(ttl), r),
    {
        let ghost pre = self@;
        let r: (Option<V>, bool) = match table::value_mut(&mut self.map, k) {
            None => (None, false),
            Some(entry) => {
                let expired: bool = entry.is_expired_at(now);
                let value = entry.value.clone();
                if !expired {
                    entry.expires_at = renewed_deadline(ttl, now, entry.expires_at);
                }
                (Some(value), expired)
            },
        };
        assert(!live(pre, *k, now) ==> self@ =~= pre);
        r
    }

    /// The value under the key `a.0`, expired or not, and whether it has expired at the moment
    /// `a.1`. A hit renews the entry with the time to live that `a.2` shows. Also returned are the
    /// instant and the time to live.
    pub fn status_renewing_when(&mut self, a: (&K, Moment, &SharedTtl)) -> (r: (
        (Option<V>, bool),
        Instant,
        Duration,
    ))
        requires
            table::keyed::<K, DefaultHashBuilder>(),
        ensures
            a.1.allows(r.1),
            a.2.shows(r.2),
            reads_status(old(self)@, final(self)@, *a.0, r.1, Some(r.2), r.0),
    {
        let now = a.1.now();
        let ttl = a.2.ttl();
        (self.status_renewing(a.0, now, ttl), now, ttl)
    }

    /// The value under `k`, expired or not, and whether it has expired at `now`.
    pub fn status(&self, k: &K, now: Instant) -> (r: (Option<V>, bool))
        requires
            table::keyed::<K, DefaultHashBuilder>(),
        ensures
            reads_status(self@, self@, *k, now, None, r),
    {
        match self.map.get(k) {
            None => (None, false),
            Some(entry) => (Some(entry.value.clone()), entry.is_expired_at(now)),
        }
    }

    /// The value under `k`, expired or not, and its deadline.
    pub fn peek_expires_at(&self, k: &K) -> (r: (Option<V>, Option<Instant>))
        requires
            table::keyed::<K, DefaultHashBuilder>(),
        ensures
            expiry::peeks(self@, *k, r),
    {
        match self.map.get(k) {
            None => (None, None),
            Some(entry) => (Some(entry.value.clone()), entry.expires_at),
        }
    }
}

/// Whether `copy` is a copy of the entry of `q`, which is live at `now`.
pub open spec fn copies_live_one<K: Clone, V: Clone>(
    m: Map<K, TimedEntry<V>>,
    now: Instant,
    q: K,
    copy: (K, TimedEntry<V>),
) -> bool {
    &&& live(m, q, now)
    &&& cloned(q, copy.0)
    &&& expiry::copies_entry(m[q], copy.1)
}

/// Whether `copy` is a copy of an entry that is live at `now`.
pub open spec fn is_copy<K: Clone, V: Clone>(
    m: Map<K, TimedEntry<V>>,
    now: Instant,
    copy: (K, TimedEntry<V>),
) -> bool {
    exists|q: K| #[trigger] copies_live_one(m, now, q, copy)
}

/// Whether `list` holds copies of the entries that are live at `now`, and nothing else.
pub open spec fn copies_live<K: Clone, V: Clone>(
    m: Map<K, TimedEntry<V>>,
    now: Instant,
    list: Seq<(K, TimedEntry<V>)>,
) -> bool {
    &&& forall|i: int| 0 <= i < list.len() ==> is_copy(m, now, #[trigger] list[i])
    &&& forall|q: K|
        live(m, q, now) ==> exists|i: int|
            0 <= i < list.len() && #[trigger] copies_live_one(m, now, q, list[i])
}

impl<K: Hash + Eq + Clone, V: Clone> TtlStore<K, V> {
    /// A store with copies of all entries.
    pub fn duplicate(&self) -> (s: Self)
        ensures
            expiry::copies(self@, s@),
    {
        TtlStore { map: self.map.clone() }
    }

    /// Copies of all entries, and a reading of the counters of `shard`.
    pub fn copy_with_counts(&self, shard: &Shard<TtlStore<K, V>>) -> (r: (TtlStore<K, V>, Tally))
        ensures
            expiry::copies(self@, r.0@),
            shard.counted(r.1),
    {
        (self.duplicate(), shard.counts())
    }

    /// [`live_entries`](Self::live_entries) at the instant that `clock` shows.
    pub fn present_entries(&self, clock: Clock) -> (list: Vec<(K, TimedEntry<V>)>)
        requires
            table::keyed::<K, DefaultHashBuilder>(),
        ensures
            exists|now: Instant|
                clock.shows(now) && #[trigger] copies_live(self@, now, list@),
    {
        let now = clock.now();
        self.live_entries(now)
    }

    /// Copies of the entries that are live at `now`, with their deadlines.
    pub fn live_entries(&self, now: Instant) -> (list: Vec<(K, TimedEntry<V>)>)
        requires
            table::keyed::<K, DefaultHashBuilder>(),
        ensures
            copies_live(self@, now, list@),
    {
        let mut list: Vec<(K, TimedEntry<V>)> = Vec::new();
        let ghost all = vstd::std_specs::iter::IteratorSpec::remaining(
            &vstd::std_specs::hash::spec_hash_map_iter(&self.map),
        );
        for item in it: self.map.iter()
            invariant
                it.seq() == all,
                all == vstd::std_specs::iter::IteratorSpec::remaining(
                    &vstd::std_specs::hash::spec_hash_map_iter(&self.map),
                ),
                forall|i: int| 0 <= i < list.len() ==> is_copy(self.map@, now, #[trigger] list[i]),
                forall|n: int|
                    0 <= n < it.index() && !(#[trigger] all[n]).1.expired(now) ==> exists|i: int|
                        0 <= i < list.len() && #[trigger] copies_live_one(
                            self.map@,
                            now,
                            *all[n].0,
                            list[i],
                        ),
        {
            let (k, entry) = item;
            let ghost before = list@;
            let ghost index = it.index() as int;
            proof {
                assert(all[index] == item);
                assert(self.map@.contains_key(*all[index].0));
                assert(self.map@[*all[index].0] == *all[index].1);
            }
            if !entry.is_expired_at(now) {
                list.push((k.clone(), entry.clone()));
                proof {
                    assert(copies_live_one(self.map@, now, *k, list@[before.len() as int]));
                    assert forall|n: int| 0 <= n < index + 1 && !(#[trigger] all[n]).1.expired(
                        now,
                    ) implies exists|i: int|
                        0 <= i < list.len() && #[trigger] copies_live_one(
                            self.map@,
                            now,
                            *all[n].0,
                            list[i],
                        ) by {
                        if n < index {
                            let i = choose|i: int|
                                0 <= i < before.len() && #[trigger] copies_live_one(
                                    self.map@,
                                    now,
                                    *all[n].0,
                                    before[i],
                                );
                            assert(list[i] == before[i]);
                        }
                    }
                }
            }
        }
        proof {
            assert forall|q: K| live(self@, q, now) implies exists|i: int|
                0 <= i < list.len() && #[trigger] copies_live_one(self@, now, q, list[i]) by {
                assert(self.map@.contains_key(q));
                assert(all.contains((&q, &self.map@[q])));
                let n = choose|n: int| 0 <= n < all.len() && all[n] == (&q, &self.map@[q]);
                assert(!all[n].1.expired(now));
            }
        }
        list
    }
}

/// A value that was written is what a look-up returns a clone of, as a hit, until its time to live
/// is over; with no time to live, it does not end.
pub proof fn law_read_after_write<K, V: Clone>(
    pre: Map<K, TimedEntry<V>>,
    mid: Map<K, TimedEntry<V>>,
    post: Map<K, TimedEntry<V>>,
    k: K,
    v: V,
    written: Instant,
    ttl: Duration,
    now: Instant,
    renewal: Option<Duration>,
    f: Found<K, V>,
    g: Found<K, V>,
)
    requires
        writes(pre, mid, k, v, written, ttl, f),
        looks_up(mid, post, k, now, renewal, g),
    ensures
        !expiry::expired(expiry::deadline(ttl, written), now) ==> g.value is Some && cloned(
            v,
            g.value->0,
        ) && g.tally == Tally::hit() && post.contains_key(k),
{
}

/// From the deadline on, a look-up finds nothing: it is a miss, and the entry is evicted once.
pub proof fn law_look_up_evicts_the_expired<K, V: Clone>(
    pre: Map<K, TimedEntry<V>>,
    mid: Map<K, TimedEntry<V>>,
    post: Map<K, TimedEntry<V>>,
    k: K,
    now: Instant,
    later: Instant,
    renewal: Option<Duration>,
    f: Found<K, V>,
    g: Found<K, V>,
)
    requires
        pre.contains_key(k),
        pre[k].expired(now),
        looks_up(pre, mid, k, now, renewal, f),
        looks_up(mid, post, k, later, renewal, g),
    ensures
        f.value is None && f.evicted == Some((k, pre[k])) && f.tally == Tally::miss(1),
        g.value is None && g.evicted is None && g.tally == Tally::miss(0),
        post == pre.remove(k),
{
}

/// A look-up and a write change no entry but that of their key.
pub proof fn law_other_entries_stay<K, V: Clone>(
    pre: Map<K, TimedEntry<V>>,
    post: Map<K, TimedEntry<V>>,
    k: K,
    v: V,
    now: Instant,
    ttl: Duration,
    renewal: Option<Duration>,
    f: Found<K, V>,
    other: K,
)
    requires
        writes(pre, post, k, v, now, ttl, f) || looks_up(pre, post, k, now, renewal, f),
        other != k,
    ensures
        post.contains_key(other) == pre.contains_key(other),
        pre.contains_key(other) ==> post[other] == pre[other],
{
}

/// A hit that renews an entry gives it the deadline of a write at that instant. While there is no
/// time to live, it keeps the deadline that it has.
pub proof fn law_hit_renews<K, V: Clone>(
    pre: Map<K, TimedEntry<V>>,
    post: Map<K, TimedEntry<V>>,
    k: K,
    now: Instant,
    ttl: Duration,
    f: Found<K, V>,
)
    requires
        live(pre, k, now),
        looks_up(pre, post, k, now, Some(ttl), f),
    ensures
        post[k].value == pre[k].value,
        expiry::deadline(ttl, now) is Some ==> post[k].expires_at == expiry::deadline(ttl, now),
        ttl.nanos == 0 ==> post[k].expires_at == pre[k].expires_at,
{
}

/// What was taken out is not found again, and nothing is evicted twice.
pub proof fn law_removed_is_gone<K, V: Clone>(
    pre: Map<K, TimedEntry<V>>,
    mid: Map<K, TimedEntry<V>>,
    post: Map<K, TimedEntry<V>>,
    k: K,
    now: Instant,
    renewal: Option<Duration>,
    taken: Option<(K, TimedEntry<V>)>,
    g: Found<K, V>,
)
    requires
        takes_one(pre, mid, k, taken),
        looks_up(mid, post, k, now, renewal, g),
    ensures
        g.value is None && g.evicted is None,
        post == mid,
{
}

/// A write returns the very value that a look-up at the same instant would have returned a clone
/// of, and evicts the entry that the look-up would have evicted.
pub proof fn law_write_displaces_what_a_look_up_finds<K, V: Clone>(
    pre: Map<K, TimedEntry<V>>,
    read: Map<K, TimedEntry<V>>,
    post: Map<K, TimedEntry<V>>,
    k: K,
    v: V,
    now: Instant,
    ttl: Duration,
    renewal: Option<Duration>,
    g: Found<K, V>,
    f: Found<K, V>,
)
    requires
        looks_up(pre, read, k, now, renewal, g),
        writes(pre, post, k, v, now, ttl, f),
    ensures
        f.value is Some <==> g.value is Some,
        f.value is Some ==> cloned(f.value->0, g.value->0),
        f.evicted == g.evicted,
        f.tally.evictions == g.tally.evictions,
{
}

/// A look-up that reports the status of an entry agrees with a plain one about what is live, and
/// hands out the expired values that a plain one evicts.
pub proof fn law_status_agrees_with_look_up<K, V: Clone>(
    m: Map<K, TimedEntry<V>>,
    k: K,
    now: Instant,
    r: (Option<V>, bool),
    value: Option<V>,
)
    requires
        reports(m, k, now, r),
        answers(m, k, now, value),
    ensures
        value is Some <==> r.0 is Some && !r.1,
        r.1 ==> r.0 is Some,
{
}

/// A copy of a shard answers a look-up as its source does: with the copied value, if that is live,
/// and with the same deadline.
pub proof fn law_copy_answers_alike<K, V: Clone>(
    held: Map<K, TimedEntry<V>>,
    copy: Map<K, TimedEntry<V>>,
    k: K,
    now: Instant,
    value: Option<V>,
)
    requires
        expiry::copies(held, copy),
        answers(copy, k, now, value),
    ensures
        value is Some <==> live(held, k, now),
        value matches Some(v) ==> cloned(held[k].value, copy[k].value) && cloned(copy[k].value, v),
        held.contains_key(k) ==> copy[k].expires_at == held[k].expires_at,
{
    if held.contains_key(k) {
        assert(copy.contains_key(k));
    }
}

} // verus!
