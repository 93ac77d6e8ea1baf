//! A cache whose entries expire.
use crate::stores::error::{self, BuildError};
use crate::stores::expiry::{self, Listed, TimedEntry};
use crate::stores::expiry_order;
use crate::stores::listener::{self, Listener, OnEvict};
use crate::stores::sweep;
use crate::stores::table::{self, DefaultHashBuilder};
use crate::stores::ttl_laws;
use crate::stores::ttl_view::{self, TtlView};
use crate::time::{Clock, Duration, Instant};
use crate::traits::{CacheClearWithOnEvict, CacheEvict, CacheExpiry};
use std::collections::hash_map::Entry;
use std::collections::HashMap;
use std::hash::{BuildHasher, Hash};
use vstd::prelude::*;

verus! {

broadcast use vstd::std_specs::hash::group_hash_axioms;

/// A cache whose entries expire. Expired entries are never returned; they leave when a look-up
/// finds them, when a write displaces them, or when they are swept.
#[verifier::reject_recursive_types(K)]
#[verifier::reject_recursive_types(V)]
#[verifier::reject_recursive_types(S)]
pub struct TtlCache<K, V, S = DefaultHashBuilder> {
    clock: Clock,
    store: HashMap<K, TimedEntry<V>, S>,
    ttl: Duration,
    hits: u64,
    misses: u64,
    evictions: u64,
    initial_capacity: Option<usize>,
    refresh: bool,
    on_evict: Listener<K, V>,
}

impl<K, V, S> View for TtlCache<K, V, S> {
    type V = TtlView<K, V>;

    closed spec fn view(&self) -> TtlView<K, V> {
        TtlView {
            clock: self.clock,
            entries: self.store@,
            ttl: self.ttl,
            refresh: self.refresh,
            initial_capacity: self.initial_capacity,
            hits: self.hits,
            misses: self.misses,
            evictions: self.evictions,
            callback: self.on_evict.callback(),
            heard: self.on_evict.heard(),
        }
    }
}

impl<K, V, S> TtlCache<K, V, S> {
    /// Whether the cache is in order: keys behave as keys and the callback takes any entry.
    pub closed spec fn wf(&self) -> bool {
        &&& table::keyed::<K, S>()
        &&& self.on_evict.wf()
        &&& self.store@.dom().finite()
    }

    /// For each entry that counts as heard, the callback, if there is one, was called.
    pub proof fn law_heard_means_called(self, i: int)
        requires
            self.wf(),
            0 <= i < self@.heard.len(),
        ensures
            self@.callback matches Some(f) ==> f.hears(self@.heard[i].0, self@.heard[i].1),
    {
    }

    /// What the laws of the cache ask of its state.
    pub proof fn lemma_wf(self)
        requires
            self.wf(),
        ensures
            self@.entries.dom().finite(),
            listener::called_for(self@.callback, self@.heard),
    {
    }

    /// Whether an entry with the deadline `expires_at` is live at `now`.
    pub fn entry_live_at(expires_at: Option<Instant>, now: Instant) -> (b: bool)
        ensures
            b == !expiry::expired(expires_at, now),
    {
        !expiry::is_past(expires_at, now)
    }

    /// The deadline of an entry that a hit renews.
    pub fn refreshed_expires_at(
        ttl: Duration,
        now: Instant,
        current: Option<Instant>,
    ) -> (at: Option<Instant>)
        ensures
            at == ttl_view::renewed(ttl, now, current),
    {
        if ttl.is_zero() {
            current
        } else {
            now.checked_add(ttl)
        }
    }
}

impl<K: Hash + Eq, V, S: BuildHasher> TtlCache<K, V, S> {
    /// Counts the entry `(k, v)`, which was taken out of `pre`, as evicted, then calls the
    /// callback.
    fn count_taken(&mut self, k: &K, v: &V, Ghost(pre): Ghost<TtlView<K, V>>)
        requires
            old(self).wf(),
            old(self)@ == (TtlView { entries: pre.entries.remove(*k), ..pre }),
            pre.entries.contains_key(*k),
            pre.entries[*k].value == *v,
        ensures
            final(self).wf(),
            final(self)@ == pre.discard(*k),
    {
        self.evictions = expiry::count_up(self.evictions, 1);
        self.on_evict.notify(k, v);
        proof {
            expiry_order::lemma_single(*k);
            assert(self@.entries =~= pre.discard(*k).entries);
            assert(self@.heard =~= pre.discard(*k).heard);
        }
    }

    /// Counts a hit of the entry of `k`, which is live, and renews it where hits do that.
    fn count_hit(&mut self, k: &K, now: Instant) -> (v: &mut V)
        requires
            old(self).wf(),
            old(self)@.entries.contains_key(*k),
        ensures
            *v == old(self)@.entries[*k].value,
            final(self).wf(),
            final(self)@ == old(self)@.hit(*k, now).with_value(*k, *final(v)),
    {
        self.hits = expiry::count_up(self.hits, 1);
        let entry = table::value_mut(&mut self.store, k).unwrap();
        if self.refresh {
            entry.expires_at = Self::refreshed_expires_at(self.ttl, now, entry.expires_at);
        }
        &mut entry.value
    }

    /// Counts a miss of `k`, which has no live entry. An expired one leaves.
    fn count_miss(&mut self, k: &K)
        requires
            old(self).wf(),
        ensures
            final(self).wf(),
            final(self)@ == if old(self)@.entries.contains_key(*k) {
                old(self)@.miss().discard(*k)
            } else {
                old(self)@.miss()
            },
    {
        self.misses = expiry::count_up(self.misses, 1);
        let ghost pre = self@;
        if let Some((stored, entry)) = table::take_entry(&mut self.store, k) {
            self.count_taken(&stored, &entry.value, Ghost(pre));
        } else {
            assert(self@.entries =~= pre.entries);
        }
    }

    /// The live value under `k`. Counts a hit or a miss; an expired entry leaves.
    pub fn cache_get_at(&mut self, k: &K, now: Instant) -> (r: Option<&V>)
        requires
            old(self).wf(),
        ensures
            final(self).wf(),
            final(self)@ == old(self)@.look_up(*k, now),
            match r {
                Some(v) => old(self)@.live(*k, now) == Some(*v),
                None => old(self)@.live(*k, now) is None,
            },
    {
        let live: bool = match self.store.get(k) {
            Some(entry) => Self::entry_live_at(entry.expires_at, now),
            None => false,
        };
        if live {
            let ghost pre = self@;
            let v = self.count_hit(k, now);
            assert(pre.hit(*k, now).with_value(*k, *v).entries =~= pre.hit(*k, now).entries);
            Some(v)
        } else {
            self.count_miss(k);
            None
        }
    }

    /// Access to the live value under `k`. Counts a hit or a miss; an expired entry leaves.
    pub fn cache_get_mut_at(&mut self, k: &K, now: Instant) -> (r: Option<&mut V>)
        requires
            old(self).wf(),
        ensures
            final(self).wf(),
            match r {
                Some(v) => {
                    &&& old(self)@.live(*k, now) == Some(*v)
                    &&& final(self)@ == old(self)@.look_up(*k, now).with_value(*k, *final(v))
                },
                None => {
                    &&& old(self)@.live(*k, now) is None
                    &&& final(self)@ == old(self)@.look_up(*k, now)
                },
            },
    {
        let live: bool = match self.store.get(k) {
            Some(entry) => Self::entry_live_at(entry.expires_at, now),
            None => false,
        };
        if live {
            Some(self.count_hit(k, now))
        } else {
            self.count_miss(k);
            None
        }
    }
}

impl<K: Hash + Eq, V, S: BuildHasher> TtlCache<K, V, S> {
    /// Whether the table of the cache is a fresh one that hashes with `hasher`, with the room that
    /// `room` asks for, as far as `made` says that it was made.
    pub closed spec fn starts_with_room(&self, hasher: S, room: Option<usize>, made: bool) -> bool {
        call_ensures(
            table::table_with_room::<K, TimedEntry<V>, S>,
            (hasher, room),
            (self.store, made),
        )
    }

    /// Stores `entry` under `key`, and returns the value that it displaces unless that had expired
    /// at `now`. A stored key stays when its value is overwritten.
    fn set_entry(&mut self, key: K, entry: TimedEntry<V>, now: Instant) -> (r: Option<V>)
        requires
            old(self).wf(),
        ensures
            final(self).wf(),
            r == old(self)@.live(key, now),
            final(self)@ == old(self)@.store(
                key,
                entry,
                old(self)@.entries.contains_key(key) && old(self)@.entries[key].expired(now),
            ),
    {
        let ghost pre = self@;
        match self.store.entry(key) {
            Entry::Occupied(mut occupied) => {
                let former = occupied.insert(entry);
                if Self::entry_live_at(former.expires_at, now) {
                    Some(former.value)
                } else {
                    self.evictions = expiry::count_up(self.evictions, 1);
                    self.on_evict.notify(occupied.key(), &former.value);
                    None
                }
            },
            Entry::Vacant(vacant) => {
                vacant.insert(entry);
                None
            },
        }
    }

    /// Writes `value` under `key` at `now`, and returns the value that it displaces unless that
    /// had expired.
    pub fn cache_set_at(&mut self, key: K, value: V, now: Instant) -> (r: Option<V>)
        requires
            old(self).wf(),
        ensures
            final(self).wf(),
            r == old(self)@.live(key, now),
            final(self)@ == old(self)@.put(key, value, now),
    {
        let expires_at = expiry::compute_expires_at(self.ttl, now);
        self.set_entry(key, TimedEntry { expires_at, value }, now)
    }

    /// Whether there is a live value under `k`. Counts a hit, which may renew the entry, or a
    /// miss; no entry leaves.
    pub fn probe_at(&mut self, k: &K, now: Instant) -> (live: bool)
        requires
            old(self).wf(),
        ensures
            final(self).wf(),
            live == (old(self)@.live(*k, now) is Some),
            final(self)@ == old(self)@.probe(*k, now),
            live == ttl_laws::holds(old(self)@.entries, *k, now),
            live ==> ttl_laws::follows_hit(old(self)@, final(self)@, *k, now),
            !live ==> ttl_laws::follows_miss(old(self)@, final(self)@),
    {
        let live: bool = match self.store.get(k) {
            Some(entry) => Self::entry_live_at(entry.expires_at, now),
            None => false,
        };
        if live {
            let ghost pre = self@;
            let v = self.count_hit(k, now);
            assert(pre.hit(*k, now).with_value(*k, *v).entries =~= pre.hit(*k, now).entries);
        } else {
            self.misses = expiry::count_up(self.misses, 1);
        }
        live
    }

    /// Writes `value` under `key` at `now`, where a look-up found no live value, and gives access
    /// to it. An entry that it displaces counts as evicted.
    pub fn fill_at(&mut self, key: K, value: V, now: Instant) -> (r: &mut V)
        requires
            old(self).wf(),
        ensures
            final(self).wf(),
            *r == value,
            final(self)@ == old(self)@.fill(key, value, now).with_value(key, *final(r)),
    {
        let expires_at = expiry::compute_expires_at(self.ttl, now);
        match self.store.entry(key) {
            Entry::Occupied(mut occupied) => {
                let former = occupied.insert(TimedEntry { expires_at, value });
                self.evictions = expiry::count_up(self.evictions, 1);
                self.on_evict.notify(occupied.key(), &former.value);
                &mut occupied.into_mut().value
            },
            Entry::Vacant(vacant) => { &mut vacant.insert(TimedEntry { expires_at, value }).value },
        }
    }

    /// Access to the value that is stored under `k`. Nothing is counted or renewed.
    pub fn stored_value_mut(&mut self, k: &K) -> (v: &mut V)
        requires
            old(self).wf(),
            old(self)@.entries.contains_key(*k),
        ensures
            *v == old(self)@.entries[*k].value,
            final(self).wf(),
            final(self)@ == old(self)@.with_value(*k, *final(v)),
    {
        &mut table::value_mut(&mut self.store, k).unwrap().value
    }

    /// Access to the live value under `key`. Where there is none, `f` makes one, which is written
    /// as by [`fill_at`](Self::fill_at).
    pub fn cache_get_or_set_with_mut<F: FnOnce() -> V>(&mut self, key: K, f: F) -> (r: &mut V)
        requires
            old(self).wf(),
            f.requires(()),
        ensures
            final(self).wf(),
            exists|now: Instant, later: Instant, v: V|
                {
                    &&& old(self)@.clock.shows(now) && old(self)@.clock.shows(later)
                    &&& final(self)@ == (#[trigger] old(self)@.look_up_or_put(
                        key,
                        v,
                        now,
                        later,
                    )).with_value(key, *final(r))
                    &&& *r == old(self)@.live_or(key, v, now)
                    &&& old(self)@.live(key, now) is None ==> f.ensures((), v)
                        && old(self)@.clock.shows_after(v, later)
                    &&& ttl_laws::holds(old(self)@.entries, key, now) && old(self)@.refresh
                        && old(self)@.ttl.nanos > 0 ==> ttl_laws::one_ttl_after(
                        old(self)@.ttl,
                        now,
                        final(self)@.entries[key].expires_at,
                    )
                },
    {
        let ghost pre = self@;
        let now = self.clock.now();
        if self.probe_at(&key, now) {
            let r = self.stored_value_mut(&key);
            assert(pre.look_up_or_put(key, *r, now, now) == pre.hit(key, now));
            r
        } else {
            let v = f();
            let later = self.clock.now_after(&v);
            let ghost made = v;
            let r = self.fill_at(key, v, later);
            assert(pre.look_up_or_put(key, made, now, later) == pre.miss().fill(key, made, later));
            r
        }
    }

    /// As [`cache_get_or_set_with_mut`](Self::cache_get_or_set_with_mut) with an `f` that can
    /// fail: its error is returned, and counts as a miss but changes nothing else.
    pub fn cache_try_get_or_set_with_mut<F: FnOnce() -> Result<V, E>, E>(
        &mut self,
        key: K,
        f: F,
    ) -> (r: Result<&mut V, E>)
        requires
            old(self).wf(),
            f.requires(()),
        ensures
            final(self).wf(),
            match r {
                Ok(r) => exists|now: Instant, later: Instant, v: V|
                    {
                        &&& old(self)@.clock.shows(now) && old(self)@.clock.shows(later)
                        &&& final(self)@ == (#[trigger] old(self)@.look_up_or_put(
                            key,
                            v,
                            now,
                            later,
                        )).with_value(key, *final(r))
                        &&& *r == old(self)@.live_or(key, v, now)
                        &&& old(self)@.live(key, now) is None ==> f.ensures((), Ok(v))
                            && old(self)@.clock.shows_after(v, later)
                        &&& ttl_laws::holds(old(self)@.entries, key, now) && old(self)@.refresh
                            && old(self)@.ttl.nanos > 0 ==> ttl_laws::one_ttl_after(
                            old(self)@.ttl,
                            now,
                            final(self)@.entries[key].expires_at,
                        )
                    },
                Err(e) => {
                    &&& f.ensures((), Err(e))
                    &&& exists|now: Instant|
                        old(self)@.clock.shows(now) && #[trigger] old(self)@.live(key, now) is None
                    &&& final(self)@ == old(self)@.miss()
                },
            },
    {
        let ghost pre = self@;
        let now = self.clock.now();
        if self.probe_at(&key, now) {
            let r = self.stored_value_mut(&key);
            assert(pre.look_up_or_put(key, *r, now, now) == pre.hit(key, now));
            Ok(r)
        } else {
            assert(pre.live(key, now) is None);
            match f() {
                Ok(v) => {
                    let later = self.clock.now_after(&v);
                    let ghost made = v;
                    let r = self.fill_at(key, v, later);
                    assert(pre.look_up_or_put(key, made, now, later) == pre.miss().fill(
                        key,
                        made,
                        later,
                    ));
                    Ok(r)
                },
                Err(e) => Err(e),
            }
        }
    }

    /// [`cache_get_or_set_with_mut`](Self::cache_get_or_set_with_mut), for reading only.
    pub fn cache_get_or_set_with<F: FnOnce() -> V>(&mut self, key: K, f: F) -> (r: &V)
        requires
            old(self).wf(),
            f.requires(()),
        ensures
            final(self).wf(),
            exists|now: Instant, later: Instant, v: V|
                {
                    &&& old(self)@.clock.shows(now) && old(self)@.clock.shows(later)
                    &&& final(self)@ == (#[trigger] old(self)@.look_up_or_put(
                        key,
                        v,
                        now,
                        later,
                    )).with_value(key, *r)
                    &&& *r == old(self)@.live_or(key, v, now)
                    &&& old(self)@.live(key, now) is None ==> f.ensures((), v)
                        && old(self)@.clock.shows_after(v, later)
                    &&& ttl_laws::holds(old(self)@.entries, key, now) && old(self)@.refresh
                        && old(self)@.ttl.nanos > 0 ==> ttl_laws::one_ttl_after(
                        old(self)@.ttl,
                        now,
                        final(self)@.entries[key].expires_at,
                    )
                },
    {
        self.cache_get_or_set_with_mut(key, f)
    }

    /// [`cache_try_get_or_set_with_mut`](Self::cache_try_get_or_set_with_mut), for reading only.
    pub fn cache_try_get_or_set_with<F: FnOnce() -> Result<V, E>, E>(
        &mut self,
        key: K,
        f: F,
    ) -> (r: Result<&V, E>)
        requires
            old(self).wf(),
            f.requires(()),
        ensures
            final(self).wf(),
            match r {
                Ok(r) => exists|now: Instant, later: Instant, v: V|
                    {
                        &&& old(self)@.clock.shows(now) && old(self)@.clock.shows(later)
                        &&& final(self)@ == (#[trigger] old(self)@.look_up_or_put(
                            key,
                            v,
                            now,
                            later,
                        )).with_value(key, *r)
                        &&& *r == old(self)@.live_or(key, v, now)
                        &&& old(self)@.live(key, now) is None ==> f.ensures((), Ok(v))
                            && old(self)@.clock.shows_after(v, later)
                        &&& ttl_laws::holds(old(self)@.entries, key, now) && old(self)@.refresh
                            && old(self)@.ttl.nanos > 0 ==> ttl_laws::one_ttl_after(
                            old(self)@.ttl,
                            now,
                            final(self)@.entries[key].expires_at,
                        )
                    },
                Err(e) => {
                    &&& f.ensures((), Err(e))
                    &&& exists|now: Instant|
                        old(self)@.clock.shows(now) && #[trigger] old(self)@.live(key, now) is None
                    &&& final(self)@ == old(self)@.miss()
                },
            },
    {
        match self.cache_try_get_or_set_with_mut(key, f) {
            Ok(r) => Ok(r),
            Err(e) => Err(e),
        }
    }

    /// Removes the entry of `k` as evicted, and returns its value unless it had expired.
    pub fn cache_remove_at(&mut self, k: &K, now: Instant) -> (r: Option<V>)
        requires
            old(self).wf(),
        ensures
            final(self).wf(),
            r == old(self)@.live(*k, now),
            final(self)@ == if old(self)@.entries.contains_key(*k) {
                old(self)@.discard(*k)
            } else {
                old(self)@
            },
    {
        let ghost pre = self@;
        match table::take_entry(&mut self.store, k) {
            Some((stored, entry)) => {
                let live: bool = Self::entry_live_at(entry.expires_at, now);
                self.count_taken(&stored, &entry.value, Ghost(pre));
                if live {
                    Some(entry.value)
                } else {
                    None
                }
            },
            None => {
                assert(self@.entries =~= pre.entries);
                None
            },
        }
    }

    /// Removes the entry of `k` as evicted, and returns it with its key even if it had expired.
    pub fn cache_remove_entry(&mut self, k: &K) -> (r: Option<(K, V)>)
        requires
            old(self).wf(),
        ensures
            final(self).wf(),
            r == if old(self)@.entries.contains_key(*k) {
                Some((*k, old(self)@.entries[*k].value))
            } else {
                None
            },
            final(self)@ == if old(self)@.entries.contains_key(*k) {
                old(self)@.discard(*k)
            } else {
                old(self)@
            },
    {
        let ghost pre = self@;
        match table::take_entry(&mut self.store, k) {
            Some((stored, entry)) => {
                self.count_taken(&stored, &entry.value, Ghost(pre));
                Some((stored, entry.value))
            },
            None => {
                assert(self@.entries =~= pre.entries);
                None
            },
        }
    }

    /// Removes the entry of `k` as evicted, and tells whether there was one, expired or not.
    pub fn cache_delete(&mut self, k: &K) -> (b: bool)
        requires
            old(self).wf(),
        ensures
            final(self).wf(),
            b == old(self)@.entries.contains_key(*k),
            final(self)@ == if b {
                old(self)@.discard(*k)
            } else {
                old(self)@
            },
    {
        self.cache_remove_entry(k).is_some()
    }

    /// Removes all entries. None counts as evicted, and the callback is not called.
    pub fn cache_clear(&mut self)
        requires
            old(self).wf(),
        ensures
            final(self).wf(),
            final(self)@ == (TtlView { entries: Map::empty(), ..old(self)@ }),
    {
        self.store.clear();
    }

    /// Removes all entries, zeroes the counters, and gives room back down to what was
    /// preallocated. None counts as evicted, and the callback is not called.
    pub fn cache_reset(&mut self)
        requires
            old(self).wf(),
        ensures
            final(self).wf(),
            final(self)@ == (TtlView {
                entries: Map::empty(),
                hits: 0,
                misses: 0,
                evictions: 0,
                ..old(self)@
            }),
            table::gave_room_back::<K, TimedEntry<V>, S>(
                match old(self)@.initial_capacity {
                    Some(n) => n,
                    None => 0,
                },
            ),
    {
        table::empty_down_to(
            &mut self.store,
            match self.initial_capacity {
                Some(n) => n,
                None => 0,
            },
        );
        self.cache_reset_metrics();
    }

    /// Zeroes the counters.
    pub fn cache_reset_metrics(&mut self)
        requires
            old(self).wf(),
        ensures
            final(self).wf(),
            final(self)@ == (TtlView { hits: 0, misses: 0, evictions: 0, ..old(self)@ }),
    {
        self.misses = 0;
        self.hits = 0;
        self.evictions = 0;
    }

    /// Counts the entries `removed`, which were taken out of `pre`, as evicted, then calls the
    /// callback for each.
    fn notify_evicted(
        &mut self,
        removed: &Vec<(K, TimedEntry<V>)>,
        Ghost(pre): Ghost<TtlView<K, V>>,
    ) -> (n: usize)
        requires
            old(self).wf(),
            old(self)@ == (TtlView { entries: old(self)@.entries, ..pre }),
            sweep::takes(pre.entries, old(self)@.entries, removed@),
        ensures
            final(self).wf(),
            n == removed.len(),
            final(self)@ == pre.drop_keys(sweep::taken_keys(removed@)),
    {
        self.evictions = expiry::count_up(self.evictions, removed.len());
        let ghost gone = sweep::taken_keys(removed@);
        let ghost all = gone.map_values(|k: K| (k, pre.entries[k].value));
        let mut told: usize = 0;
        assert(pre.heard + all.take(0) =~= pre.heard);
        while told < removed.len()
            invariant
                self.wf(),
                told <= removed.len(),
                gone == sweep::taken_keys(removed@),
                all == gone.map_values(|k: K| (k, pre.entries[k].value)),
                self@ == (TtlView {
                    heard: self@.heard,
                    ..pre.drop_keys(gone)
                }),
                self@.heard == if pre.callback is Some {
                    pre.heard + all.take(told as int)
                } else {
                    pre.heard
                },
                forall|i: int|
                    0 <= i < removed.len() ==> (#[trigger] removed[i]).1.value
                        == pre.entries[removed[i].0].value,
            decreases removed.len() - told,
        {
            self.on_evict.notify(&removed[told].0, &removed[told].1.value);
            proof {
                if pre.callback is Some {
                    assert(all[told as int] == (
                        removed[told as int].0,
                        removed[told as int].1.value,
                    ));
                    assert(self@.heard =~= pre.heard + all.take(told + 1));
                }
            }
            told += 1;
        }
        assert(all.take(removed.len() as int) =~= all);
        removed.len()
    }

    /// Removes all entries as evicted, whether or not there is a callback.
    pub fn cache_clear_with_on_evict(&mut self)
        requires
            old(self).wf(),
        ensures
            final(self).wf(),
            final(self)@.entries == Map::<K, TimedEntry<V>>::empty(),
            exists|gone: Seq<K>|
                {
                    &&& final(self)@ == #[trigger] old(self)@.drop_keys(gone)
                    &&& old(self)@.lists_all(gone)
                },
    {
        let ghost pre = self@;
        let removed = table::take_all(&mut self.store);
        proof {
            sweep::lemma_taken(removed@, pre.entries);
            assert(pre.entries.remove_keys(sweep::taken_keys(removed@).to_set()) =~= Map::empty()) by {
                assert forall|k: K| pre.entries.contains_key(k) implies sweep::taken_keys(
                    removed@,
                ).to_set().contains(k) by {}
            }
        }
        let _ = self.notify_evicted(&removed, Ghost(pre));
    }

    /// Removes the entries that have expired at `now` as evicted, and returns their number.
    pub fn evict_at(&mut self, now: Instant) -> (n: usize)
        requires
            old(self).wf(),
        ensures
            final(self).wf(),
            exists|gone: Seq<K>|
                {
                    &&& final(self)@ == #[trigger] old(self)@.drop_keys(gone)
                    &&& sweep::sweeps(old(self)@.entries, now, gone)
                    &&& n == gone.len()
                },
    {
        let ghost pre = self@;
        let removed = sweep::take_expired(&mut self.store, now);
        proof {
            lemma_left_finite(pre.entries, self@.entries);
        }
        self.notify_evicted(&removed, Ghost(pre))
    }
}

impl<K: Hash + Eq, V, S: BuildHasher> TtlCache<K, V, S> {
    /// Removes the entries that have expired at `now` or that `keep` rejects as evicted, and
    /// returns their number. `keep` is asked before the first entry leaves.
    pub fn retain_at<F: FnMut(&K, &V) -> bool>(&mut self, keep: F, now: Instant) -> (n: usize)
        requires
            old(self).wf(),
            forall|k: &K, v: &V| keep.requires((k, v)),
        ensures
            final(self).wf(),
            exists|gone: Seq<K>|
                {
                    &&& final(self)@ == #[trigger] old(self)@.drop_keys(gone)
                    &&& sweep::retains(old(self)@.entries, keep, now, gone)
                    &&& n == gone.len()
                },
    {
        let ghost pre = self@;
        let (removed, _) = sweep::take_doomed(&mut self.store, keep, now);
        proof {
            lemma_left_finite(pre.entries, self@.entries);
        }
        self.notify_evicted(&removed, Ghost(pre))
    }
}

impl<K: Hash + Eq, V, S: BuildHasher> TtlCache<K, V, S> {
    /// The live value under `k`. Counts a hit or a miss; an expired entry leaves.
    pub fn cache_get(&mut self, k: &K) -> (r: Option<&V>)
        requires
            old(self).wf(),
        ensures
            final(self).wf(),
            exists|now: Instant|
                {
                    &&& old(self)@.clock.shows(now)
                    &&& final(self)@ == #[trigger] old(self)@.look_up(*k, now)
                    &&& match r {
                        Some(v) => old(self)@.live(*k, now) == Some(*v),
                        None => old(self)@.live(*k, now) is None,
                    }
                },
    {
        let now = self.clock.now();
        self.cache_get_at(k, now)
    }

    /// Access to the live value under `k`. Counts a hit or a miss; an expired entry leaves.
    pub fn cache_get_mut(&mut self, k: &K) -> (r: Option<&mut V>)
        requires
            old(self).wf(),
        ensures
            final(self).wf(),
            exists|now: Instant|
                old(self)@.clock.shows(now) && match r {
                    Some(v) => {
                        &&& old(self)@.live(*k, now) == Some(*v)
                        &&& final(self)@ == (#[trigger] old(self)@.look_up(*k, now)).with_value(
                            *k,
                            *final(v),
                        )
                    },
                    None => {
                        &&& old(self)@.live(*k, now) is None
                        &&& final(self)@ == old(self)@.look_up(*k, now)
                    },
                },
    {
        let now = self.clock.now();
        let ghost looked = self@.look_up(*k, now);
        self.cache_get_mut_at(k, now)
    }

    /// Writes `value` under `key`, and returns the value that it displaces unless that had
    /// expired.
    pub fn cache_set(&mut self, key: K, value: V) -> (r: Option<V>)
        requires
            old(self).wf(),
        ensures
            final(self).wf(),
            exists|now: Instant|
                {
                    &&& old(self)@.clock.shows(now)
                    &&& r == old(self)@.live(key, now)
                    &&& final(self)@ == #[trigger] old(self)@.put(key, value, now)
                },
    {
        let now = self.clock.now();
        self.cache_set_at(key, value, now)
    }

    /// Removes the entry of `k` as evicted, and returns its value unless it had expired.
    pub fn cache_remove(&mut self, k: &K) -> (r: Option<V>)
        requires
            old(self).wf(),
        ensures
            final(self).wf(),
            exists|now: Instant|
                old(self)@.clock.shows(now) && r == #[trigger] old(self)@.live(*k, now),
            final(self)@ == if old(self)@.entries.contains_key(*k) {
                old(self)@.discard(*k)
            } else {
                old(self)@
            },
    {
        let now = self.clock.now();
        self.cache_remove_at(k, now)
    }

    /// Removes the expired entries as evicted, and returns their number.
    #[must_use]
    pub fn evict(&mut self) -> (n: usize)
        requires
            old(self).wf(),
        ensures
            final(self).wf(),
            exists|gone: Seq<K>, now: Instant|
                {
                    &&& old(self)@.clock.shows(now)
                    &&& final(self)@ == #[trigger] old(self)@.drop_keys(gone)
                    &&& #[trigger] sweep::sweeps(old(self)@.entries, now, gone)
                    &&& n == gone.len()
                },
    {
        let now = self.clock.now();
        self.evict_at(now)
    }

    /// Removes the entries that have expired or that `keep` rejects as evicted, and returns their
    /// number; see [`retain_at`](Self::retain_at).
    pub fn retain<F: FnMut(&K, &V) -> bool>(&mut self, keep: F) -> (n: usize)
        requires
            old(self).wf(),
            forall|k: &K, v: &V| keep.requires((k, v)),
        ensures
            final(self).wf(),
            exists|gone: Seq<K>, now: Instant|
                {
                    &&& old(self)@.clock.shows(now)
                    &&& final(self)@ == #[trigger] old(self)@.drop_keys(gone)
                    &&& #[trigger] sweep::retains(old(self)@.entries, keep, now, gone)
                    &&& n == gone.len()
                },
    {
        let now = self.clock.now();
        self.retain_at(keep, now)
    }

    /// The live value under `k` at `now`, if there is one. Nothing is counted or renewed.
    pub fn cache_peek_at(&self, k: &K, now: Instant) -> (r: Option<&V>)
        requires
            self.wf(),
        ensures
            match r {
                Some(v) => self@.live(*k, now) == Some(*v),
                None => self@.live(*k, now) is None,
            },
    {
        match self.store.get(k) {
            Some(entry) => if Self::entry_live_at(entry.expires_at, now) {
                Some(&entry.value)
            } else {
                None
            },
            None => None,
        }
    }

    /// The live value under `k`, if there is one. Nothing is counted or renewed.
    pub fn cache_peek(&self, k: &K) -> (r: Option<&V>)
        requires
            self.wf(),
        ensures
            exists|now: Instant|
                self@.clock.shows(now) && match r {
                    Some(v) => #[trigger] self@.live(*k, now) == Some(*v),
                    None => self@.live(*k, now) is None,
                },
    {
        let now = self.clock.now();
        let ghost live = self@.live(*k, now);
        self.cache_peek_at(k, now)
    }

    /// Whether there is a live value under `k`. Nothing is counted or renewed.
    pub fn cache_contains(&self, k: &K) -> (b: bool)
        requires
            self.wf(),
        ensures
            exists|now: Instant|
                self@.clock.shows(now) && b == (#[trigger] self@.live(*k, now) is Some),
    {
        let now = self.clock.now();
        let ghost live = self@.live(*k, now);
        self.cache_peek_at(k, now).is_some()
    }

    /// The number of entries, expired ones that have not left yet among them.
    pub fn cache_size(&self) -> (n: usize)
        requires
            self.wf(),
        ensures
            n == self@.entries.len(),
    {
        self.store.len()
    }

    /// How many entries the cache has room for before it must allocate.
    pub fn room(&self) -> (n: usize)
        requires
            self.wf(),
        ensures
            n >= self@.entries.len(),
    {
        table::room(&self.store)
    }

    /// The keys and values that are live at `now`, each once.
    pub fn iter_at(&self, now: Instant) -> (r: Vec<(&K, &V)>)
        requires
            self.wf(),
        ensures
            table::enumerates(pairs(r@), self@.live_values(now)),
            forall|i: int|
                0 <= i < r.len() ==> ttl_laws::holds(self@.entries, *(#[trigger] r[i]).0, now)
                    && *r[i].1 == self@.entries[*r[i].0].value,
            forall|k: K| #[trigger]
                ttl_laws::holds(self@.entries, k, now) ==> exists|i: int|
                    0 <= i < r.len() && *(#[trigger] r[i]).0 == k,
    {
        let mut r: Vec<(&K, &V)> = Vec::new();
        let ghost mut at: Seq<int> = Seq::empty();
        let ghost all = vstd::std_specs::iter::IteratorSpec::remaining(
            &vstd::std_specs::hash::spec_hash_map_iter(&self.store),
        );
        for item in it: self.store.iter()
            invariant
                self.wf(),
                it.seq() == all,
                all == vstd::std_specs::iter::IteratorSpec::remaining(
                    &vstd::std_specs::hash::spec_hash_map_iter(&self.store),
                ),
                all.no_duplicates(),
                at.len() == r.len(),
                forall|j: int|
                    0 <= j < r.len() ==> {
                        &&& 0 <= #[trigger] at[j] < it.index()
                        &&& *r[j].0 == *all[at[j]].0
                        &&& *r[j].1 == all[at[j]].1.value
                        &&& !all[at[j]].1.expired(now)
                    },
                forall|i: int, j: int| 0 <= i < j < r.len() ==> #[trigger] at[i] < #[trigger] at[j],
                forall|i: int|
                    0 <= i < it.index() && !(#[trigger] all[i]).1.expired(now) ==> at.contains(i),
        {
            let (k, entry) = item;
            let ghost at0 = at;
            if Self::entry_live_at(entry.expires_at, now) {
                r.push((k, &entry.value));
                proof {
                    at = at.push(it.index() as int);
                    assert(at[at0.len() as int] == it.index());
                    assert forall|i: int| at0.contains(i) implies at.contains(i) by {
                        let j = choose|j: int| 0 <= j < at0.len() && at0[j] == i;
                        assert(at[j] == i);
                    }
                }
            }
        }
        proof {
            let live = self@.live_values(now);
            let list = pairs(r@);
            assert forall|j: int| 0 <= j < list.len() implies live.contains_key(
                (#[trigger] list[j]).0,
            ) && live[list[j].0] == list[j].1 by {
                assert(self.store@.contains_key(*all[at[j]].0));
                assert(self.store@[*all[at[j]].0] == *all[at[j]].1);
            }
            assert forall|k: K| #[trigger] live.contains_key(k) implies exists|j: int|
                0 <= j < list.len() && (#[trigger] list[j]).0 == k by {
                assert(self.store@.contains_key(k));
                assert(all.contains((&k, &self.store@[k])));
                let i = choose|i: int| 0 <= i < all.len() && all[i] == (&k, &self.store@[k]);
                assert(!all[i].1.expired(now));
                let j = choose|j: int| 0 <= j < at.len() && at[j] == i;
                assert(list[j].0 == k);
            }
            assert forall|i: int, j: int| 0 <= i < j < list.len() implies (
            #[trigger] list[i]).0 != (#[trigger] list[j]).0 by {
                assert(at[i] < at[j]);
                let a = all[at[i]];
                let b = all[at[j]];
                if *a.0 == *b.0 {
                    assert(self.store@[*a.0] == *a.1 && self.store@[*b.0] == *b.1);
                    assert(a == b);
                }
            }
        }
        proof {
            ttl_laws::law_live_values_are_not_due(self@, now);
            assert forall|i: int| 0 <= i < r.len() implies ttl_laws::holds(
                self@.entries,
                *(#[trigger] r[i]).0,
                now,
            ) && *r[i].1 == self@.entries[*r[i].0].value by {
                assert(pairs(r@)[i] == (*r[i].0, *r[i].1));
                assert(self@.live_values(now).contains_key(pairs(r@)[i].0));
            }
            assert forall|k: K| #[trigger] ttl_laws::holds(self@.entries, k, now) implies exists|
                i: int,
            |
                0 <= i < r.len() && *(#[trigger] r[i]).0 == k by {
                assert(self@.live_values(now).contains_key(k));
                let i = choose|i: int| 0 <= i < pairs(r@).len() && (#[trigger] pairs(r@)[i]).0 == k;
                assert(*r[i].0 == k);
            }
        }
        r
    }

    /// All entries, each once, expired ones among them. Who walks them may judge each when it is
    /// reached; see [`Listed::live`].
    pub fn entries(&self) -> (r: Vec<Listed<'_, K, V>>)
        requires
            self.wf(),
        ensures
            table::enumerates(expiry::listed(r@), self@.entries),
    {
        let mut r: Vec<Listed<'_, K, V>> = Vec::new();
        let ghost all = vstd::std_specs::iter::IteratorSpec::remaining(
            &vstd::std_specs::hash::spec_hash_map_iter(&self.store),
        );
        for item in it: self.store.iter()
            invariant
                self.wf(),
                it.seq() == all,
                all == vstd::std_specs::iter::IteratorSpec::remaining(
                    &vstd::std_specs::hash::spec_hash_map_iter(&self.store),
                ),
                all.no_duplicates(),
                r.len() == it.index(),
                forall|j: int|
                    0 <= j < r.len() ==> (#[trigger] r[j]).stored() == (*all[j].0, *all[j].1),
        {
            let (k, entry) = item;
            r.push(Listed { key: k, value: &entry.value, expires_at: entry.expires_at });
        }
        proof {
            let list = expiry::listed(r@);
            assert forall|j: int| 0 <= j < list.len() implies self@.entries.contains_key(
                (#[trigger] list[j]).0,
            ) && self@.entries[list[j].0] == list[j].1 by {
                assert(r[j].stored() == list[j]);
                assert(self.store@.contains_key(*all[j].0));
                assert(self.store@[*all[j].0] == *all[j].1);
            }
            assert forall|k: K| #[trigger] self@.entries.contains_key(k) implies exists|j: int|
                0 <= j < list.len() && (#[trigger] list[j]).0 == k by {
                assert(self.store@.contains_key(k));
                assert(all.contains((&k, &self.store@[k])));
                let j = choose|j: int| 0 <= j < all.len() && all[j] == (&k, &self.store@[k]);
                assert(r[j].stored() == list[j]);
            }
            assert forall|i: int, j: int| 0 <= i < j < list.len() implies (
            #[trigger] list[i]).0 != (#[trigger] list[j]).0 by {
                assert(r[i].stored() == list[i] && r[j].stored() == list[j]);
                if *all[i].0 == *all[j].0 {
                    assert(self.store@[*all[i].0] == *all[i].1);
                    assert(self.store@[*all[j].0] == *all[j].1);
                    assert(all[i] == all[j]);
                }
            }
        }
        r
    }

    /// The live keys and values, each once, all judged at the instant of the call; see also
    /// [`entries`](Self::entries).
    pub fn iter(&self) -> (r: Vec<(&K, &V)>)
        requires
            self.wf(),
        ensures
            exists|now: Instant|
                self@.clock.shows(now) && table::enumerates(
                    pairs(r@),
                    #[trigger] self@.live_values(now),
                ),
    {
        let now = self.clock.now();
        let ghost live = self@.live_values(now);
        self.iter_at(now)
    }
}

/// References to keys and values as what they refer to.
pub open spec fn pairs<K, V>(list: Seq<(&K, &V)>) -> Seq<(K, V)> {
    list.map_values(|e: (&K, &V)| (*e.0, *e.1))
}

impl<K: Hash + Eq, V: Clone, S: BuildHasher> TtlCache<K, V, S> {
    /// A clone of the value under `k`, expired or not, and whether it has expired at `now`.
    /// Counts a hit for a live value, which may renew the entry, and a miss otherwise; no entry
    /// leaves.
    pub fn cache_get_with_expiry_status_at(&mut self, k: &K, now: Instant) -> (r: (Option<V>, bool))
        requires
            old(self).wf(),
        ensures
            final(self).wf(),
            old(self)@.reads(*k, now, r),
            final(self)@ == old(self)@.probe(*k, now),
            if r.0 is Some && !r.1 {
                ttl_laws::follows_hit(old(self)@, final(self)@, *k, now)
            } else {
                ttl_laws::follows_miss(old(self)@, final(self)@)
            },
    {
        let r = self.cache_peek_with_expiry_status_at(k, now);
        let _ = self.probe_at(k, now);
        r
    }

    pub fn cache_get_with_expiry_status(&mut self, k: &K) -> (r: (Option<V>, bool))
        requires
            old(self).wf(),
        ensures
            final(self).wf(),
            exists|now: Instant|
                {
                    &&& old(self)@.clock.shows(now)
                    &&& #[trigger] old(self)@.reads(*k, now, r)
                    &&& final(self)@ == old(self)@.probe(*k, now)
                },
    {
        let now = self.clock.now();
        self.cache_get_with_expiry_status_at(k, now)
    }

    /// A clone of the value under `k`, expired or not, and whether it has expired at `now`.
    /// Nothing is counted or renewed.
    pub fn cache_peek_with_expiry_status_at(&self, k: &K, now: Instant) -> (r: (Option<V>, bool))
        requires
            self.wf(),
        ensures
            self@.reads(*k, now, r),
    {
        match self.store.get(k) {
            Some(entry) => (
                Some(entry.value.clone()),
                !Self::entry_live_at(entry.expires_at, now),
            ),
            None => (None, false),
        }
    }

    pub fn cache_peek_with_expiry_status(&self, k: &K) -> (r: (Option<V>, bool))
        requires
            self.wf(),
        ensures
            exists|now: Instant| self@.clock.shows(now) && #[trigger] self@.reads(*k, now, r),
    {
        let now = self.clock.now();
        self.cache_peek_with_expiry_status_at(k, now)
    }
}

impl<K: Hash + Eq, V, S: BuildHasher> CacheExpiry<K, V> for TtlCache<K, V, S> {
    open spec fn readable(&self) -> bool {
        self.wf()
    }

    open spec fn deadlines(&self) -> Map<K, TimedEntry<V>> {
        self@.entries
    }

    fn cache_peek_expires_at(&self, k: &K) -> (r: (Option<V>, Option<Instant>)) where V: Clone {
        match self.store.get(k) {
            Some(entry) => (Some(entry.value.clone()), entry.expires_at),
            None => (None, None),
        }
    }

    fn cache_expires_at(&self, k: &K) -> (r: (bool, Option<Instant>)) {
        match self.store.get(k) {
            Some(entry) => (true, entry.expires_at),
            None => (false, None),
        }
    }
}

impl<K: Hash + Eq, V, S: BuildHasher> CacheEvict for TtlCache<K, V, S> {
    open spec fn sweepable(&self) -> bool {
        self.wf()
    }

    open spec fn entry_count(&self) -> nat {
        self@.entries.len()
    }

    fn evict(&mut self) -> (n: usize)
        ensures
            exists|gone: Seq<K>, now: Instant|
                {
                    &&& old(self)@.clock.shows(now)
                    &&& final(self)@ == #[trigger] old(self)@.drop_keys(gone)
                    &&& #[trigger] sweep::sweeps(old(self)@.entries, now, gone)
                    &&& n == gone.len()
                },
    {
        let ghost pre = self@;
        let ghost clock = self.timepiece();
        let n: usize = TtlCache::evict(self);
        proof {
            self.lemma_wf();
            let (gone, now) = choose|gone: Seq<K>, now: Instant|
                {
                    &&& clock.shows(now)
                    &&& self@ == #[trigger] pre.drop_keys(gone)
                    &&& #[trigger] sweep::sweeps(pre.entries, now, gone)
                    &&& n == gone.len()
                };
            ttl_view::lemma_drop_len(pre, gone);
        }
        n
    }
}

impl<K: Hash + Eq, V, S: BuildHasher> CacheClearWithOnEvict for TtlCache<K, V, S> {
    open spec fn clearable(&self) -> bool {
        self.wf()
    }

    open spec fn vacant(&self) -> bool {
        self@.entries == Map::<K, TimedEntry<V>>::empty()
    }

    fn cache_clear_with_on_evict(&mut self)
        ensures
            exists|gone: Seq<K>| final(self)@ == #[trigger] old(self)@.drop_keys(gone)
                && old(self)@.lists_all(gone),
    {
        TtlCache::cache_clear_with_on_evict(self)
    }
}

impl<K, V, S> TtlCache<K, V, S> {
    /// The clock that the cache reads.
    pub open spec fn timepiece(&self) -> Clock {
        self@.clock
    }

    /// The clock that the cache reads.
    pub fn clock(&self) -> (c: Clock)
        ensures
            c == self.timepiece(),
    {
        self.clock
    }

    pub fn cache_hits(&self) -> (r: Option<u64>)
        ensures
            r == Some(self@.hits),
    {
        Some(self.hits)
    }

    pub fn cache_misses(&self) -> (r: Option<u64>)
        ensures
            r == Some(self@.misses),
    {
        Some(self.misses)
    }

    /// How many entries the cache was told to have room for from the start.
    pub fn initial_capacity(&self) -> (r: Option<usize>)
        ensures
            r == self@.initial_capacity,
    {
        self.initial_capacity
    }

    /// Whether there is a callback for evicted entries.
    pub fn has_on_evict(&self) -> (b: bool)
        ensures
            b == (self@.callback is Some),
    {
        self.on_evict.is_listening()
    }

    pub fn cache_evictions(&self) -> (r: Option<u64>)
        ensures
            r == Some(self@.evictions),
    {
        Some(self.evictions)
    }

    /// The time to live of new entries, `None` where they do not expire.
    pub fn ttl(&self) -> (r: Option<Duration>)
        ensures
            r == expiry::reported(self@.ttl),
    {
        expiry::report_ttl(self.ttl)
    }

    /// Sets the time to live of entries that are written or renewed from now on, and returns the
    /// former one. With zero they do not expire. Entries keep the deadlines that they have.
    pub fn set_ttl(&mut self, ttl: Duration) -> (r: Option<Duration>)
        requires
            old(self).wf(),
        ensures
            final(self).wf(),
            r == expiry::reported(old(self)@.ttl),
            final(self)@ == (TtlView { ttl, ..old(self)@ }),
    {
        let former = self.ttl;
        self.ttl = ttl;
        expiry::report_ttl(former)
    }

    /// Lets entries that are written from now on live forever, and returns the former time to
    /// live.
    pub fn unset_ttl(&mut self) -> (r: Option<Duration>)
        requires
            old(self).wf(),
        ensures
            final(self).wf(),
            r == expiry::reported(old(self)@.ttl),
            final(self)@ == (TtlView { ttl: Duration { nanos: 0 }, ..old(self)@ }),
    {
        self.set_ttl(Duration::zero())
    }

    /// Whether a hit renews an entry.
    pub fn refresh_on_hit(&self) -> (b: bool)
        ensures
            b == self@.refresh,
    {
        self.refresh
    }

    /// Sets whether a hit renews an entry, and returns whether it did.
    pub fn set_refresh_on_hit(&mut self, refresh: bool) -> (b: bool)
        requires
            old(self).wf(),
        ensures
            final(self).wf(),
            b == old(self)@.refresh,
            final(self)@ == (TtlView { refresh, ..old(self)@ }),
    {
        let former = self.refresh;
        self.refresh = refresh;
        former
    }
}

impl<K: Hash + Eq + Clone, V: Clone, S: BuildHasher + Clone> Clone for TtlCache<K, V, S> {
    /// A cache with the same entries, settings and counters, and the same callback.
    fn clone(&self) -> (c: Self)
        ensures
            self.wf() ==> c.wf(),
            expiry::copies(self@.entries, c@.entries),
            c@ == (TtlView { entries: c@.entries, heard: Seq::empty(), ..self@ }),
    {
        TtlCache {
            clock: self.clock,
            store: self.store.clone(),
            ttl: self.ttl,
            hits: self.hits,
            misses: self.misses,
            evictions: self.evictions,
            initial_capacity: self.initial_capacity,
            refresh: self.refresh,
            on_evict: self.on_evict.fresh(),
        }
    }
}

/// The settings of a [`TtlCache`] to be.
#[verifier::reject_recursive_types(K)]
#[verifier::reject_recursive_types(V)]
pub struct TtlCacheBuilder<K, V, S = DefaultHashBuilder> {
    pub ttl: Option<Duration>,
    pub capacity: Option<usize>,
    pub refresh: bool,
    pub on_evict: Option<OnEvict<K, V>>,
    pub hasher: S,
}

impl<K, V> Default for TtlCacheBuilder<K, V, DefaultHashBuilder> {
    fn default() -> (b: Self)
        ensures
            b.ttl is None,
            b.capacity is None,
            !b.refresh,
            b.on_evict is None,
            table::hashes_soundly(b.hasher),
    {
        TtlCacheBuilder {
            ttl: None,
            capacity: None,
            refresh: false,
            on_evict: None,
            hasher: table::new_default_hash_builder(),
        }
    }
}

impl<K, V> TtlCacheBuilder<K, V> {
    /// A builder without any setting.
    #[must_use]
    pub fn new() -> (b: Self)
        ensures
            b.ttl is None,
            b.capacity is None,
            !b.refresh,
            b.on_evict is None,
            table::hashes_soundly(b.hasher),
    {
        Self::default()
    }
}

impl<K, V, S> TtlCacheBuilder<K, V, S> {
    /// Whether the callback, if there is one, takes any entry.
    pub open spec fn wf(&self) -> bool {
        self.on_evict matches Some(f) ==> f.attentive()
    }

    /// Sets the time to live of entries, in place of any that was set before.
    #[must_use]
    pub fn ttl(self, ttl: Duration) -> (b: Self)
        ensures
            b == (TtlCacheBuilder { ttl: Some(ttl), ..self }),
    {
        TtlCacheBuilder { ttl: Some(ttl), ..self }
    }

    /// Sets the time to live of entries in seconds, in place of any that was set before.
    #[must_use]
    pub fn ttl_secs(self, secs: u64) -> (b: Self)
        ensures
            b == (TtlCacheBuilder {
                ttl: Some(Duration { nanos: (secs * 1_000_000_000) as u128 }),
                ..self
            }),
    {
        self.ttl(Duration::from_secs(secs))
    }

    /// Sets the time to live of entries in milliseconds, in place of any that was set before.
    #[must_use]
    pub fn ttl_millis(self, millis: u64) -> (b: Self)
        ensures
            b == (TtlCacheBuilder {
                ttl: Some(Duration { nanos: (millis * 1_000_000) as u128 }),
                ..self
            }),
    {
        self.ttl(Duration::from_millis(millis))
    }

    /// Makes room for `capacity` entries, where there is memory for them. This does not bound their
    /// number.
    #[must_use]
    pub fn initial_capacity(self, capacity: usize) -> (b: Self)
        ensures
            b == (TtlCacheBuilder { capacity: Some(capacity), ..self }),
    {
        TtlCacheBuilder { capacity: Some(capacity), ..self }
    }

    /// Sets whether a hit renews an entry.
    #[must_use]
    pub fn refresh_on_hit(self, refresh: bool) -> (b: Self)
        ensures
            b == (TtlCacheBuilder { refresh, ..self }),
    {
        TtlCacheBuilder { refresh, ..self }
    }

    /// Sets the callback for entries that are evicted: found, swept or displaced as expired, or
    /// removed. It is not called for entries that are cleared.
    #[must_use]
    pub fn on_evict<F: Fn(&K, &V) + Send + Sync + 'static>(self, on_evict: F) -> (b: Self)
        requires
            forall|k: &K, v: &V| call_requires(on_evict, (k, v)),
        ensures
            listener::calls(b.on_evict, on_evict),
            b.wf(),
            b == (TtlCacheBuilder { on_evict: b.on_evict, ..self }),
    {
        TtlCacheBuilder { on_evict: Some(listener::on_evict_from(on_evict)), ..self }
    }

    /// Hashes keys with `hasher`.
    #[must_use]
    pub fn hasher<S2: BuildHasher>(self, hasher: S2) -> (b: TtlCacheBuilder<K, V, S2>)
        ensures
            b == (TtlCacheBuilder {
                ttl: self.ttl,
                capacity: self.capacity,
                refresh: self.refresh,
                on_evict: self.on_evict,
                hasher,
            }),
    {
        TtlCacheBuilder {
            ttl: self.ttl,
            capacity: self.capacity,
            refresh: self.refresh,
            on_evict: self.on_evict,
            hasher,
        }
    }

    /// The state of a new cache with these settings that reads `clock`.
    pub open spec fn fresh(&self, clock: Clock) -> TtlView<K, V> {
        TtlView {
            clock,
            entries: Map::empty(),
            ttl: self.ttl->0,
            refresh: self.refresh,
            initial_capacity: self.capacity,
            hits: 0,
            misses: 0,
            evictions: 0,
            callback: self.on_evict,
            heard: Seq::empty(),
        }
    }
}

impl<K: Hash + Eq, V, S: BuildHasher> TtlCacheBuilder<K, V, S> {
    /// The cache with these settings. They are refused without a time to live, or with one of
    /// zero.
    pub fn build(self) -> (r: Result<TtlCache<K, V, S>, BuildError>)
        ensures
            match self.ttl {
                Some(ttl) if ttl.nanos != 0 => {
                    &&& r matches Ok(c)
                    &&& c@ == self.fresh(c@.clock)
                    &&& c@.clock.started()
                    &&& exists|made: bool| #[trigger]
                        c.starts_with_room(self.hasher, self.capacity, made)
                    &&& self.capacity matches Some(n) ==> exists|made: bool| #[trigger]
                        table::asked_for_fresh_room::<K, TimedEntry<V>, S>(self.hasher, n, made)
                    &&& table::keyed::<K, S>() && self.wf() ==> c.wf()
                },
                _ => error::refuses_ttl(self.ttl, r),
            },
    {
        let ttl = match error::validate_ttl(self.ttl) {
            Ok(ttl) => ttl,
            Err(e) => return Err(e),
        };
        let (store, made) = table::table_with_room(self.hasher, self.capacity);
        let cache = TtlCache {
            clock: Clock::start(),
            store,
            ttl,
            hits: 0,
            misses: 0,
            evictions: 0,
            initial_capacity: self.capacity,
            refresh: self.refresh,
            on_evict: Listener::new(self.on_evict),
        };
        assert(cache.starts_with_room(self.hasher, self.capacity, made));
        Ok(cache)
    }
}

impl<K: Hash + Eq, V> TtlCache<K, V> {
    /// A cache whose entries live for `ttl`.
    #[must_use]
    pub fn new(ttl: Duration) -> (c: Self)
        requires
            ttl.nanos != 0,
        ensures
            c@.clock.started(),
            c@ == (TtlView::<K, V> {
                clock: c@.clock,
                entries: Map::empty(),
                ttl,
                refresh: false,
                initial_capacity: None,
                hits: 0,
                misses: 0,
                evictions: 0,
                callback: None,
                heard: Seq::empty(),
            }),
            vstd::std_specs::hash::obeys_key_model::<K>() ==> c.wf(),
    {
        Self::builder().ttl(ttl).build().unwrap()
    }

    /// A builder without any setting.
    #[must_use]
    pub fn builder() -> (b: TtlCacheBuilder<K, V>)
        ensures
            b.ttl is None,
            b.capacity is None,
            !b.refresh,
            b.on_evict is None,
            table::hashes_soundly(b.hasher),
    {
        TtlCacheBuilder::default()
    }
}

/// What is left of the entries of a cache is finite.
proof fn lemma_left_finite<K, V>(m: Map<K, TimedEntry<V>>, left: Map<K, TimedEntry<V>>)
    requires
        m.dom().finite(),
        exists|gone: Set<K>| left == #[trigger] m.remove_keys(gone),
    ensures
        left.dom().finite(),
{
    assert(left.dom().subset_of(m.dom()));
    vstd::set_lib::lemma_len_subset(left.dom(), m.dom());
}

} // verus!
