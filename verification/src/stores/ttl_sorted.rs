//! A cache that drops the next entries to expire when it is full.
use crate::stores::error::{self, BuildError, SetMaxSizeError};
use crate::stores::expiry::{self, Listed, TimedEntry};
use crate::stores::expiry_index::{self, ExpiryIndex, Stamped};
use crate::stores::expiry_order;
use crate::stores::listener::{self, share, Listener, OnEvict};
use crate::stores::lockstep::{self, Entry};
use crate::stores::sorted_view::{self, SortedView};
use crate::stores::table::{self, DefaultHashBuilder};
use crate::time::{Clock, Duration, Instant};
use crate::traits::CacheEvict;
use std::collections::{HashMap, VecDeque};
use std::hash::{BuildHasher, Hash};
use std::sync::Arc;
use vstd::prelude::*;

verus! {

broadcast use vstd::std_specs::hash::group_hash_axioms;

/// Whether a clone of a key equals it.
pub open spec fn clones_exactly<K: Clone>() -> bool {
    forall|a: K, b: K| #[trigger] cloned(a, b) ==> a == b
}

/// A cache whose entries expire, with an optional bound on their number.
#[verifier::reject_recursive_types(K)]
#[verifier::reject_recursive_types(V)]
#[verifier::reject_recursive_types(S)]
pub struct TtlSortedCache<K, V, S = DefaultHashBuilder> {
    clock: Clock,
    map: HashMap<K, Entry<K, V>, S>,
    keys: ExpiryIndex<K>,
    ttl: Duration,
    size_limit: Option<usize>,
    initial_capacity: Option<usize>,
    hits: u64,
    misses: u64,
    evictions: u64,
    on_evict: Listener<K, V>,
}

/// What the callback has heard after the first `n` entries of the index have left.
spec fn heard_after<K, V>(
    listening: bool,
    heard: Seq<(K, V)>,
    m: Map<K, Entry<K, V>>,
    stamps: Seq<Stamped<K>>,
    n: nat,
) -> Seq<(K, V)> {
    if listening {
        heard + Seq::new(n, |i: int| (*stamps[i].key->0, m[*stamps[i].key->0].value))
    } else {
        heard
    }
}

impl<K, V, S> TtlSortedCache<K, V, S> {
    /// Whether two caches agree on all but their entries, their evictions and what was heard.
    spec fn same_settings(self, other: Self) -> bool {
        &&& self.clock == other.clock
        &&& self.ttl == other.ttl
        &&& self.size_limit == other.size_limit
        &&& self.initial_capacity == other.initial_capacity
        &&& self.hits == other.hits
        &&& self.misses == other.misses
        &&& self.on_evict.callback() == other.on_evict.callback()
    }
}

impl<K: Hash + Eq + Ord + Clone, V, S: BuildHasher> TtlSortedCache<K, V, S> {
    /// Whether the cache is in order: keys behave as keys, the callback takes any entry, and the
    /// index is in step with the entries, which are no more than the bound.
    pub open spec fn wf(&self) -> bool {
        &&& self.in_step()
        &&& self@.max_size matches Some(n) ==> self@.entries.len() <= n
    }

    /// Whether the cache is in order, but for its bound, which may be exceeded.
    pub closed spec fn in_step(&self) -> bool {
        &&& self.sound()
        &&& lockstep::lockstep(self.map@, self.keys@)
        &&& self.size_limit != Some(0usize)
    }

    /// Whether the table of the cache was asked to make room for `more` entries, and `made` says
    /// whether it did.
    pub closed spec fn asked_for_room(&self, more: usize, made: bool) -> bool {
        table::asked_for_room(self.map, more, made)
    }

    /// Whether the table of the cache is a fresh one that hashes with `hasher`, with the room that
    /// `room` asks for, as far as `made` says that it was made.
    pub closed spec fn starts_with_room(&self, hasher: S, room: Option<usize>, made: bool) -> bool {
        call_ensures(
            table::table_with_room::<K, Entry<K, V>, S>,
            (hasher, room),
            (self.map, made),
        )
    }

    /// For each entry that counts as heard, the callback, if there is one, was called.
    pub proof fn law_heard_means_called(self, i: int)
        requires
            self.wf(),
            0 <= i < self@.heard.len(),
        ensures
            self@.callback matches Some(f) ==> f.hears(self@.heard[i].0, self@.heard[i].1),
    {
    }

    /// A bound on the number of entries holds whenever the cache is in order.
    pub proof fn law_bound_limits_the_size(self)
        requires
            self.wf(),
        ensures
            self@.max_size matches Some(n) ==> self@.entries.len() <= n,
    {
    }

    /// What the laws of the cache ask of its state.
    pub proof fn lemma_wf(self)
        requires
            self.wf(),
        ensures
            self@.entries.dom().finite(),
            expiry_index::ordered::<K>(),
            self@.max_size != Some(0usize),
            self@.max_size matches Some(n) ==> self@.entries.len() <= n,
            listener::called_for(self@.callback, self@.heard),
    {
        assert(self@.entries.dom() =~= self.map@.dom());
    }

    /// A cache that is in step and within its bound is in order.
    proof fn lemma_within_bound(self)
        requires
            self.in_step(),
            self@.max_size matches Some(n) ==> self@.entries.len() <= n,
        ensures
            self.wf(),
    {
        assert(self@.entries.dom() =~= self.map@.dom());
    }

    /// A cache that is `pre` without some of its entries is in order if `pre` is.
    proof fn lemma_shrunk(self, pre: Self)
        requires
            self.in_step(),
            pre.in_step(),
            self@.max_size == pre@.max_size,
            self@.entries.dom().subset_of(pre@.entries.dom()),
        ensures
            pre.wf() ==> self.wf(),
    {
        assert(self@.entries.dom() =~= self.map@.dom());
        assert(pre@.entries.dom() =~= pre.map@.dom());
        vstd::set_lib::lemma_len_subset(self@.entries.dom(), pre@.entries.dom());
    }

    spec fn sound(&self) -> bool {
        &&& table::keyed::<K, S>()
        &&& expiry_index::ordered::<K>()
        &&& clones_exactly::<K>()
        &&& self.on_evict.wf()
    }

    /// Whether this cache is `pre` after its first `n` entries have left.
    spec fn dropped_from(&self, pre: Self, n: nat) -> bool {
        &&& self.same_settings(pre)
        &&& self.keys@ == pre.keys@.skip(n as int)
        &&& self.map@ == pre.map@.remove_keys(lockstep::stamped_keys(pre.keys@).take(n as int).to_set())
        &&& self.evictions == expiry::bump(pre.evictions, n as int)
        &&& self.on_evict.heard() == heard_after(
            pre.on_evict.callback() is Some,
            pre.on_evict.heard(),
            pre.map@,
            pre.keys@,
            n,
        )
    }

    proof fn lemma_dropped_view(self, pre: Self, n: nat)
        requires
            pre.in_step(),
            self.dropped_from(pre, n),
            n <= pre.keys@.len(),
        ensures
            self@ == pre@.drop_front(n),
    {
        lockstep::lemma_lockstep_order(pre.map@, pre.keys@);
        let order = expiry_order::expiry_order(pre@.entries);
        assert(self@.entries =~= pre@.entries.remove_keys(order.take(n as int).to_set()));
        assert(self@.heard =~= pre@.drop_front(n).heard);
    }

    /// One more entry of the front has left.
    proof fn lemma_dropped_one(self, mid: Self, pre: Self, n: nat)
        requires
            pre.in_step(),
            n < pre.keys@.len(),
            mid.dropped_from(pre, n),
            lockstep::lockstep(mid.map@, mid.keys@),
            self.same_settings(mid),
            self.keys@ == mid.keys@.skip(1),
            self.map@ == mid.map@.remove(*pre.keys@[n as int].key->0),
            self.evictions == expiry::bump(mid.evictions, 1),
            self.on_evict.heard() == if mid.on_evict.callback() is Some {
                mid.on_evict.heard().push(
                    (
                        *pre.keys@[n as int].key->0,
                        mid.map@[*pre.keys@[n as int].key->0].value,
                    ),
                )
            } else {
                mid.on_evict.heard()
            },
        ensures
            self.dropped_from(pre, n + 1),
            lockstep::lockstep(self.map@, self.keys@),
    {
        let keys = lockstep::stamped_keys(pre.keys@);
        assert(mid.keys@[0] == pre.keys@[n as int]);
        lockstep::lemma_lockstep_pop(mid.map@, mid.keys@);
        assert(self.keys@ =~= pre.keys@.skip(n as int + 1));
        expiry_order::lemma_take_one_more(keys, n as int);
        assert(self.map@ =~= pre.map@.remove_keys(keys.take(n as int + 1).to_set()));
        expiry::lemma_bump_twice(pre.evictions, n, 1);
        assert(self.on_evict.heard() =~= heard_after(
            pre.on_evict.callback() is Some,
            pre.on_evict.heard(),
            pre.map@,
            pre.keys@,
            n + 1,
        ));
    }

    /// Removes the entry of a stamp that was taken from the index, counts it and calls the
    /// callback.
    fn drop_stamped(&mut self, stamped: Stamped<K>)
        requires
            old(self).sound(),
            stamped.key is Some,
            old(self).map@.contains_key(*stamped.key->0),
        ensures
            final(self).sound(),
            final(self).same_settings(*old(self)),
            final(self).keys == old(self).keys,
            final(self).map@ == old(self).map@.remove(*stamped.key->0),
            final(self).evictions == expiry::bump(old(self).evictions, 1),
            final(self).on_evict.heard() == if old(self).on_evict.callback() is Some {
                old(self).on_evict.heard().push(
                    (*stamped.key->0, old(self).map@[*stamped.key->0].value),
                )
            } else {
                old(self).on_evict.heard()
            },
    {
        if let Some(key) = stamped.key {
            let k: &K = &key;
            if let Some(entry) = self.map.remove(k) {
                self.evictions = expiry::count_up(self.evictions, 1);
                self.on_evict.notify(k, &entry.value);
            }
        }
    }

    /// Drops the next entries to expire until at most `count` are left; with a `cutoff`, also
    /// those whose deadline lies before it. Returns how many were dropped.
    pub fn retain_latest_at(&mut self, count: usize, cutoff: Option<Instant>) -> (dropped: usize)
        requires
            old(self).in_step(),
        ensures
            final(self).in_step(),
            old(self).wf() ==> final(self).wf(),
            dropped == old(self)@.surplus(count, cutoff),
            final(self)@ == old(self)@.drop_front(dropped as nat),
    {
        let ghost pre = *self;
        let stored: usize = self.map.len();
        let surplus: usize = if stored > count { stored - count } else { 0 };
        proof {
            assert(lockstep::timed(pre.map@).dom() =~= pre.map@.dom());
            if let Some(t) = cutoff {
                lockstep::lemma_past_prefix(pre.map@, pre.keys@, t);
            }
        }
        if surplus == 0 {
            return match cutoff {
                Some(t) => self.evict_at(t),
                None => {
                    proof {
                        self.lemma_nothing_dropped();
                    }
                    0
                },
            };
        }
        let mut dropped: usize = 0;
        proof {
            self.lemma_nothing_dropped();
        }
        loop
            invariant
                self.sound(),
                pre.in_step(),
                lockstep::lockstep(self.map@, self.keys@),
                dropped <= pre.keys@.len(),
                surplus <= pre.keys@.len(),
                pre.keys@.len() == pre.map@.len(),
                stored == pre.map@.len(),
                self.dropped_from(pre, dropped as nat),
                forall|i: int|
                    surplus <= i < dropped ==> cutoff is Some && expiry_index::deadline_before(
                        (#[trigger] pre.keys@[i]).expiry,
                        cutoff,
                    ),
            ensures
                dropped >= surplus,
                dropped < pre.keys@.len() ==> cutoff is None || !expiry_index::deadline_before(
                    pre.keys@[dropped as int].expiry,
                    cutoff,
                ),
            decreases pre.keys@.len() - dropped,
        {
            let ghost mid = *self;
            match self.keys.pop_first() {
                None => {
                    break;
                },
                Some(stamped) => {
                    assert(stamped == pre.keys@[dropped as int]);
                    if dropped >= surplus {
                        let late: bool = match (cutoff, stamped.expiry) {
                            (Some(t), Some(e)) => e.nanos < t.nanos,
                            _ => false,
                        };
                        if !late {
                            assert(seq![stamped] + self.keys@ =~= mid.keys@);
                            self.keys.push_first(stamped);
                            break;
                        }
                    }
                    proof {
                        lockstep::lemma_lockstep_pop(mid.map@, mid.keys@);
                    }
                    self.drop_stamped(stamped);
                    proof {
                        self.lemma_dropped_one(mid, pre, dropped as nat);
                    }
                    dropped += 1;
                },
            }
        }
        proof {
            self.lemma_dropped_view(pre, dropped as nat);
            self.lemma_shrunk(pre);
            if let Some(t) = cutoff {
                let late = expiry_order::past(pre@.entries, t).len();
                if dropped > surplus {
                    assert(expiry_index::deadline_before(pre.keys@[dropped - 1].expiry, cutoff));
                }
                if dropped < pre.keys@.len() {
                    assert(!(dropped < late));
                }
            } else if dropped > surplus {
                assert(pre.keys@[surplus as int].expiry == pre.keys@[surplus as int].expiry);
            }
        }
        dropped
    }

    proof fn lemma_nothing_dropped(self)
        requires
            self.in_step(),
        ensures
            self.dropped_from(self, 0),
            self@ == self@.drop_front(0),
    {
        let keys = lockstep::stamped_keys(self.keys@);
        assert(keys.take(0) =~= Seq::empty());
        assert(self.map@ =~= self.map@.remove_keys(keys.take(0).to_set()));
        assert(self.keys@ =~= self.keys@.skip(0));
        assert(self.on_evict.heard() =~= heard_after(
            self.on_evict.callback() is Some,
            self.on_evict.heard(),
            self.map@,
            self.keys@,
            0,
        ));
        self.lemma_dropped_view(self, 0);
    }

    /// Drops the entries whose deadline lies before `cutoff`, in their order, and returns their
    /// number. An entry whose deadline is `cutoff` stays.
    pub fn evict_at(&mut self, cutoff: Instant) -> (count: usize)
        requires
            old(self).in_step(),
        ensures
            final(self).in_step(),
            old(self).wf() ==> final(self).wf(),
            count == expiry_order::past(old(self)@.entries, cutoff).len(),
            final(self)@ == old(self)@.drop_front(count as nat),
    {
        let ghost pre = *self;
        proof {
            lockstep::lemma_past_prefix(pre.map@, pre.keys@, cutoff);
        }
        let front = self.keys.split_below(&Stamped::bound(cutoff));
        let count: usize = front.len();
        proof {
            let n = expiry_order::past(lockstep::timed(pre.map@), cutoff).len();
            if count < n {
                assert(expiry_index::deadline_before(pre.keys@[count as int].expiry, Some(cutoff)));
            }
            if count > n {
                assert(pre.keys@[n as int].expiry == pre.keys@[n as int].expiry);
            }
        }
        self.drop_detached(front, Ghost(pre));
        count
    }

    /// Removes the entries of the stamps `front`, which were detached from the index of `pre`,
    /// then counts them, then calls the callback for each.
    fn drop_detached(&mut self, front: VecDeque<Stamped<K>>, Ghost(pre): Ghost<Self>)
        requires
            pre.in_step(),
            front@.len() <= pre.keys@.len(),
            front@ == pre.keys@.take(front@.len() as int),
            old(self).keys@ == pre.keys@.skip(front@.len() as int),
            old(self).map@ == pre.map@,
            old(self).same_settings(pre),
            old(self).evictions == pre.evictions,
            old(self).on_evict == pre.on_evict,
        ensures
            final(self).in_step(),
            pre.wf() ==> final(self).wf(),
            final(self)@ == pre@.drop_front(front@.len()),
    {
        let mut front = front;
        let count: usize = front.len();
        let mut removed: Vec<(Arc<K>, Entry<K, V>)> = Vec::new();
        proof {
            pre.lemma_nothing_dropped();
            assert(pre.keys@.skip(0) =~= pre.keys@);
        }
        let ghost keys = lockstep::stamped_keys(pre.keys@);
        while front.len() > 0
            invariant
                self.sound(),
                pre.in_step(),
                removed.len() <= count <= pre.keys@.len(),
                front@ == pre.keys@.subrange(removed.len() as int, count as int),
                keys == lockstep::stamped_keys(pre.keys@),
                self.keys@ == pre.keys@.skip(count as int),
                self.same_settings(pre),
                self.evictions == pre.evictions,
                self.on_evict == pre.on_evict,
                lockstep::lockstep(self.map@, pre.keys@.skip(removed.len() as int)),
                self.map@ == pre.map@.remove_keys(keys.take(removed.len() as int).to_set()),
                forall|i: int|
                    0 <= i < removed.len() ==> {
                        &&& *(#[trigger] removed[i]).0 == keys[i]
                        &&& removed[i].1 == pre.map@[keys[i]]
                    },
            decreases front@.len(),
        {
            let ghost n = removed.len() as int;
            proof {
                let stamps = pre.keys@.skip(n);
                assert(front@[0] == pre.keys@[n]);
                assert(stamps[0] == pre.keys@[n]);
                lockstep::lemma_lockstep_pop(self.map@, stamps);
                assert(stamps.skip(1) =~= pre.keys@.skip(n + 1));
                expiry_order::lemma_take_one_more(keys, n);
            }
            if let Some(Stamped { expiry: _, key: Some(key) }) = front.pop_front() {
                let k: &K = &key;
                if let Some(entry) = self.map.remove(k) {
                    removed.push((key, entry));
                }
            }
            assert(self.map@ =~= pre.map@.remove_keys(keys.take(n + 1).to_set()));
        }
        self.evictions = expiry::count_up(self.evictions, removed.len());
        let ghost gone = keys.take(count as int);
        self.notify_removed(&removed, Ghost(gone), Ghost(pre));
        proof {
            lockstep::lemma_lockstep_order(pre.map@, pre.keys@);
            assert(self@.entries =~= pre@.drop_front(count as nat).entries);
            self.lemma_shrunk(pre);
        }
    }
}

impl<K: Hash + Eq + Ord + Clone, V, S: BuildHasher> TtlSortedCache<K, V, S> {
    /// Writes `value` under `key`, and returns the value that it displaces unless that had
    /// expired, with the stamp of the entry.
    ///
    /// Without `skip_size_eviction` the bound is enforced afterwards, and may drop the entry that
    /// was written.
    pub fn set_inner(
        &mut self,
        key: K,
        value: V,
        ttl: Option<Duration>,
        evict: bool,
        skip_size_eviction: bool,
        now: Instant,
    ) -> (r: (Option<V>, Stamped<K>))
        requires
            old(self).wf(),
        ensures
            final(self).in_step(),
            !skip_size_eviction ==> final(self).wf(),
            r.0 == old(self)@.live(key, now),
            r.1.expiry == old(self)@.due(ttl, now),
            r.1.key matches Some(k) && *k == key,
            final(self)@ == {
                let put = old(self)@.put(key, value, old(self)@.due(ttl, now), now);
                if skip_size_eviction {
                    put
                } else {
                    put.settle(evict, now)
                }
            },
    {
        let ghost pre = *self;
        let effective_ttl = match ttl {
            Some(ttl) => ttl,
            None => self.ttl,
        };
        let expiry = expiry::compute_expires_at(effective_ttl, now);
        let (arc_key, displaced): (Arc<K>, Option<Entry<K, V>>) = match self.map.entry(key) {
            std::collections::hash_map::Entry::Occupied(mut occupied) => {
                let arc_key = share(&occupied.get().key);
                assert(pre.map@.contains_key(key) && *arc_key == key);
                let displaced = occupied.insert(Entry { expiry, key: share(&arc_key), value });
                (arc_key, Some(displaced))
            },
            std::collections::hash_map::Entry::Vacant(vacant) => {
                let own_key = vacant.key().clone();
                assert(cloned(key, own_key));
                let arc_key = Arc::new(own_key);
                vacant.insert(Entry { expiry, key: share(&arc_key), value });
                (arc_key, None)
            },
        };
        let new_stamped = Stamped { expiry, key: Some(arc_key) };
        self.keys.insert(new_stamped.duplicate());
        let ghost mid = self.keys@;
        if let Some(displaced) = &displaced {
            if displaced.expiry != expiry {
                self.keys.remove(&displaced.as_stamped());
            }
        }
        proof {
            let e = self.map@[key];
            assert(self.map@ =~= pre.map@.insert(key, e));
            lockstep::lemma_put_in_step(pre.map@, pre.keys@, e, new_stamped, mid, self.keys@);
            assert(self@.entries =~= pre@.entries.insert(
                key,
                TimedEntry { expires_at: expiry, value },
            ));
        }
        let old_value = match displaced {
            Some(entry) => if entry.is_expired_at(now) {
                self.on_evict.notify(&entry.key, &entry.value);
                self.evictions = expiry::count_up(self.evictions, 1);
                None
            } else {
                Some(entry.value)
            },
            None => None,
        };
        assert(self@ == pre@.put(key, value, expiry, now));
        assert(self@.entries.dom() =~= self.map@.dom());
        if !skip_size_eviction {
            if let Some(size_limit) = self.size_limit {
                if self.map.len() > size_limit {
                    let cutoff = if evict { Some(now) } else { None };
                    let _ = self.retain_latest_at(size_limit, cutoff);
                }
            } else if evict {
                let _ = self.evict_at(now);
            }
            proof {
                pre.lemma_wf();
                sorted_view::law_bound_holds_after_a_write(pre@, key, value, expiry, evict, now);
                self.lemma_within_bound();
            }
        }
        (old_value, new_stamped)
    }
}

impl<K: Hash + Eq + Ord + Clone, V, S: BuildHasher> TtlSortedCache<K, V, S> {
    /// Takes the entry of `k` out of the map and the index.
    fn unlink(&mut self, k: &K) -> (r: Option<(K, Entry<K, V>)>)
        requires
            old(self).in_step(),
        ensures
            final(self).in_step(),
            old(self).wf() ==> final(self).wf(),
            final(self).same_settings(*old(self)),
            final(self).evictions == old(self).evictions,
            final(self).on_evict == old(self).on_evict,
            final(self).map@ == old(self).map@.remove(*k),
            match r {
                Some((stored, entry)) => {
                    &&& old(self).map@.contains_key(*k)
                    &&& stored == *k
                    &&& entry == old(self).map@[*k]
                },
                None => !old(self).map@.contains_key(*k),
            },
    {
        let ghost pre = *self;
        match table::take_entry(&mut self.map, k) {
            Some((stored, entry)) => {
                let stamp = entry.as_stamped();
                proof {
                    lockstep::lemma_lockstep_members(pre.map@, pre.keys@);
                    assert(lockstep::stamps_entry(pre.map@, stamp));
                }
                self.keys.remove(&stamp);
                proof {
                    let n = choose|n: int|
                        0 <= n < pre.keys@.len() && pre.keys@[n] == stamp && self.keys@
                            == #[trigger] pre.keys@.remove(n);
                    lockstep::lemma_lockstep_take(pre.map@, pre.keys@, n);
                    self.lemma_shrunk(pre);
                }
                Some((stored, entry))
            },
            None => {
                assert(self.map@ =~= pre.map@);
                None
            },
        }
    }

    /// Counts the entry `(k, v)`, which was unlinked from `pre`, as evicted.
    fn count_unlinked(&mut self, k: &K, v: &V, Ghost(pre): Ghost<Self>)
        requires
            old(self).in_step(),
            old(self).same_settings(pre),
            old(self).evictions == pre.evictions,
            old(self).on_evict == pre.on_evict,
            pre.map@.contains_key(*k),
            old(self).map@ == pre.map@.remove(*k),
            *v == pre.map@[*k].value,
        ensures
            final(self).in_step(),
            old(self).wf() ==> final(self).wf(),
            final(self)@ == pre@.discard(*k),
    {
        self.on_evict.notify(k, v);
        self.evictions = expiry::count_up(self.evictions, 1);
        proof {
            expiry_order::lemma_single(*k);
            assert(self@.entries =~= pre@.discard(*k).entries);
            assert(self@.heard =~= pre@.discard(*k).heard);
        }
    }

    /// Removes the entry of `k`, if there is one, as evicted.
    fn remove_expired_entry(&mut self, k: &K)
        requires
            old(self).wf(),
            old(self)@.entries.contains_key(*k),
        ensures
            final(self).wf(),
            final(self)@ == old(self)@.discard(*k),
    {
        let ghost pre = *self;
        if let Some((stored, entry)) = self.unlink(k) {
            self.count_unlinked(&stored, &entry.value, Ghost(pre));
        }
    }

    /// The live value under `k`. Counts a hit or a miss; an expired entry leaves.
    pub fn cache_get_at(&mut self, k: &K, now: Instant) -> (r: Option<&V>)
        requires
            old(self).wf(),
        ensures
            final(self).wf(),
            final(self)@ == old(self)@.look_up(*k, now),
            match r {
                Some(v) => old(self)@.live(*k, now) == Some(*v),
                None => old(self)@.live(*k, now) is None,
            },
    {
        let stale: bool = match self.map.get(k) {
            None => {
                self.misses = expiry::count_up(self.misses, 1);
                return None;
            },
            Some(entry) => entry.is_expired_at(now),
        };
        if stale {
            self.misses = expiry::count_up(self.misses, 1);
            self.remove_expired_entry(k);
            return None;
        }
        self.hits = expiry::count_up(self.hits, 1);
        match self.map.get(k) {
            Some(entry) => Some(&entry.value),
            None => None,
        }
    }

    /// Access to the live value under `k`. Counts a hit or a miss; an expired entry leaves.
    pub fn cache_get_mut_at(&mut self, k: &K, now: Instant) -> (r: Option<&mut V>)
        requires
            old(self).wf(),
        ensures
            final(self).wf(),
            match r {
                Some(v) => {
                    &&& old(self)@.live(*k, now) == Some(*v)
                    &&& final(self)@ == old(self)@.look_up(*k, now).with_value(*k, *final(v))
                },
                None => {
                    &&& old(self)@.live(*k, now) is None
                    &&& final(self)@ == old(self)@.look_up(*k, now)
                },
            },
    {
        let stale: bool = match self.map.get(k) {
            None => {
                self.misses = expiry::count_up(self.misses, 1);
                return None;
            },
            Some(entry) => entry.is_expired_at(now),
        };
        if stale {
            self.misses = expiry::count_up(self.misses, 1);
            self.remove_expired_entry(k);
            return None;
        }
        self.hits = expiry::count_up(self.hits, 1);
        Some(self.stored_value_mut(k))
    }

    /// Access to the value that is stored under `k`. Nothing is counted or renewed.
    pub fn stored_value_mut(&mut self, k: &K) -> (v: &mut V)
        requires
            old(self).wf(),
            old(self)@.entries.contains_key(*k),
        ensures
            *v == old(self)@.entries[*k].value,
            final(self).wf(),
            final(self)@ == old(self)@.with_value(*k, *final(v)),
    {
        let ghost pre = *self;
        let r = table::value_mut(&mut self.map, k);
        proof {
            assert(after_borrow(self)@.entries.dom() =~= pre@.entries.dom());
        }
        &mut r.unwrap().value
    }
}

impl<K: Hash + Eq + Ord + Clone, V, S: BuildHasher> TtlSortedCache<K, V, S> {
    /// Puts an entry that was unlinked back.
    fn relink(&mut self, k: K, entry: Entry<K, V>)
        requires
            old(self).in_step(),
            !old(self).map@.contains_key(k),
            *entry.key == k,
        ensures
            final(self).in_step(),
            final(self)@ == (SortedView {
                entries: old(self)@.entries.insert(k, entry.timed()),
                ..old(self)@
            }),
    {
        let ghost pre = *self;
        let stamp = entry.as_stamped();
        proof {
            lockstep::lemma_lockstep_members(pre.map@, pre.keys@);
            assert(!lockstep::stamps_entry(pre.map@, stamp));
        }
        self.keys.insert(stamp);
        self.map.insert(k, entry);
        proof {
            lockstep::lemma_put_in_step(pre.map@, pre.keys@, entry, stamp, self.keys@, self.keys@);
            assert(self@.entries =~= pre@.entries.insert(k, entry.timed()));
        }
    }

    /// Drops the next entries to expire, other than that of `k`, until the bound holds.
    fn enforce_around(&mut self, k: &K)
        requires
            old(self).in_step(),
            old(self)@.entries.contains_key(*k),
        ensures
            final(self).wf(),
            final(self)@ == old(self)@.settle_around(*k),
            final(self)@.entries.contains_key(*k),
            final(self)@.entries[*k] == old(self)@.entries[*k],
    {
        let ghost pre = *self;
        assert(pre@.entries.dom() =~= pre.map@.dom());
        if let Some(size_limit) = self.size_limit {
            if self.map.len() > size_limit {
                if let Some((stored, entry)) = self.unlink(k) {
                    let ghost alone = *self;
                    proof {
                        assert(alone@.entries =~= pre@.entries.remove(*k));
                        lockstep::lemma_lockstep_order(alone.map@, alone.keys@);
                    }
                    let dropped: usize = self.retain_latest_at(size_limit - 1, None);
                    proof {
                        assert(alone@.entries.dom() =~= alone.map@.dom());
                        sorted_view::law_drops_next_to_expire(alone@, dropped as nat);
                    }
                    let ghost gone = expiry_order::expiry_order(alone@.entries).take(dropped as int);
                    proof {
                        assert forall|i: int| 0 <= i < gone.len() implies alone@.entries.contains_key(
                            #[trigger] gone[i],
                        ) by {
                            assert(gone[i] == expiry_order::expiry_order(alone@.entries)[i]);
                        }
                        assert(!self@.entries.contains_key(*k));
                    }
                    self.relink(stored, entry);
                    proof {
                        let goal = pre@.drop_others(*k, dropped as nat);
                        assert(self@.entries =~= goal.entries);
                        assert(self@.heard =~= goal.heard);
                        self.lemma_within_bound();
                    }
                }
            }
        }
    }

    /// Writes `value` under `key`, which a look-up did not find, and gives access to it. Where
    /// that exceeds the bound, other entries leave.
    pub fn set_and_get_mut_at(&mut self, key: K, value: V, now: Instant) -> (r: &mut V)
        requires
            old(self).wf(),
        ensures
            final(self).wf(),
            *r == value,
            final(self)@ == old(self)@.put(
                key,
                value,
                old(self)@.due(None, now),
                now,
            ).settle_around(key).with_value(key, *final(r)),
    {
        let (_, protected) = self.set_inner(key, value, None, false, true, now);
        let arc_key = protected.key.unwrap();
        let k: &K = &arc_key;
        self.enforce_around(k);
        self.stored_value_mut(k)
    }

    /// Whether there is a live value under `k`; counts a hit or a miss.
    pub fn probe_at(&mut self, k: &K, now: Instant) -> (live: bool)
        requires
            old(self).wf(),
        ensures
            final(self).wf(),
            live == (old(self)@.live(*k, now) is Some),
            final(self)@ == if live {
                old(self)@.hit()
            } else {
                old(self)@.miss()
            },
    {
        let live: bool = match self.map.get(k) {
            Some(entry) => !entry.is_expired_at(now),
            None => false,
        };
        if live {
            self.hits = expiry::count_up(self.hits, 1);
        } else {
            self.misses = expiry::count_up(self.misses, 1);
        }
        live
    }
}

impl<K: Hash + Eq + Ord + Clone, V, S: BuildHasher> TtlSortedCache<K, V, S> {
    /// Access to the live value under `key`. Where there is none, `f` makes one, which is written
    /// as by [`set_and_get_mut_at`](Self::set_and_get_mut_at).
    pub fn cache_get_or_set_with_mut<F: FnOnce() -> V>(&mut self, key: K, f: F) -> (r: &mut V)
        requires
            old(self).wf(),
            f.requires(()),
        ensures
            final(self).wf(),
            exists|now: Instant, later: Instant, v: V|
                {
                    &&& old(self)@.clock.shows(now) && old(self)@.clock.shows(later)
                    &&& final(self)@ == (#[trigger] old(self)@.look_up_or_put(
                        key,
                        v,
                        now,
                        later,
                    )).with_value(key, *final(r))
                    &&& *r == old(self)@.live_or(key, v, now)
                    &&& old(self)@.live(key, now) is None ==> f.ensures((), v)
                        && old(self)@.clock.shows_after(v, later)
                },
    {
        let ghost pre = self@;
        let now = self.clock.now();
        if self.probe_at(&key, now) {
            let r = self.stored_value_mut(&key);
            assert(pre.look_up_or_put(key, *r, now, now) == pre.hit());
            r
        } else {
            let v = f();
            let later = self.clock.now_after(&v);
            let ghost made = v;
            let r = self.set_and_get_mut_at(key, v, later);
            assert(pre.live(key, now) is None);
            assert(pre.look_up_or_put(key, made, now, later) == pre.miss().put(
                key,
                made,
                pre.due(None, later),
                later,
            ).settle_around(key));
            r
        }
    }

    /// As [`cache_get_or_set_with_mut`](Self::cache_get_or_set_with_mut) with an `f` that can
    /// fail: its error is returned, and counts as a miss but changes nothing else.
    pub fn cache_try_get_or_set_with_mut<F: FnOnce() -> Result<V, E>, E>(
        &mut self,
        key: K,
        f: F,
    ) -> (r: Result<&mut V, E>)
        requires
            old(self).wf(),
            f.requires(()),
        ensures
            final(self).wf(),
            match r {
                Ok(r) => exists|now: Instant, later: Instant, v: V|
                    {
                        &&& old(self)@.clock.shows(now) && old(self)@.clock.shows(later)
                        &&& final(self)@ == (#[trigger] old(self)@.look_up_or_put(
                            key,
                            v,
                            now,
                            later,
                        )).with_value(key, *final(r))
                        &&& *r == old(self)@.live_or(key, v, now)
                        &&& old(self)@.live(key, now) is None ==> f.ensures((), Ok(v))
                            && old(self)@.clock.shows_after(v, later)
                    },
                Err(e) => {
                    &&& f.ensures((), Err(e))
                    &&& exists|now: Instant|
                        old(self)@.clock.shows(now) && #[trigger] old(self)@.live(key, now) is None
                    &&& final(self)@ == old(self)@.miss()
                },
            },
    {
        let ghost pre = self@;
        let now = self.clock.now();
        if self.probe_at(&key, now) {
            let r = self.stored_value_mut(&key);
            assert(pre.look_up_or_put(key, *r, now, now) == pre.hit());
            Ok(r)
        } else {
            assert(pre.live(key, now) is None);
            match f() {
                Ok(v) => {
                    let later = self.clock.now_after(&v);
                    let ghost made = v;
                    let r = self.set_and_get_mut_at(key, v, later);
                    assert(pre.look_up_or_put(key, made, now, later) == pre.miss().put(
                        key,
                        made,
                        pre.due(None, later),
                        later,
                    ).settle_around(key));
                    Ok(r)
                },
                Err(e) => Err(e),
            }
        }
    }

    /// [`cache_get_or_set_with_mut`](Self::cache_get_or_set_with_mut), for reading only.
    pub fn cache_get_or_set_with<F: FnOnce() -> V>(&mut self, key: K, f: F) -> (r: &V)
        requires
            old(self).wf(),
            f.requires(()),
        ensures
            final(self).wf(),
            exists|now: Instant, later: Instant, v: V|
                {
                    &&& old(self)@.clock.shows(now) && old(self)@.clock.shows(later)
                    &&& final(self)@ == (#[trigger] old(self)@.look_up_or_put(
                        key,
                        v,
                        now,
                        later,
                    )).with_value(key, *r)
                    &&& *r == old(self)@.live_or(key, v, now)
                    &&& old(self)@.live(key, now) is None ==> f.ensures((), v)
                        && old(self)@.clock.shows_after(v, later)
                },
    {
        self.cache_get_or_set_with_mut(key, f)
    }

    /// [`cache_try_get_or_set_with_mut`](Self::cache_try_get_or_set_with_mut), for reading only.
    pub fn cache_try_get_or_set_with<F: FnOnce() -> Result<V, E>, E>(
        &mut self,
        key: K,
        f: F,
    ) -> (r: Result<&V, E>)
        requires
            old(self).wf(),
            f.requires(()),
        ensures
            final(self).wf(),
            match r {
                Ok(r) => exists|now: Instant, later: Instant, v: V|
                    {
                        &&& old(self)@.clock.shows(now) && old(self)@.clock.shows(later)
                        &&& final(self)@ == (#[trigger] old(self)@.look_up_or_put(
                            key,
                            v,
                            now,
                            later,
                        )).with_value(key, *r)
                        &&& *r == old(self)@.live_or(key, v, now)
                        &&& old(self)@.live(key, now) is None ==> f.ensures((), Ok(v))
                            && old(self)@.clock.shows_after(v, later)
                    },
                Err(e) => {
                    &&& f.ensures((), Err(e))
                    &&& exists|now: Instant|
                        old(self)@.clock.shows(now) && #[trigger] old(self)@.live(key, now) is None
                    &&& final(self)@ == old(self)@.miss()
                },
            },
    {
        match self.cache_try_get_or_set_with_mut(key, f) {
            Ok(r) => Ok(r),
            Err(e) => Err(e),
        }
    }

    /// Removes the entry of `k` as evicted, and returns its value unless it had expired.
    pub fn cache_remove_at(&mut self, k: &K, now: Instant) -> (r: Option<V>)
        requires
            old(self).wf(),
        ensures
            final(self).wf(),
            r == old(self)@.live(*k, now),
            final(self)@ == if old(self)@.entries.contains_key(*k) {
                old(self)@.discard(*k)
            } else {
                old(self)@
            },
    {
        let ghost pre = *self;
        match self.unlink(k) {
            None => {
                assert(self.map@ =~= pre.map@);
                None
            },
            Some((stored, removed)) => {
                let stale: bool = removed.is_expired_at(now);
                self.count_unlinked(&stored, &removed.value, Ghost(pre));
                if stale {
                    None
                } else {
                    Some(removed.value)
                }
            },
        }
    }

    /// Removes the entry of `k` as evicted, and returns it with its key even if it had expired.
    pub fn cache_remove_entry(&mut self, k: &K) -> (r: Option<(K, V)>)
        requires
            old(self).wf(),
        ensures
            final(self).wf(),
            r == if old(self)@.entries.contains_key(*k) {
                Some((*k, old(self)@.entries[*k].value))
            } else {
                None
            },
            final(self)@ == if old(self)@.entries.contains_key(*k) {
                old(self)@.discard(*k)
            } else {
                old(self)@
            },
    {
        let ghost pre = *self;
        match self.unlink(k) {
            None => {
                assert(self.map@ =~= pre.map@);
                None
            },
            Some((stored, removed)) => {
                self.count_unlinked(&stored, &removed.value, Ghost(pre));
                Some((stored, removed.value))
            },
        }
    }

    /// Removes the entry of `k` as evicted, and tells whether there was one, expired or not.
    pub fn cache_delete(&mut self, k: &K) -> (b: bool)
        requires
            old(self).wf(),
        ensures
            final(self).wf(),
            b == old(self)@.entries.contains_key(*k),
            final(self)@ == if b {
                old(self)@.discard(*k)
            } else {
                old(self)@
            },
    {
        self.cache_remove_entry(k).is_some()
    }

    /// Removes all entries. None counts as evicted, and the callback is not called.
    pub fn cache_clear(&mut self)
        requires
            old(self).wf(),
        ensures
            final(self).wf(),
            final(self)@ == (SortedView { entries: Map::empty(), ..old(self)@ }),
    {
        self.map.clear();
        self.keys.clear();
        assert(lockstep::timed(self.map@) =~= Map::empty());
    }

    /// Removes all entries. With a callback, each counts as evicted, in their order; without one
    /// this is [`cache_clear`](Self::cache_clear).
    pub fn cache_clear_with_on_evict(&mut self)
        requires
            old(self).wf(),
        ensures
            final(self).wf(),
            final(self)@.entries == Map::<K, TimedEntry<V>>::empty(),
            final(self)@ == if old(self)@.callback is Some {
                old(self)@.drop_front(old(self)@.entries.len())
            } else {
                SortedView { entries: Map::empty(), ..old(self)@ }
            },
    {
        let ghost pre = *self;
        if !self.on_evict.is_listening() {
            self.cache_clear();
            return;
        }
        let front = self.keys.take();
        proof {
            assert(pre.keys@.take(pre.keys@.len() as int) =~= pre.keys@);
            assert(pre.keys@.skip(pre.keys@.len() as int) =~= Seq::empty());
            assert(pre@.entries.dom() =~= pre.map@.dom());
            lockstep::lemma_lockstep_order(pre.map@, pre.keys@);
            let order = expiry_order::expiry_order(pre@.entries);
            assert(order.take(order.len() as int) =~= order);
        }
        self.drop_detached(front, Ghost(pre));
        proof {
            let order = expiry_order::expiry_order(pre@.entries);
            assert(self@.entries =~= Map::empty()) by {
                assert forall|k: K| !self@.entries.contains_key(k) by {
                    if pre@.entries.contains_key(k) {
                        let i = choose|i: int| 0 <= i < order.len() && #[trigger] order[i] == k;
                        assert(order.contains(k));
                    }
                }
            }
        }
    }

    /// Removes all entries, zeroes the counters, and gives room back down to what was
    /// preallocated. None counts as evicted, and the callback is not called.
    pub fn cache_reset(&mut self)
        requires
            old(self).wf(),
        ensures
            final(self).wf(),
            final(self)@ == (SortedView {
                entries: Map::empty(),
                hits: 0,
                misses: 0,
                evictions: 0,
                ..old(self)@
            }),
            table::gave_room_back::<K, Entry<K, V>, S>(
                match old(self)@.initial_capacity {
                    Some(n) => n,
                    None => 0,
                },
            ),
    {
        table::empty_down_to(
            &mut self.map,
            match self.initial_capacity {
                Some(n) => n,
                None => 0,
            },
        );
        self.keys = ExpiryIndex::new();
        assert(lockstep::timed(self.map@) =~= Map::empty());
        self.cache_reset_metrics();
    }

    /// Zeroes the counters.
    pub fn cache_reset_metrics(&mut self)
        requires
            old(self).wf(),
        ensures
            final(self).wf(),
            final(self)@ == (SortedView { hits: 0, misses: 0, evictions: 0, ..old(self)@ }),
    {
        self.misses = 0;
        self.hits = 0;
        self.evictions = 0;
    }
}

impl<K: Hash + Eq + Ord + Clone, V, S: BuildHasher> TtlSortedCache<K, V, S> {
    /// Whether the entry of `k` stays when `keep` is asked at `now`. It is not asked about an
    /// expired entry, which leaves.
    pub open spec fn stays<F: FnMut(&K, &V) -> bool>(
        e: TimedEntry<V>,
        k: K,
        keep: F,
        now: Instant,
        stays: bool,
    ) -> bool {
        if e.expired(now) {
            !stays
        } else {
            keep.ensures((&k, &e.value), stays)
        }
    }

    /// Whether `gone` are the keys, in their order, of the entries that have expired at `now` or
    /// that `keep` rejects.
    pub open spec fn sifts<F: FnMut(&K, &V) -> bool>(
        entries: Map<K, TimedEntry<V>>,
        keep: F,
        now: Instant,
        gone: Seq<K>,
    ) -> bool {
        &&& forall|i: int, j: int|
            0 <= i < j < gone.len() ==> expiry_order::leaves_first(
                entries,
                #[trigger] gone[i],
                #[trigger] gone[j],
            )
        &&& forall|i: int| 0 <= i < gone.len() ==> entries.contains_key(#[trigger] gone[i])
        &&& forall|k: K| #[trigger]
            entries.contains_key(k) ==> Self::stays(entries[k], k, keep, now, !gone.contains(k))
    }

    /// Removes the entries that have expired at `now` or that `keep` rejects. All of them are
    /// chosen before the first one leaves; then they leave in their order.
    pub fn retain_at<F: FnMut(&K, &V) -> bool>(&mut self, keep: F, now: Instant)
        requires
            old(self).wf(),
            forall|k: &K, v: &V| keep.requires((k, v)),
        ensures
            final(self).wf(),
            exists|gone: Seq<K>|
                {
                    &&& final(self)@ == #[trigger] old(self)@.drop_keys(gone)
                    &&& Self::sifts(old(self)@.entries, keep, now, gone)
                },
    {
        let ghost pre = *self;
        let mut keep = keep;
        let ghost keep0 = keep;
        let mut doomed: Vec<bool> = Vec::new();
        let total: usize = self.keys.len();
        while doomed.len() < total
            invariant
                *self == pre,
                pre.wf(),
                keep == keep0,
                forall|k: &K, v: &V| keep0.requires((k, v)),
                doomed.len() <= total == pre.keys@.len(),
                forall|i: int|
                    0 <= i < doomed.len() ==> Self::stays(
                        pre.map@[*pre.keys@[i].key->0].timed(),
                        *pre.keys@[i].key->0,
                        keep0,
                        now,
                        !#[trigger] doomed[i],
                    ),
            decreases total - doomed.len(),
        {
            let i: usize = doomed.len();
            let stamped = self.keys.get(i);
            let mut leaves: bool = false;
            if let Some(key) = &stamped.key {
                let k: &K = key;
                if let Some(entry) = self.map.get(k) {
                    leaves = entry.is_expired_at(now) || !keep(k, &entry.value);
                }
            }
            assert(pre.map@.contains_key(*pre.keys@[i as int].key->0));
            doomed.push(leaves);
        }
        let mut kept: ExpiryIndex<K> = ExpiryIndex::new();
        let mut removed: Vec<(Arc<K>, Entry<K, V>)> = Vec::new();
        let ghost mut gone: Seq<K> = Seq::empty();
        let ghost mut at: Seq<int> = Seq::empty();
        let ghost keys = lockstep::stamped_keys(pre.keys@);
        let mut i: usize = 0;
        proof {
            assert(kept@ + pre.keys@ =~= pre.keys@);
            assert(pre.keys@.skip(0) =~= pre.keys@);
            assert(pre.map@ =~= pre.map@.remove_keys(gone.to_set()));
        }
        while i < total
            invariant
                self.sound(),
                pre.wf(),
                total == pre.keys@.len(),
                i <= total,
                doomed.len() == total,
                keys == lockstep::stamped_keys(pre.keys@),
                self.keys@ == pre.keys@.skip(i as int),
                lockstep::lockstep(self.map@, kept@ + self.keys@),
                self.map@ == pre.map@.remove_keys(gone.to_set()),
                self.same_settings(pre),
                self.evictions == pre.evictions,
                self.on_evict == pre.on_evict,
                self.size_limit != Some(0usize),
                gone.len() == removed.len(),
                forall|j: int|
                    0 <= j < gone.len() ==> {
                        &&& *(#[trigger] removed[j]).0 == gone[j]
                        &&& removed[j].1 == pre.map@[gone[j]]
                    },
                at.len() == gone.len(),
                forall|j: int|
                    0 <= j < gone.len() ==> {
                        &&& 0 <= #[trigger] at[j] < i
                        &&& doomed[at[j]]
                        &&& keys[at[j]] == gone[j]
                    },
                forall|n: int| 0 <= n < i ==> (#[trigger] doomed[n] <==> gone.contains(keys[n])),
                forall|j: int, l: int|
                    0 <= j < l < gone.len() ==> expiry_order::leaves_first(
                        pre@.entries,
                        #[trigger] gone[j],
                        #[trigger] gone[l],
                    ),
            decreases total - i,
        {
            let ghost before = self.keys@;
            let ghost gone0 = gone;
            let ghost at0 = at;
            proof {
                lockstep::lemma_lockstep_order(pre.map@, pre.keys@);
                expiry_order::lemma_leaves_first_ordered(pre@.entries);
                assert(before[0] == pre.keys@[i as int]);
                assert((kept@ + before)[kept@.len() as int] == before[0]);
                lockstep::lemma_lockstep_take(self.map@, kept@ + before, kept@.len() as int);
                assert((kept@ + before).remove(kept@.len() as int) =~= kept@ + before.skip(1));
                assert(before.skip(1) =~= pre.keys@.skip(i + 1));
                assert(expiry_index::indexed(before)) by {
                    assert forall|a: int, b: int| 0 <= a < b < before.len() implies (
                    #[trigger] before[a]).before(#[trigger] before[b]) by {
                        assert(before[a] == pre.keys@[i + a] && before[b] == pre.keys@[i + b]);
                    }
                }
                assert forall|n: int| 0 <= n < i implies #[trigger] keys[n] != keys[i as int] by {
                    assert(expiry_order::leaves_first(pre@.entries, keys[n], keys[i as int]));
                }
            }
            if let Some(stamped) = self.keys.pop_first() {
                if doomed[i] {
                    if let Some(key) = stamped.key {
                        let k: &K = &key;
                        if let Some(entry) = self.map.remove(k) {
                            proof {
                                gone = gone.push(*k);
                                at = at.push(i as int);
                            }
                            removed.push((key, entry));
                        }
                    }
                    proof {
                        let k = keys[i as int];
                        assert(gone == gone0.push(k));
                        expiry_order::lemma_insert_members(gone0, gone0.len() as int, k);
                        assert(gone0.insert(gone0.len() as int, k) =~= gone);
                        assert(gone.to_set() =~= gone0.to_set().insert(k));
                        assert(self.map@ =~= pre.map@.remove_keys(gone.to_set()));
                        assert forall|j: int, l: int| 0 <= j < l < gone.len() implies expiry_order::leaves_first(
                            pre@.entries,
                            #[trigger] gone[j],
                            #[trigger] gone[l],
                        ) by {
                            assert(gone[j] == gone0[j]);
                            if l == gone0.len() {
                                assert(at0[j] < i);
                                assert(expiry_order::leaves_first(pre@.entries, keys[at0[j]], keys[i as int]));
                            } else {
                                assert(gone[l] == gone0[l]);
                            }
                        }
                    }
                } else {
                    proof {
                        assert(kept@.push(stamped) + self.keys@ =~= kept@ + before);
                        expiry_index::lemma_front_indexed(kept@.push(stamped), self.keys@);
                        if gone.contains(keys[i as int]) {
                            let j = choose|j: int|
                                0 <= j < gone.len() && gone[j] == keys[i as int];
                            assert(keys[at[j]] != keys[i as int]);
                        }
                    }
                    kept.push_last(stamped);
                }
            }
            i += 1;
        }
        proof {
            assert(kept@ + self.keys@ =~= kept@);
            assert forall|j: int| 0 <= j < gone.len() implies pre@.entries.contains_key(
                #[trigger] gone[j],
            ) by {
                assert(0 <= at[j] < total);
                assert(pre.map@.contains_key(*pre.keys@[at[j]].key->0));
            }
        }
        self.keys = kept;
        self.evictions = expiry::count_up(self.evictions, removed.len());
        self.notify_removed(&removed, Ghost(gone), Ghost(pre));
        proof {
            assert(self@.entries =~= pre@.drop_keys(gone).entries);
            self.lemma_shrunk(pre);
            assert forall|k: K| #[trigger] pre@.entries.contains_key(k) implies Self::stays(
                pre@.entries[k],
                k,
                keep0,
                now,
                !gone.contains(k),
            ) by {
                assert(pre.map@.contains_key(k));
                let n = choose|n: int|
                    0 <= n < pre.keys@.len() && *(#[trigger] pre.keys@[n]).key->0 == k;
                assert(keys[n] == k);
                assert(doomed[n] <==> gone.contains(keys[n]));
            }
        }
    }

    /// Calls the callback for the entries `removed`, which were taken from `pre`.
    fn notify_removed(
        &mut self,
        removed: &Vec<(Arc<K>, Entry<K, V>)>,
        Ghost(gone): Ghost<Seq<K>>,
        Ghost(pre): Ghost<Self>,
    )
        requires
            old(self).in_step(),
            old(self).on_evict == pre.on_evict,
            gone.len() == removed.len(),
            forall|i: int|
                0 <= i < removed.len() ==> {
                    &&& *(#[trigger] removed[i]).0 == gone[i]
                    &&& removed[i].1.timed() == pre@.entries[gone[i]]
                },
        ensures
            final(self).in_step(),
            old(self).wf() ==> final(self).wf(),
            final(self)@ == (SortedView { heard: pre@.drop_keys(gone).heard, ..old(self)@ }),
    {
        let ghost before = *self;
        let ghost all = gone.map_values(|k: K| (k, pre@.entries[k].value));
        let mut told: usize = 0;
        assert(all.take(0) =~= Seq::empty());
        assert(pre@.heard + all.take(0) =~= pre@.heard);
        while told < removed.len()
            invariant
                self.in_step(),
                before.wf() ==> self.wf(),
                told <= removed.len() == gone.len(),
                self@ == (SortedView { heard: self@.heard, ..before@ }),
                self@.heard == if pre@.callback is Some {
                    pre@.heard + all.take(told as int)
                } else {
                    pre@.heard
                },
                before@.callback == pre@.callback,
                all == gone.map_values(|k: K| (k, pre@.entries[k].value)),
                forall|i: int|
                    0 <= i < removed.len() ==> {
                        &&& *(#[trigger] removed[i]).0 == gone[i]
                        &&& removed[i].1.timed() == pre@.entries[gone[i]]
                    },
            decreases removed.len() - told,
        {
            let ghost heard = self@.heard;
            self.on_evict.notify(&removed[told].0, &removed[told].1.value);
            proof {
                if pre@.callback is Some {
                    assert(all[told as int] == (gone[told as int], removed[told as int].1.value));
                    assert(self@.heard =~= pre@.heard + all.take(told + 1));
                }
            }
            told += 1;
        }
        assert(all.take(gone.len() as int) =~= all);
    }
}

impl<K: Hash + Eq + Ord + Clone, V, S: BuildHasher> TtlSortedCache<K, V, S> {
    /// The live value under `k`. Counts a hit or a miss; an expired entry leaves.
    pub fn cache_get(&mut self, k: &K) -> (r: Option<&V>)
        requires
            old(self).wf(),
        ensures
            final(self).wf(),
            exists|now: Instant|
                {
                    &&& old(self)@.clock.shows(now)
                    &&& final(self)@ == #[trigger] old(self)@.look_up(*k, now)
                    &&& match r {
                        Some(v) => old(self)@.live(*k, now) == Some(*v),
                        None => old(self)@.live(*k, now) is None,
                    }
                },
    {
        let now = self.clock.now();
        self.cache_get_at(k, now)
    }

    /// Access to the live value under `k`. Counts a hit or a miss; an expired entry leaves.
    pub fn cache_get_mut(&mut self, k: &K) -> (r: Option<&mut V>)
        requires
            old(self).wf(),
        ensures
            final(self).wf(),
            exists|now: Instant|
                old(self)@.clock.shows(now) && match r {
                    Some(v) => {
                        &&& old(self)@.live(*k, now) == Some(*v)
                        &&& final(self)@ == (#[trigger] old(self)@.look_up(*k, now)).with_value(
                            *k,
                            *final(v),
                        )
                    },
                    None => {
                        &&& old(self)@.live(*k, now) is None
                        &&& final(self)@ == old(self)@.look_up(*k, now)
                    },
                },
    {
        let now = self.clock.now();
        let ghost looked = self@.look_up(*k, now);
        self.cache_get_mut_at(k, now)
    }

    /// Writes `value` under `key` with the time to live of the cache, and returns the value that
    /// it displaces unless that had expired. The bound is enforced afterwards.
    pub fn cache_set(&mut self, key: K, value: V) -> (r: Option<V>)
        requires
            old(self).wf(),
        ensures
            final(self).wf(),
            exists|now: Instant|
                {
                    &&& old(self)@.clock.shows(now)
                    &&& r == old(self)@.live(key, now)
                    &&& final(self)@ == (#[trigger] old(self)@.put(
                        key,
                        value,
                        old(self)@.due(None, now),
                        now,
                    )).settle(false, now)
                },
    {
        let now = self.clock.now();
        self.set_inner(key, value, None, false, false, now).0
    }

    /// The same as [`cache_set`](Self::cache_set).
    pub fn set(&mut self, key: K, value: V) -> (r: Option<V>)
        requires
            old(self).wf(),
        ensures
            final(self).wf(),
            exists|now: Instant|
                {
                    &&& old(self)@.clock.shows(now)
                    &&& r == old(self)@.live(key, now)
                    &&& final(self)@ == (#[trigger] old(self)@.put(
                        key,
                        value,
                        old(self)@.due(None, now),
                        now,
                    )).settle(false, now)
                },
    {
        self.cache_set(key, value)
    }

    /// Removes the entry of `k` as evicted, and returns its value unless it had expired.
    pub fn cache_remove(&mut self, k: &K) -> (r: Option<V>)
        requires
            old(self).wf(),
        ensures
            final(self).wf(),
            exists|now: Instant|
                old(self)@.clock.shows(now) && r == #[trigger] old(self)@.live(*k, now),
            final(self)@ == if old(self)@.entries.contains_key(*k) {
                old(self)@.discard(*k)
            } else {
                old(self)@
            },
    {
        let now = self.clock.now();
        self.cache_remove_at(k, now)
    }

    /// Drops the entries whose deadline has passed, in their order, and returns their number.
    pub fn evict(&mut self) -> (count: usize)
        requires
            old(self).wf(),
        ensures
            final(self).wf(),
            exists|now: Instant|
                old(self)@.clock.shows(now) && count == #[trigger] expiry_order::past(
                    old(self)@.entries,
                    now,
                ).len(),
            final(self)@ == old(self)@.drop_front(count as nat),
    {
        let now = self.clock.now();
        self.evict_at(now)
    }

    /// Removes the entries that have expired or that `keep` rejects; see
    /// [`retain_at`](Self::retain_at).
    pub fn retain<F: FnMut(&K, &V) -> bool>(&mut self, keep: F)
        requires
            old(self).wf(),
            forall|k: &K, v: &V| keep.requires((k, v)),
        ensures
            final(self).wf(),
            exists|gone: Seq<K>, now: Instant|
                {
                    &&& old(self)@.clock.shows(now)
                    &&& final(self)@ == #[trigger] old(self)@.drop_keys(gone)
                    &&& #[trigger] Self::sifts(old(self)@.entries, keep, now, gone)
                },
    {
        let now = self.clock.now();
        self.retain_at(keep, now)
    }

    /// Drops the next entries to expire until at most `count` are left; with `evict`, also those
    /// whose deadline has passed. Returns how many were dropped.
    pub fn retain_latest(&mut self, count: usize, evict: bool) -> (dropped: usize)
        requires
            old(self).wf(),
        ensures
            final(self).wf(),
            !evict ==> dropped == old(self)@.surplus(count, None),
            evict ==> exists|now: Instant|
                old(self)@.clock.shows(now) && dropped == #[trigger] old(self)@.surplus(count, Some(now)),
            final(self)@ == old(self)@.drop_front(dropped as nat),
    {
        let cutoff = if evict {
            Some(self.clock.now())
        } else {
            None
        };
        self.retain_latest_at(count, cutoff)
    }

    /// Bounds the number of entries, and returns the bound that held before. Where there are more
    /// entries, the next ones to expire are dropped at once.
    pub fn set_max_size(&mut self, max_size: usize) -> (prev: Option<usize>)
        requires
            old(self).wf(),
            max_size > 0,
        ensures
            final(self).wf(),
            prev == old(self)@.max_size,
            final(self)@ == {
                let bounded = SortedView { max_size: Some(max_size), ..old(self)@ };
                bounded.drop_front(bounded.surplus(max_size, None))
            },
    {
        let prev = self.size_limit;
        self.size_limit = Some(max_size);
        assert(self@.entries.dom() =~= self.map@.dom());
        if self.map.len() > max_size {
            let ghost bounded = *self;
            let dropped: usize = self.retain_latest_at(max_size, None);
            proof {
                sorted_view::law_drops_next_to_expire(bounded@, dropped as nat);
                self.lemma_within_bound();
            }
        } else {
            proof {
                self.lemma_nothing_dropped();
                self.lemma_within_bound();
            }
        }
        prev
    }

    /// [`set_max_size`](Self::set_max_size), refusing a bound of zero.
    pub fn try_set_max_size(&mut self, max_size: usize) -> (r: Result<Option<usize>, SetMaxSizeError>)
        requires
            old(self).wf(),
        ensures
            final(self).wf(),
            max_size == 0 ==> r == Err::<Option<usize>, SetMaxSizeError>(
                SetMaxSizeError::ZeroMaxSize,
            ) && final(self)@ == old(self)@,
            max_size != 0 ==> r == Ok::<Option<usize>, SetMaxSizeError>(old(self)@.max_size)
                && final(self)@ == {
                let bounded = SortedView { max_size: Some(max_size), ..old(self)@ };
                bounded.drop_front(bounded.surplus(max_size, None))
            },
    {
        if max_size == 0 {
            return Err(SetMaxSizeError::ZeroMaxSize);
        }
        Ok(self.set_max_size(max_size))
    }

    /// Makes room for `more` entries, where there is memory for them.
    pub fn reserve(&mut self, more: usize)
        requires
            old(self).wf(),
        ensures
            final(self).wf(),
            final(self)@ == old(self)@,
            exists|made: bool| #[trigger] old(self).asked_for_room(more, made),
    {
        let ghost before = *self;
        let made: bool = table::ask_for_room(&mut self.map, more);
        assert(before.asked_for_room(more, made));
    }

    /// The live value under `k` at `now`, if there is one. Nothing is counted.
    pub fn cache_peek_at(&self, k: &K, now: Instant) -> (r: Option<&V>)
        requires
            self.wf(),
        ensures
            match r {
                Some(v) => self@.live(*k, now) == Some(*v),
                None => self@.live(*k, now) is None,
            },
    {
        match self.map.get(k) {
            Some(entry) => if entry.is_expired_at(now) {
                None
            } else {
                Some(&entry.value)
            },
            None => None,
        }
    }

    /// The live value under `k`, if there is one. Nothing is counted.
    pub fn cache_peek(&self, k: &K) -> (r: Option<&V>)
        requires
            self.wf(),
        ensures
            exists|now: Instant|
                self@.clock.shows(now) && match r {
                    Some(v) => #[trigger] self@.live(*k, now) == Some(*v),
                    None => self@.live(*k, now) is None,
                },
    {
        let now = self.clock.now();
        let ghost live = self@.live(*k, now);
        self.cache_peek_at(k, now)
    }

    /// Whether there is a live value under `k`. Nothing is counted.
    pub fn cache_contains(&self, k: &K) -> (b: bool)
        requires
            self.wf(),
        ensures
            exists|now: Instant|
                self@.clock.shows(now) && b == (#[trigger] self@.live(*k, now) is Some),
    {
        let now = self.clock.now();
        let ghost live = self@.live(*k, now);
        self.cache_peek_at(k, now).is_some()
    }

    /// The live value under `k` at `now`. Counts a hit or a miss; no entry leaves.
    pub fn cache_get_read_at(&mut self, k: &K, now: Instant) -> (r: Option<&V>)
        requires
            old(self).wf(),
        ensures
            final(self).wf(),
            match r {
                Some(v) => old(self)@.live(*k, now) == Some(*v) && final(self)@
                    == old(self)@.hit(),
                None => old(self)@.live(*k, now) is None && final(self)@ == old(self)@.miss(),
            },
    {
        if self.probe_at(k, now) {
            self.cache_peek_at(k, now)
        } else {
            None
        }
    }

    /// The live value under `k`. Counts a hit or a miss; no entry leaves. Threads that read side by
    /// side count through [`SharedReads`](crate::stores::shared_reads::SharedReads).
    pub fn cache_get_read(&mut self, k: &K) -> (r: Option<&V>)
        requires
            old(self).wf(),
        ensures
            final(self).wf(),
            exists|now: Instant|
                old(self)@.clock.shows(now) && match r {
                    Some(v) => #[trigger] old(self)@.live(*k, now) == Some(*v) && final(self)@
                        == old(self)@.hit(),
                    None => old(self)@.live(*k, now) is None && final(self)@ == old(self)@.miss(),
                },
    {
        let now = self.clock.now();
        let ghost live = self@.live(*k, now);
        self.cache_get_read_at(k, now)
    }

    /// The number of entries, expired ones that have not left yet among them.
    pub fn cache_size(&self) -> (n: usize)
        requires
            self.wf(),
        ensures
            n == self@.entries.len(),
    {
        assert(self@.entries.dom() =~= self.map@.dom());
        self.map.len()
    }

    /// How many entries the cache has room for before it must allocate.
    pub fn room(&self) -> (n: usize)
        requires
            self.wf(),
        ensures
            n >= self@.entries.len(),
    {
        assert(self@.entries.dom() =~= self.map@.dom());
        table::room(&self.map)
    }

    /// The number of stamps in the index of deadlines: one for each entry.
    pub fn index_len(&self) -> (n: usize)
        requires
            self.wf(),
        ensures
            n == self@.entries.len(),
    {
        assert(self@.entries.dom() =~= self.map@.dom());
        self.keys.len()
    }
}

impl<K: Hash + Eq + Ord + Clone, V: Clone, S: BuildHasher> TtlSortedCache<K, V, S> {
    /// A clone of the value under `k`, expired or not, and whether it has expired at `now`.
    /// Counts a hit for a live value and a miss otherwise; no entry leaves.
    pub fn cache_get_with_expiry_status_at(&mut self, k: &K, now: Instant) -> (r: (Option<V>, bool))
        requires
            old(self).wf(),
        ensures
            final(self).wf(),
            old(self)@.reads(*k, now, r),
            final(self)@ == if old(self)@.live(*k, now) is Some {
                old(self)@.hit()
            } else {
                old(self)@.miss()
            },
    {
        let _ = self.probe_at(k, now);
        self.cache_peek_with_expiry_status_at(k, now)
    }

    pub fn cache_get_with_expiry_status(&mut self, k: &K) -> (r: (Option<V>, bool))
        requires
            old(self).wf(),
        ensures
            final(self).wf(),
            exists|now: Instant|
                {
                    &&& old(self)@.clock.shows(now)
                    &&& #[trigger] old(self)@.reads(*k, now, r)
                    &&& final(self)@ == if old(self)@.live(*k, now) is Some {
                        old(self)@.hit()
                    } else {
                        old(self)@.miss()
                    }
                },
    {
        let now = self.clock.now();
        self.cache_get_with_expiry_status_at(k, now)
    }

    /// A clone of the value under `k`, expired or not, and whether it has expired at `now`.
    /// Nothing is counted.
    pub fn cache_peek_with_expiry_status_at(&self, k: &K, now: Instant) -> (r: (Option<V>, bool))
        requires
            self.wf(),
        ensures
            self@.reads(*k, now, r),
    {
        match self.map.get(k) {
            None => (None, false),
            Some(entry) => (Some(entry.value.clone()), entry.is_expired_at(now)),
        }
    }

    pub fn cache_peek_with_expiry_status(&self, k: &K) -> (r: (Option<V>, bool))
        requires
            self.wf(),
        ensures
            exists|now: Instant| self@.clock.shows(now) && #[trigger] self@.reads(*k, now, r),
    {
        let now = self.clock.now();
        self.cache_peek_with_expiry_status_at(k, now)
    }
}

impl<K, V, S> TtlSortedCache<K, V, S> {
    /// The clock that the cache reads.
    pub open spec fn timepiece(&self) -> Clock {
        self@.clock
    }

    /// The clock that the cache reads.
    pub fn clock(&self) -> (c: Clock)
        ensures
            c == self.timepiece(),
    {
        self.clock
    }

    /// The bound on the number of entries, if there is one.
    pub fn capacity(&self) -> (r: Option<usize>)
        ensures
            r == self@.max_size,
    {
        self.size_limit
    }

    /// The same as [`capacity`](Self::capacity).
    pub fn cache_capacity(&self) -> (r: Option<usize>)
        ensures
            r == self@.max_size,
    {
        self.size_limit
    }

    pub fn cache_hits(&self) -> (r: Option<u64>)
        ensures
            r == Some(self@.hits),
    {
        Some(self.hits)
    }

    pub fn cache_misses(&self) -> (r: Option<u64>)
        ensures
            r == Some(self@.misses),
    {
        Some(self.misses)
    }

    /// How many entries the cache was told to have room for from the start.
    pub fn initial_capacity(&self) -> (r: Option<usize>)
        ensures
            r == self@.initial_capacity,
    {
        self.initial_capacity
    }

    /// Whether there is a callback for evicted entries.
    pub fn has_on_evict(&self) -> (b: bool)
        ensures
            b == (self@.callback is Some),
    {
        self.on_evict.is_listening()
    }

    pub fn cache_evictions(&self) -> (r: Option<u64>)
        ensures
            r == Some(self@.evictions),
    {
        Some(self.evictions)
    }

    /// The time to live of new entries, `None` where they do not expire.
    pub fn ttl(&self) -> (r: Option<Duration>)
        ensures
            r == expiry::reported(self@.ttl),
    {
        expiry::report_ttl(self.ttl)
    }

    /// `false`: a hit does not renew an entry.
    pub fn refresh_on_hit(&self) -> (b: bool)
        ensures
            !b,
    {
        false
    }
}

impl<K: Hash + Eq + Ord + Clone, V, S: BuildHasher> TtlSortedCache<K, V, S> {
    /// Sets the time to live of entries that are written from now on, and returns the former one.
    /// With zero they do not expire. Entries keep the deadlines that they have.
    pub fn set_ttl(&mut self, ttl: Duration) -> (r: Option<Duration>)
        requires
            old(self).wf(),
        ensures
            final(self).wf(),
            r == expiry::reported(old(self)@.ttl),
            final(self)@ == (SortedView { ttl, ..old(self)@ }),
    {
        let former = self.ttl;
        self.ttl = ttl;
        expiry::report_ttl(former)
    }

    /// Lets entries that are written from now on live forever, and returns the former time to
    /// live.
    pub fn unset_ttl(&mut self) -> (r: Option<Duration>)
        requires
            old(self).wf(),
        ensures
            final(self).wf(),
            r == expiry::reported(old(self)@.ttl),
            final(self)@ == (SortedView { ttl: Duration { nanos: 0 }, ..old(self)@ }),
    {
        self.set_ttl(Duration::zero())
    }

    /// Changes nothing and returns `false`: a hit never renews an entry.
    pub fn set_refresh_on_hit(&mut self, _refresh: bool) -> (b: bool)
        ensures
            !b,
            *final(self) == *old(self),
    {
        false
    }
}

impl<K: Hash + Eq + Ord + Clone, V, S: BuildHasher> TtlSortedCache<K, V, S> {
    /// The keys and values that are live at `now`, in the order in which they leave.
    pub fn iter_at(&self, now: Instant) -> (r: Vec<(&K, &V)>)
        requires
            self.wf(),
        ensures
            r@.map_values(|e: (&K, &V)| (*e.0, *e.1)) == self@.live_list(now),
    {
        let mut r: Vec<(&K, &V)> = Vec::new();
        let ghost keys = lockstep::stamped_keys(self.keys@);
        let ghost fresh = |k: K| !self@.entries[k].expired(now);
        let ghost whole = |k: K| (k, self@.entries[k].value);
        let mut i: usize = 0;
        proof {
            lockstep::lemma_lockstep_order(self.map@, self.keys@);
            reveal(Seq::filter);
        }
        while i < self.keys.len()
            invariant
                self.wf(),
                i <= self.keys@.len(),
                keys == lockstep::stamped_keys(self.keys@),
                fresh == (|k: K| !self@.entries[k].expired(now)),
                whole == (|k: K| (k, self@.entries[k].value)),
                r@.map_values(|e: (&K, &V)| (*e.0, *e.1)) == keys.take(i as int).filter(
                    fresh,
                ).map_values(whole),
            decreases self.keys@.len() - i,
        {
            proof {
                let a = keys.take(i as int);
                let b = keys.take(i + 1);
                assert(b.drop_last() =~= a);
                assert(b.last() == keys[i as int]);
                reveal(Seq::filter);
                assert(self.map@.contains_key(*self.keys@[i as int].key->0));
            }
            let ghost before = r@;
            if let Some(key) = &self.keys.get(i).key {
                let k: &K = key;
                if let Some(entry) = self.map.get(k) {
                    if !entry.is_expired_at(now) {
                        r.push((k, &entry.value));
                        proof {
                            let pair = |e: (&K, &V)| (*e.0, *e.1);
                            assert(r@.map_values(pair) =~= before.map_values(pair).push(
                                whole(keys[i as int]),
                            ));
                            let kept = keys.take(i as int).filter(fresh);
                            assert(kept.push(keys[i as int]).map_values(whole)
                                =~= kept.map_values(whole).push(whole(keys[i as int])));
                        }
                    }
                }
            }
            i += 1;
        }
        assert(keys.take(i as int) =~= keys);
        r
    }

    /// All entries, in the order in which they leave, expired ones among them. Who walks them may
    /// judge each when it is reached; see [`Listed::live`].
    pub fn entries(&self) -> (r: Vec<Listed<'_, K, V>>)
        requires
            self.wf(),
        ensures
            expiry::listed(r@) == self@.entry_list(),
    {
        let mut r: Vec<Listed<'_, K, V>> = Vec::new();
        let ghost keys = lockstep::stamped_keys(self.keys@);
        let mut i: usize = 0;
        proof {
            lockstep::lemma_lockstep_order(self.map@, self.keys@);
        }
        while i < self.keys.len()
            invariant
                self.wf(),
                i <= self.keys@.len(),
                keys == lockstep::stamped_keys(self.keys@),
                r.len() == i,
                forall|j: int|
                    0 <= j < i ==> (#[trigger] r[j]).stored() == (keys[j], self@.entries[keys[j]]),
            decreases self.keys@.len() - i,
        {
            assert(self.map@.contains_key(*self.keys@[i as int].key->0));
            if let Some(key) = &self.keys.get(i).key {
                let k: &K = key;
                if let Some(entry) = self.map.get(k) {
                    r.push(Listed { key: k, value: &entry.value, expires_at: entry.expiry });
                }
            }
            i += 1;
        }
        proof {
            let list = expiry::listed(r@);
            assert forall|j: int| 0 <= j < list.len() implies #[trigger] list[j]
                == self@.entry_list()[j] by {
                assert(r[j].stored() == list[j]);
            }
            assert(list =~= self@.entry_list());
        }
        r
    }

    /// The live keys and values, in the order in which they leave, all judged at the instant of the
    /// call; see also [`entries`](Self::entries).
    pub fn iter(&self) -> (r: Vec<(&K, &V)>)
        requires
            self.wf(),
        ensures
            exists|now: Instant|
                self@.clock.shows(now) && r@.map_values(|e: (&K, &V)| (*e.0, *e.1)) == #[trigger] self@.live_list(now),
    {
        let now = self.clock.now();
        let ghost list = self@.live_list(now);
        self.iter_at(now)
    }
}

impl<K: Hash + Eq + Ord + Clone, V, S: BuildHasher> CacheEvict for TtlSortedCache<K, V, S> {
    open spec fn sweepable(&self) -> bool {
        self.wf()
    }

    open spec fn entry_count(&self) -> nat {
        self@.entries.len()
    }

    fn evict(&mut self) -> (n: usize)
        ensures
            exists|now: Instant|
                old(self)@.clock.shows(now) && n == #[trigger] expiry_order::past(
                    old(self)@.entries,
                    now,
                ).len(),
            final(self)@ == old(self)@.drop_front(n as nat),
    {
        let ghost pre = *self;
        let n: usize = TtlSortedCache::evict(self);
        proof {
            pre.lemma_wf();
            let now = choose|now: Instant|
                n == #[trigger] expiry_order::past(pre@.entries, now).len();
            let late = expiry_order::past(pre@.entries, now);
            assert(late.subset_of(pre@.entries.dom()));
            vstd::set_lib::lemma_len_subset(late, pre@.entries.dom());
            sorted_view::law_drops_next_to_expire(pre@, n as nat);
        }
        n
    }
}

impl<K: Hash + Eq + Ord + Clone, V: Clone, S: BuildHasher + Clone> Clone for TtlSortedCache<
    K,
    V,
    S,
> {
    /// A cache with the same entries, settings and counters, and the same callback.
    fn clone(&self) -> (c: Self)
        ensures
            self.wf() ==> c.wf(),
            expiry::copies(self@.entries, c@.entries),
            c@ == (SortedView { entries: c@.entries, heard: Seq::empty(), ..self@ }),
    {
        TtlSortedCache {
            clock: self.clock,
            map: self.map.clone(),
            keys: self.keys.duplicate(),
            ttl: self.ttl,
            size_limit: self.size_limit,
            initial_capacity: self.initial_capacity,
            hits: self.hits,
            misses: self.misses,
            evictions: self.evictions,
            on_evict: self.on_evict.fresh(),
        }
    }
}

/// The settings of a [`TtlSortedCache`] to be.
#[verifier::reject_recursive_types(K)]
#[verifier::reject_recursive_types(V)]
pub struct TtlSortedCacheBuilder<K, V, S = DefaultHashBuilder> {
    pub size: Option<usize>,
    pub capacity: Option<usize>,
    pub ttl: Option<Duration>,
    pub on_evict: Option<OnEvict<K, V>>,
    pub hasher: S,
}

impl<K, V> Default for TtlSortedCacheBuilder<K, V, DefaultHashBuilder> {
    fn default() -> (b: Self)
        ensures
            b.size is None,
            b.capacity is None,
            b.ttl is None,
            b.on_evict is None,
            table::hashes_soundly(b.hasher),
    {
        TtlSortedCacheBuilder {
            size: None,
            capacity: None,
            ttl: None,
            on_evict: None,
            hasher: table::new_default_hash_builder(),
        }
    }
}

impl<K, V> TtlSortedCacheBuilder<K, V> {
    /// A builder without any setting.
    #[must_use]
    pub fn new() -> (b: Self)
        ensures
            b.size is None,
            b.capacity is None,
            b.ttl is None,
            b.on_evict is None,
            table::hashes_soundly(b.hasher),
    {
        Self::default()
    }
}

impl<K, V, S> TtlSortedCacheBuilder<K, V, S> {
    /// Whether the callback, if there is one, takes any entry.
    pub open spec fn wf(&self) -> bool {
        self.on_evict matches Some(f) ==> f.attentive()
    }

    /// How many entries room is made for: `capacity` where it is set, else one more than `size`.
    pub open spec fn room_asked(&self) -> Option<usize> {
        match (self.capacity, self.size) {
            (Some(n), _) => Some(n),
            (None, Some(n)) => Some(
                if n == usize::MAX {
                    n
                } else {
                    (n + 1) as usize
                },
            ),
            (None, None) => None,
        }
    }

    /// The name of the setting that asks for room.
    pub open spec fn room_setting(&self) -> Seq<char> {
        if self.capacity is Some {
            "initial_capacity"@
        } else {
            "max_size"@
        }
    }

    /// Bounds the number of entries.
    #[must_use]
    pub fn max_size(self, max_size: usize) -> (b: Self)
        ensures
            b == (TtlSortedCacheBuilder { size: Some(max_size), ..self }),
    {
        TtlSortedCacheBuilder { size: Some(max_size), ..self }
    }

    /// Makes room for `capacity` entries. This does not bound their number.
    #[must_use]
    pub fn initial_capacity(self, capacity: usize) -> (b: Self)
        ensures
            b == (TtlSortedCacheBuilder { capacity: Some(capacity), ..self }),
    {
        TtlSortedCacheBuilder { capacity: Some(capacity), ..self }
    }

    /// Sets the time to live of entries, in place of any that was set before.
    #[must_use]
    pub fn ttl(self, ttl: Duration) -> (b: Self)
        ensures
            b == (TtlSortedCacheBuilder { ttl: Some(ttl), ..self }),
    {
        TtlSortedCacheBuilder { ttl: Some(ttl), ..self }
    }

    /// Sets the time to live of entries in seconds, in place of any that was set before.
    #[must_use]
    pub fn ttl_secs(self, secs: u64) -> (b: Self)
        ensures
            b == (TtlSortedCacheBuilder {
                ttl: Some(Duration { nanos: (secs * 1_000_000_000) as u128 }),
                ..self
            }),
    {
        self.ttl(Duration::from_secs(secs))
    }

    /// Sets the time to live of entries in milliseconds, in place of any that was set before.
    #[must_use]
    pub fn ttl_millis(self, millis: u64) -> (b: Self)
        ensures
            b == (TtlSortedCacheBuilder {
                ttl: Some(Duration { nanos: (millis * 1_000_000) as u128 }),
                ..self
            }),
    {
        self.ttl(Duration::from_millis(millis))
    }

    /// Sets the callback for entries that are evicted: dropped for the bound, swept or displaced
    /// as expired, or removed. It is not called for entries that are cleared.
    #[must_use]
    pub fn on_evict<F: Fn(&K, &V) + Send + Sync + 'static>(self, on_evict: F) -> (b: Self)
        requires
            forall|k: &K, v: &V| call_requires(on_evict, (k, v)),
        ensures
            listener::calls(b.on_evict, on_evict),
            b.wf(),
            b == (TtlSortedCacheBuilder { on_evict: b.on_evict, ..self }),
    {
        TtlSortedCacheBuilder { on_evict: Some(listener::on_evict_from(on_evict)), ..self }
    }

    /// Hashes keys with `hasher`.
    #[must_use]
    pub fn hasher<S2: BuildHasher>(self, hasher: S2) -> (b: TtlSortedCacheBuilder<K, V, S2>)
        ensures
            b == (TtlSortedCacheBuilder {
                size: self.size,
                capacity: self.capacity,
                ttl: self.ttl,
                on_evict: self.on_evict,
                hasher,
            }),
    {
        TtlSortedCacheBuilder {
            size: self.size,
            capacity: self.capacity,
            ttl: self.ttl,
            on_evict: self.on_evict,
            hasher,
        }
    }

    /// How many entries room is made for, and the name of the setting that asks for it.
    pub fn preallocation(&self) -> (r: Option<(usize, &'static str)>)
        ensures
            match r {
                Some((amount, field)) => self.room_asked() == Some(amount) && field@
                    == self.room_setting(),
                None => self.room_asked() is None,
            },
    {
        match self.capacity {
            Some(n) => Some((n, "initial_capacity")),
            None => match self.size {
                Some(n) => Some((n.saturating_add(1), "max_size")),
                None => None,
            },
        }
    }

    /// The state of a new cache with these settings that reads `clock`.
    pub open spec fn fresh(&self, clock: Clock) -> SortedView<K, V> {
        SortedView {
            clock,
            entries: Map::empty(),
            ttl: self.ttl->0,
            max_size: self.size,
            initial_capacity: self.room_asked(),
            hits: 0,
            misses: 0,
            evictions: 0,
            callback: self.on_evict,
            heard: Seq::empty(),
        }
    }
}

/// What follows an attempt to make room: an error that names the setting `field` if there was
/// none.
pub fn judge_room(reserved: bool, field: &'static str) -> (r: Result<(), BuildError>)
    ensures
        reserved ==> r is Ok,
        !reserved ==> error::refuses(r, field@, "allocation failed"@),
{
    if reserved {
        Ok(())
    } else {
        Err(BuildError::InvalidValue { field, reason: "allocation failed" })
    }
}

impl<K: Hash + Eq + Ord + Clone, V, S: BuildHasher> TtlSortedCacheBuilder<K, V, S> {
    /// Whether a fresh table was asked to make room for `n` entries, and `made` says whether it
    /// did. That rests on the allocator.
    pub open spec fn room_made(&self, n: usize, made: bool) -> bool {
        table::asked_for_fresh_room::<K, Entry<K, V>, S>(self.hasher, n, made)
    }

    /// The cache with these settings. They are refused without a time to live, or with one of
    /// zero; with a bound of zero; and where no room can be made for the entries that were asked
    /// for, which depends on the allocator.
    pub fn build(self) -> (r: Result<TtlSortedCache<K, V, S>, BuildError>)
        ensures
            self.ttl is None || self.ttl->0.nanos == 0 ==> error::refuses_ttl(self.ttl, r),
            self.ttl is Some && self.ttl->0.nanos != 0 ==> if self.size == Some(0usize) {
                error::refuses(r, "max_size"@, "must be greater than zero"@)
            } else {
                match r {
                    Ok(c) => {
                        &&& c@ == self.fresh(c@.clock)
                        &&& c@.clock.started()
                        &&& c.starts_with_room(self.hasher, self.room_asked(), true)
                        &&& self.room_asked() matches Some(n) ==> self.room_made(n, true)
                        &&& table::keyed::<K, S>() && expiry_index::ordered::<K>()
                            && clones_exactly::<K>() && self.wf() ==> c.wf()
                    },
                    Err(_) => {
                        &&& self.room_asked() matches Some(n) && self.room_made(n, false)
                        &&& error::refuses(r, self.room_setting(), "allocation failed"@)
                    },
                }
            },
    {
        let ttl = match error::validate_ttl(self.ttl) {
            Ok(ttl) => ttl,
            Err(e) => return Err(e),
        };
        if let Some(size) = self.size {
            if size == 0 {
                return Err(
                    BuildError::InvalidValue {
                        field: "max_size",
                        reason: "must be greater than zero",
                    },
                );
            }
        }
        let preallocate = self.preallocation();
        let room: Option<usize> = match preallocate {
            Some((amount, _)) => Some(amount),
            None => None,
        };
        let (map, made) = table::table_with_room::<K, Entry<K, V>, S>(self.hasher, room);
        if let Some((_, field)) = preallocate {
            if let Err(e) = judge_room(made, field) {
                return Err(e);
            }
        }
        let cache = TtlSortedCache {
            clock: Clock::start(),
            map,
            keys: ExpiryIndex::new(),
            ttl,
            size_limit: self.size,
            initial_capacity: room,
            hits: 0,
            misses: 0,
            evictions: 0,
            on_evict: Listener::new(self.on_evict),
        };
        assert(cache@.entries =~= Map::empty());
        assert(lockstep::lockstep(cache.map@, cache.keys@));
        Ok(cache)
    }
}

impl<K: Hash + Eq + Ord + Clone, V> TtlSortedCache<K, V> {
    /// A cache without a bound whose entries live for `ttl`.
    #[must_use]
    pub fn new(ttl: Duration) -> (c: Self)
        requires
            ttl.nanos != 0,
        ensures
            c@.clock.started(),
            c@ == (SortedView::<K, V> {
                clock: c@.clock,
                entries: Map::empty(),
                ttl,
                max_size: None,
                initial_capacity: None,
                hits: 0,
                misses: 0,
                evictions: 0,
                callback: None,
                heard: Seq::empty(),
            }),
            vstd::std_specs::hash::obeys_key_model::<K>() && expiry_index::ordered::<K>()
                && clones_exactly::<K>() ==> c.wf(),
    {
        Self::builder().ttl(ttl).build().unwrap()
    }

    /// A builder without any setting.
    #[must_use]
    pub fn builder() -> (b: TtlSortedCacheBuilder<K, V>)
        ensures
            b.size is None,
            b.capacity is None,
            b.ttl is None,
            b.on_evict is None,
            table::hashes_soundly(b.hasher),
    {
        TtlSortedCacheBuilder::default()
    }
}

/// A write to a [`TtlSortedCache`] in the making. Nothing is written until
/// [`set`](TtlSortedSetBuilder::set) is called.
#[must_use]
#[verifier::reject_recursive_types(K)]
#[verifier::reject_recursive_types(V)]
#[verifier::reject_recursive_types(S)]
pub struct TtlSortedSetBuilder<'a, K, V, S = DefaultHashBuilder> {
    pub cache: &'a mut TtlSortedCache<K, V, S>,
    pub key: K,
    pub value: V,
    pub ttl: Option<Duration>,
    pub evict: bool,
}

impl<K: Hash + Eq + Ord + Clone, V, S: BuildHasher> TtlSortedCache<K, V, S> {
    /// Begins a write of `value` under `key`.
    pub fn set_with(&mut self, key: K, value: V) -> (b: TtlSortedSetBuilder<'_, K, V, S>)
        ensures
            *b.cache == *old(self),
            *final(self) == *final(b.cache),
            b.key == key,
            b.value == value,
            b.ttl is None,
            !b.evict,
    {
        TtlSortedSetBuilder { cache: self, key, value, ttl: None, evict: false }
    }
}

impl<'a, K: Hash + Eq + Ord + Clone, V, S: BuildHasher> TtlSortedSetBuilder<'a, K, V, S> {
    /// Gives the entry a time to live of its own. With zero it does not expire.
    pub fn ttl(self, ttl: Duration) -> (b: Self)
        ensures
            b == (TtlSortedSetBuilder { ttl: Some(ttl), ..self }),
    {
        let mut b = self;
        b.ttl = Some(ttl);
        b
    }

    /// Sweeps expired entries after the write: always where there is no bound, else when the
    /// write exceeds it.
    pub fn evict(self) -> (b: Self)
        ensures
            b == (TtlSortedSetBuilder { evict: true, ..self }),
    {
        let mut b = self;
        b.evict = true;
        b
    }

    /// Writes the entry, and returns the value that it displaces unless that had expired.
    pub fn set(self) -> (r: Option<V>)
        requires
            self.cache.wf(),
        ensures
            final(self.cache).wf(),
            exists|now: Instant|
                {
                    &&& old(self.cache)@.clock.shows(now)
                    &&& r == old(self.cache)@.live(self.key, now)
                    &&& final(self.cache)@ == (#[trigger] old(self.cache)@.put(
                        self.key,
                        self.value,
                        old(self.cache)@.due(self.ttl, now),
                        now,
                    )).settle(self.evict, now)
                },
    {
        let now = self.cache.clock.now();
        self.cache.set_inner(self.key, self.value, self.ttl, self.evict, false, now).0
    }
}

impl<K, V, S> View for TtlSortedCache<K, V, S> {
    type V = SortedView<K, V>;

    closed spec fn view(&self) -> SortedView<K, V> {
        SortedView {
            clock: self.clock,
            entries: lockstep::timed(self.map@),
            ttl: self.ttl,
            max_size: self.size_limit,
            initial_capacity: self.initial_capacity,
            hits: self.hits,
            misses: self.misses,
            evictions: self.evictions,
            callback: self.on_evict.callback(),
            heard: self.on_evict.heard(),
        }
    }
}

} // verus!
