//! The states of a cache that drops the next entries to expire, and how they follow each other.
use crate::stores::expiry::{self, TimedEntry};
use crate::stores::expiry_index;
use crate::stores::expiry_order;
use crate::stores::listener::OnEvict;
use crate::time::{Clock, Duration, Instant};
use vstd::prelude::*;

verus! {

/// The state of a [`TtlSortedCache`].
#[verifier::ext_equal]
#[verifier::reject_recursive_types(K)]
#[verifier::reject_recursive_types(V)]
pub struct SortedView<K, V> {
    pub clock: Clock,
    pub entries: Map<K, TimedEntry<V>>,
    pub ttl: Duration,
    pub max_size: Option<usize>,
    pub initial_capacity: Option<usize>,
    pub hits: u64,
    pub misses: u64,
    pub evictions: u64,
    pub callback: Option<OnEvict<K, V>>,
    pub heard: Seq<(K, V)>,
}

impl<K: Ord, V> SortedView<K, V> {
    /// The state after the entries of `gone` have left: each counts as an eviction, and the
    /// callback hears of them in this order.
    pub open spec fn drop_keys(self, gone: Seq<K>) -> SortedView<K, V> {
        SortedView {
            entries: self.entries.remove_keys(gone.to_set()),
            evictions: expiry::bump(self.evictions, gone.len() as int),
            heard: if self.callback is Some {
                self.heard + gone.map_values(|k: K| (k, self.entries[k].value))
            } else {
                self.heard
            },
            ..self
        }
    }

    /// The state after the first `n` entries have left.
    pub open spec fn drop_front(self, n: nat) -> SortedView<K, V> {
        self.drop_keys(expiry_order::expiry_order(self.entries).take(n as int))
    }

    /// The state after the first `n` entries other than that of `k` have left.
    pub open spec fn drop_others(self, k: K, n: nat) -> SortedView<K, V> {
        self.drop_keys(expiry_order::expiry_order(self.entries.remove(k)).take(n as int))
    }

    /// The state after the entry of `k` has left.
    pub open spec fn discard(self, k: K) -> SortedView<K, V> {
        self.drop_keys(seq![k])
    }

    /// The state after a hit.
    pub open spec fn hit(self) -> SortedView<K, V> {
        SortedView { hits: expiry::bump(self.hits, 1), ..self }
    }

    /// The state after a miss.
    pub open spec fn miss(self) -> SortedView<K, V> {
        SortedView { misses: expiry::bump(self.misses, 1), ..self }
    }

    /// The state after a look-up of `k`: a live entry is a hit, anything else a miss, and an
    /// expired entry leaves.
    pub open spec fn look_up(self, k: K, now: Instant) -> SortedView<K, V> {
        if !self.entries.contains_key(k) {
            self.miss()
        } else if self.entries[k].expired(now) {
            self.miss().discard(k)
        } else {
            self.hit()
        }
    }

    /// The state after the value under `k` was overwritten in place.
    pub open spec fn with_value(self, k: K, v: V) -> SortedView<K, V> {
        SortedView {
            entries: self.entries.insert(
                k,
                TimedEntry { expires_at: self.entries[k].expires_at, value: v },
            ),
            ..self
        }
    }

    /// Whether the clock and the callback are those of `other`.
    pub open spec fn has_clock_and_callback_of(self, other: SortedView<K, V>) -> bool {
        self.clock == other.clock && self.callback == other.callback
    }

    /// The value under `k`, unless there is none or it has expired at `now`.
    pub open spec fn live(self, k: K, now: Instant) -> Option<V> {
        if self.entries.contains_key(k) && !self.entries[k].expired(now) {
            Some(self.entries[k].value)
        } else {
            None
        }
    }

    /// The keys and entries, in the order in which they leave.
    pub open spec fn entry_list(self) -> Seq<(K, TimedEntry<V>)> {
        expiry_order::expiry_order(self.entries).map_values(|k: K| (k, self.entries[k]))
    }

    /// The keys and values that are live at `now`, in the order in which they leave.
    pub open spec fn live_list(self, now: Instant) -> Seq<(K, V)> {
        expiry_order::expiry_order(self.entries).filter(
            |k: K| !self.entries[k].expired(now),
        ).map_values(|k: K| (k, self.entries[k].value))
    }

    /// The state after `v` was written under `k`. If that displaces an expired value, it counts
    /// as an eviction and the callback hears of it.
    pub open spec fn put(
        self,
        k: K,
        v: V,
        expires_at: Option<Instant>,
        now: Instant,
    ) -> SortedView<K, V> {
        let stale = self.entries.contains_key(k) && self.entries[k].expired(now);
        SortedView {
            entries: self.entries.insert(k, TimedEntry { expires_at, value: v }),
            evictions: if stale {
                expiry::bump(self.evictions, 1)
            } else {
                self.evictions
            },
            heard: if stale && self.callback is Some {
                self.heard.push((k, self.entries[k].value))
            } else {
                self.heard
            },
            ..self
        }
    }

    /// The state after the bound was enforced that follows a write. Where there is a bound,
    /// expired entries are swept only when it is exceeded.
    pub open spec fn settle(self, evict: bool, now: Instant) -> SortedView<K, V> {
        match self.max_size {
            Some(max_size) => if self.entries.len() > max_size {
                self.drop_front(
                    self.surplus(
                        max_size,
                        if evict {
                            Some(now)
                        } else {
                            None
                        },
                    ),
                )
            } else {
                self
            },
            None => if evict {
                self.drop_front(expiry_order::past(self.entries, now).len())
            } else {
                self
            },
        }
    }

    /// The state after the bound was enforced that follows a write under `k`, which must stay.
    pub open spec fn settle_around(self, k: K) -> SortedView<K, V> {
        match self.max_size {
            Some(max_size) if self.entries.len() > max_size => self.drop_others(
                k,
                (self.entries.len() - max_size) as nat,
            ),
            _ => self,
        }
    }

    /// The deadline of an entry that is written at `now`, with the time to live of the cache
    /// unless it is given its own.
    pub open spec fn due(self, ttl: Option<Duration>, now: Instant) -> Option<Instant> {
        expiry::deadline(
            match ttl {
                Some(ttl) => ttl,
                None => self.ttl,
            },
            now,
        )
    }

    /// The value that a look-up of `k` finds, or `v` where it finds none.
    pub open spec fn live_or(self, k: K, v: V, now: Instant) -> V {
        match self.live(k, now) {
            Some(found) => found,
            None => v,
        }
    }

    /// The state after a look-up of `k` at `now` that, where it found no live value, went on to
    /// write `v` at `later`.
    pub open spec fn look_up_or_put(
        self,
        k: K,
        v: V,
        now: Instant,
        later: Instant,
    ) -> SortedView<K, V> {
        if self.live(k, now) is Some {
            self.hit()
        } else {
            self.miss().put(k, v, self.due(None, later), later).settle_around(k)
        }
    }

    /// How many entries leave when at most `count` may stay and, with a `cutoff`, those with
    /// earlier deadlines leave too.
    pub open spec fn surplus(self, count: usize, cutoff: Option<Instant>) -> nat {
        let over = if self.entries.len() > count {
            (self.entries.len() - count) as nat
        } else {
            0
        };
        let late = match cutoff {
            Some(t) => expiry_order::past(self.entries, t).len(),
            None => 0,
        };
        if over < late {
            late
        } else {
            over
        }
    }
}

impl<K: Ord, V: Clone> SortedView<K, V> {
    /// Whether `r` is what a look-up of `k` reports that clones the value, expired or not.
    pub open spec fn reads(self, k: K, now: Instant, r: (Option<V>, bool)) -> bool {
        if self.entries.contains_key(k) {
            &&& r.0 matches Some(v) && cloned(self.entries[k].value, v)
            &&& r.1 == self.entries[k].expired(now)
        } else {
            r == (None::<V>, false)
        }
    }
}

/// Dropping `n` entries from the front leaves the others: `n` fewer, each of which leaves after
/// each that was dropped.
pub proof fn law_drops_next_to_expire<K: Ord, V>(s: SortedView<K, V>, n: nat)
    requires
        expiry_index::ordered::<K>(),
        s.entries.dom().finite(),
        n <= s.entries.len(),
    ensures
        s.drop_front(n).entries.dom().finite(),
        s.drop_front(n).entries.len() == s.entries.len() - n,
        forall|a: K, b: K|
            s.entries.contains_key(a) && !s.drop_front(n).entries.contains_key(a)
                && #[trigger] s.drop_front(n).entries.contains_key(b) ==> #[trigger]
            expiry_order::leaves_first(s.entries, a, b),
        forall|k: K| #[trigger]
            s.drop_front(n).entries.contains_key(k) ==> s.entries.contains_key(k)
                && s.drop_front(n).entries[k] == s.entries[k],
{
    expiry_order::lemma_expiry_order(s.entries);
    let order = expiry_order::expiry_order(s.entries);
    let gone = order.take(n as int);
    expiry_order::lemma_remove_len(s.entries, gone);
    assert forall|a: K, b: K|
        s.entries.contains_key(a) && !s.drop_front(n).entries.contains_key(a)
            && #[trigger] s.drop_front(n).entries.contains_key(b) implies #[trigger]
    expiry_order::leaves_first(s.entries, a, b) by {
        assert(gone.contains(a));
        let i = choose|i: int| 0 <= i < gone.len() && gone[i] == a;
        assert(s.entries.contains_key(b));
        let j = choose|j: int| 0 <= j < order.len() && #[trigger] order[j] == b;
        assert(order[i] == a);
        if j < n {
            assert(gone[j] == b);
            assert(gone.contains(b));
        }
    }
}

/// An entry that never expires is dropped for the bound only when no entry with a deadline is
/// left.
pub proof fn law_never_expiring_leaves_last<K: Ord, V>(s: SortedView<K, V>, n: nat, k: K)
    requires
        expiry_index::ordered::<K>(),
        s.entries.dom().finite(),
        n <= s.entries.len(),
        s.entries.contains_key(k),
        s.entries[k].expires_at is None,
        !s.drop_front(n).entries.contains_key(k),
    ensures
        forall|b: K| #[trigger]
            s.drop_front(n).entries.contains_key(b) ==> s.entries[b].expires_at is None,
{
    law_drops_next_to_expire(s, n);
    assert forall|b: K| #[trigger] s.drop_front(n).entries.contains_key(b) implies s.entries[b]
        .expires_at is None by {
        assert(expiry_order::leaves_first(s.entries, k, b));
    }
}

/// A sweep removes exactly the entries whose deadline lies before the cutoff.
pub proof fn law_sweep_removes_the_past<K: Ord, V>(s: SortedView<K, V>, cutoff: Instant)
    requires
        expiry_index::ordered::<K>(),
        s.entries.dom().finite(),
    ensures
        s.drop_front(expiry_order::past(s.entries, cutoff).len()).entries == s.entries.remove_keys(
            expiry_order::past(s.entries, cutoff),
        ),
{
    let late = expiry_order::past(s.entries, cutoff);
    let n = late.len();
    assert(late.subset_of(s.entries.dom()));
    vstd::set_lib::lemma_len_subset(late, s.entries.dom());
    law_drops_next_to_expire(s, n);
    expiry_order::lemma_expiry_order(s.entries);
    let order = expiry_order::expiry_order(s.entries);
    let gone = order.take(n as int);
    gone.unique_seq_to_set();
    let dropped = gone.to_set();
    assert(dropped.subset_of(s.entries.dom()));
    vstd::set_lib::lemma_len_subset(dropped, s.entries.dom());
    if exists|k: K| late.contains(k) && !dropped.contains(k) {
        let k = choose|k: K| late.contains(k) && !dropped.contains(k);
        assert(s.drop_front(n).entries.contains_key(k));
        assert(dropped.subset_of(late)) by {
            assert forall|a: K| dropped.contains(a) implies late.contains(a) by {
                assert(s.entries.contains_key(a));
                assert(!s.drop_front(n).entries.contains_key(a));
                assert(expiry_order::leaves_first(s.entries, a, k));
            }
        }
        vstd::set_lib::lemma_len_subset(dropped.insert(k), late);
        assert(dropped.insert(k).subset_of(late));
    }
    assert(late.subset_of(dropped));
    vstd::set_lib::lemma_subset_equality(late, dropped);
}

/// After a write, however it is settled, the bound holds.
pub proof fn law_bound_holds_after_a_write<K: Ord, V>(
    s: SortedView<K, V>,
    k: K,
    v: V,
    expires_at: Option<Instant>,
    evict: bool,
    now: Instant,
)
    requires
        expiry_index::ordered::<K>(),
        s.entries.dom().finite(),
        s.max_size != Some(0usize),
    ensures
        s.max_size matches Some(m) ==> {
            &&& s.put(k, v, expires_at, now).settle(evict, now).entries.len() <= m
            &&& s.put(k, v, expires_at, now).settle_around(k).entries.len() <= m
        },
{
    let put = s.put(k, v, expires_at, now);
    if let Some(m) = s.max_size {
        if put.entries.len() > m {
            let cutoff = if evict {
                Some(now)
            } else {
                None
            };
            if let Some(t) = cutoff {
                let late = expiry_order::past(put.entries, t);
                assert(late.subset_of(put.entries.dom()));
                vstd::set_lib::lemma_len_subset(late, put.entries.dom());
            }
            law_drops_next_to_expire(put, put.surplus(m, cutoff));
            let others = put.entries.remove(k);
            assert(others.dom() =~= put.entries.dom().remove(k));
            expiry_order::lemma_expiry_order(others);
            let order = expiry_order::expiry_order(others);
            let gone = order.take(put.entries.len() - m);
            assert forall|i: int| 0 <= i < gone.len() implies put.entries.contains_key(
                #[trigger] gone[i],
            ) by {
                assert(others.contains_key(order[i]));
            }
            expiry_order::lemma_remove_len(put.entries, gone);
        }
    }
}

/// What is written under a key that was looked up in vain is read back until its deadline, and
/// not after it: no bound drops it.
pub proof fn law_read_after_fill<K: Ord, V>(
    s: SortedView<K, V>,
    k: K,
    v: V,
    now: Instant,
    later: Instant,
)
    requires
        expiry_index::ordered::<K>(),
        s.entries.dom().finite(),
        s.max_size != Some(0usize),
    ensures
        s.put(k, v, s.due(None, now), now).settle_around(k).live(k, later) == if expiry::expired(
            s.due(None, now),
            later,
        ) {
            None
        } else {
            Some(v)
        },
{
    let put = s.put(k, v, s.due(None, now), now);
    if let Some(m) = s.max_size {
        if put.entries.len() > m {
            let others = put.entries.remove(k);
            assert(others.dom() =~= put.entries.dom().remove(k));
            expiry_order::lemma_expiry_order(others);
            let order = expiry_order::expiry_order(others);
            let gone = order.take(put.entries.len() - m);
            if gone.contains(k) {
                let i = choose|i: int| 0 <= i < gone.len() && gone[i] == k;
                assert(others.contains_key(order[i]));
            }
        }
    }
}

/// What is written is read back until its deadline, and not after it, unless the bound makes it
/// leave at once. It does so only where every entry that stays leaves after it.
pub proof fn law_read_after_write<K: Ord, V>(
    s: SortedView<K, V>,
    k: K,
    v: V,
    ttl: Option<Duration>,
    now: Instant,
    later: Instant,
)
    requires
        expiry_index::ordered::<K>(),
        s.entries.dom().finite(),
    ensures
        ({
            let due = s.due(ttl, now);
            let put = s.put(k, v, due, now);
            let settled = put.settle(false, now);
            &&& expiry::expired(due, later) ==> settled.live(k, later) is None
            &&& !expiry::expired(due, later) && settled.entries.contains_key(k) ==> settled.live(
                k,
                later,
            ) == Some(v)
            &&& !settled.entries.contains_key(k) ==> s.max_size is Some && forall|b: K| #[trigger]
                settled.entries.contains_key(b) ==> expiry_order::leaves_first(put.entries, k, b)
            &&& s.max_size is None ==> settled.entries.contains_key(k)
        }),
{
    let put = s.put(k, v, s.due(ttl, now), now);
    if let Some(m) = s.max_size {
        if put.entries.len() > m {
            law_drops_next_to_expire(put, put.surplus(m, None));
        }
    }
}

/// A write under a key that is there drops no entry of another key, as long as the bound held.
pub proof fn law_overwriting_drops_nothing<K: Ord, V>(
    s: SortedView<K, V>,
    k: K,
    v: V,
    expires_at: Option<Instant>,
    now: Instant,
)
    requires
        s.entries.dom().finite(),
        s.entries.contains_key(k),
        s.max_size matches Some(m) ==> s.entries.len() <= m,
    ensures
        s.put(k, v, expires_at, now).settle(false, now) == s.put(k, v, expires_at, now),
{
    assert(s.put(k, v, expires_at, now).entries.dom() =~= s.entries.dom());
}

/// A look-up never returns an expired value, and one that finds an expired entry leaves none.
pub proof fn law_look_up_never_returns_expired<K: Ord, V>(s: SortedView<K, V>, k: K, now: Instant)
    ensures
        s.live(k, now) is Some ==> s.entries.contains_key(k) && !s.entries[k].expired(now),
        s.live(k, now) is None ==> !s.look_up(k, now).entries.contains_key(k),
        forall|q: K|
            q != k ==> (#[trigger] s.look_up(k, now).entries.contains_key(q)
                <==> s.entries.contains_key(q)),
{
    expiry_order::lemma_single(k);
}

/// While a callback listens, each counted eviction is heard once, and nothing else is.
pub proof fn law_evictions_are_heard<K: Ord, V>(
    s: SortedView<K, V>,
    gone: Seq<K>,
    k: K,
    v: V,
    expires_at: Option<Instant>,
    now: Instant,
)
    requires
        s.callback is Some,
    ensures
        ({
            let t = s.drop_keys(gone);
            t.evictions == expiry::bump(s.evictions, t.heard.len() - s.heard.len())
        }),
        ({
            let t = s.put(k, v, expires_at, now);
            t.evictions == expiry::bump(s.evictions, t.heard.len() - s.heard.len())
        }),
        ({
            let t = s.look_up(k, now);
            t.evictions == expiry::bump(s.evictions, t.heard.len() - s.heard.len())
        }),
{
    assert(s.evictions == expiry::bump(s.evictions, 0)) by {
        vstd::arithmetic::div_mod::lemma_small_mod(
            s.evictions as nat,
            0x1_0000_0000_0000_0000,
        );
    }
}

/// No operation changes the clock that deadlines are judged by, or the callback.
pub proof fn law_clock_and_callback_stay<K: Ord, V>(
    s: SortedView<K, V>,
    k: K,
    v: V,
    expires_at: Option<Instant>,
    evict: bool,
    now: Instant,
    gone: Seq<K>,
)
    ensures
        s.look_up(k, now).has_clock_and_callback_of(s),
        s.put(k, v, expires_at, now).has_clock_and_callback_of(s),
        s.settle(evict, now).has_clock_and_callback_of(s),
        s.settle_around(k).has_clock_and_callback_of(s),
        s.with_value(k, v).has_clock_and_callback_of(s),
        s.drop_keys(gone).has_clock_and_callback_of(s),
{
}

} // verus!
