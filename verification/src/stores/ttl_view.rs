//! The states of a cache whose entries expire, and how they follow each other.
use crate::stores::expiry::{self, TimedEntry};
use crate::stores::expiry_order;
use crate::stores::listener::OnEvict;
use crate::stores::sweep;
use crate::time::{Clock, Duration, Instant};
use vstd::prelude::*;

verus! {

/// The deadline of an entry that a hit renews at `now`. While entries do not expire, it keeps the
/// deadline that it has.
pub open spec fn renewed(ttl: Duration, now: Instant, current: Option<Instant>) -> Option<Instant> {
    if ttl.nanos == 0 {
        current
    } else {
        now.after(ttl)
    }
}

/// The state of a [`TtlCache`](crate::stores::ttl::TtlCache).
#[verifier::ext_equal]
#[verifier::reject_recursive_types(K)]
#[verifier::reject_recursive_types(V)]
pub struct TtlView<K, V> {
    pub clock: Clock,
    pub entries: Map<K, TimedEntry<V>>,
    pub ttl: Duration,
    pub refresh: bool,
    pub initial_capacity: Option<usize>,
    pub hits: u64,
    pub misses: u64,
    pub evictions: u64,
    pub callback: Option<OnEvict<K, V>>,
    pub heard: Seq<(K, V)>,
}

impl<K, V> TtlView<K, V> {
    /// Whether the clock and the callback are those of `other`.
    pub open spec fn has_clock_and_callback_of(self, other: TtlView<K, V>) -> bool {
        self.clock == other.clock && self.callback == other.callback
    }

    /// The value under `k`, unless there is none or it has expired at `now`.
    pub open spec fn live(self, k: K, now: Instant) -> Option<V> {
        if self.entries.contains_key(k) && !self.entries[k].expired(now) {
            Some(self.entries[k].value)
        } else {
            None
        }
    }

    /// The values that are live at `now`.
    pub open spec fn live_values(self, now: Instant) -> Map<K, V> {
        Map::new(|k: K| self.live(k, now) is Some, |k: K| self.entries[k].value)
    }

    /// The value that a look-up of `k` finds, or `v` where it finds none.
    pub open spec fn live_or(self, k: K, v: V, now: Instant) -> V {
        match self.live(k, now) {
            Some(found) => found,
            None => v,
        }
    }

    /// The state after a hit of `k`: where hits renew entries, it has a new deadline.
    pub open spec fn hit(self, k: K, now: Instant) -> TtlView<K, V> {
        TtlView {
            hits: expiry::bump(self.hits, 1),
            entries: if self.refresh {
                self.entries.insert(
                    k,
                    TimedEntry {
                        expires_at: renewed(self.ttl, now, self.entries[k].expires_at),
                        value: self.entries[k].value,
                    },
                )
            } else {
                self.entries
            },
            ..self
        }
    }

    /// The state after a miss.
    pub open spec fn miss(self) -> TtlView<K, V> {
        TtlView { misses: expiry::bump(self.misses, 1), ..self }
    }

    /// The state after the entries of `gone` have left: each counts as an eviction, and the
    /// callback hears of them in this order.
    pub open spec fn drop_keys(self, gone: Seq<K>) -> TtlView<K, V> {
        TtlView {
            entries: self.entries.remove_keys(gone.to_set()),
            evictions: expiry::bump(self.evictions, gone.len() as int),
            heard: if self.callback is Some {
                self.heard + gone.map_values(|k: K| (k, self.entries[k].value))
            } else {
                self.heard
            },
            ..self
        }
    }

    /// The state after the entry of `k` has left.
    pub open spec fn discard(self, k: K) -> TtlView<K, V> {
        self.drop_keys(seq![k])
    }

    /// The state after a look-up of `k`: a live entry is a hit, anything else a miss, and an
    /// expired entry leaves.
    pub open spec fn look_up(self, k: K, now: Instant) -> TtlView<K, V> {
        if !self.entries.contains_key(k) {
            self.miss()
        } else if self.entries[k].expired(now) {
            self.miss().discard(k)
        } else {
            self.hit(k, now)
        }
    }

    /// The state after a look-up of `k` by which no entry leaves.
    pub open spec fn probe(self, k: K, now: Instant) -> TtlView<K, V> {
        if self.live(k, now) is Some {
            self.hit(k, now)
        } else {
            self.miss()
        }
    }

    /// The state after `entry` was stored under `k`; with `evicts`, what it displaces counts as an
    /// eviction and the callback hears of it.
    pub open spec fn store(self, k: K, entry: TimedEntry<V>, evicts: bool) -> TtlView<K, V> {
        TtlView {
            entries: self.entries.insert(k, entry),
            evictions: if evicts {
                expiry::bump(self.evictions, 1)
            } else {
                self.evictions
            },
            heard: if evicts && self.callback is Some {
                self.heard.push((k, self.entries[k].value))
            } else {
                self.heard
            },
            ..self
        }
    }

    /// The state after `v` was written under `k` at `now`; with `evicts`, what it displaces counts
    /// as an eviction and the callback hears of it.
    pub open spec fn write(self, k: K, v: V, now: Instant, evicts: bool) -> TtlView<K, V> {
        self.store(
            k,
            TimedEntry { expires_at: expiry::deadline(self.ttl, now), value: v },
            evicts,
        )
    }

    /// The state after `v` was written under `k` at `now`. A displaced value that had expired
    /// counts as an eviction.
    pub open spec fn put(self, k: K, v: V, now: Instant) -> TtlView<K, V> {
        self.write(k, v, now, self.entries.contains_key(k) && self.entries[k].expired(now))
    }

    /// The state after `v` was written under `k` at `now`, where a look-up had found no live
    /// value. A displaced value counts as an eviction.
    pub open spec fn fill(self, k: K, v: V, now: Instant) -> TtlView<K, V> {
        self.write(k, v, now, self.entries.contains_key(k))
    }

    /// The state after a look-up of `k` at `now` that, where it found no live value, went on to
    /// write `v` at `later`.
    pub open spec fn look_up_or_put(
        self,
        k: K,
        v: V,
        now: Instant,
        later: Instant,
    ) -> TtlView<K, V> {
        if self.live(k, now) is Some {
            self.hit(k, now)
        } else {
            self.miss().fill(k, v, later)
        }
    }

    /// The state after the value under `k` was overwritten in place.
    pub open spec fn with_value(self, k: K, v: V) -> TtlView<K, V> {
        TtlView {
            entries: self.entries.insert(
                k,
                TimedEntry { expires_at: self.entries[k].expires_at, value: v },
            ),
            ..self
        }
    }

    /// Whether `gone` lists the keys of all entries, each once.
    pub open spec fn lists_all(self, gone: Seq<K>) -> bool {
        &&& gone.no_duplicates()
        &&& forall|k: K| #[trigger] gone.contains(k) <==> self.entries.contains_key(k)
    }
}

impl<K, V: Clone> TtlView<K, V> {
    /// Whether `r` is what a look-up of `k` reports that clones the value, expired or not.
    pub open spec fn reads(self, k: K, now: Instant, r: (Option<V>, bool)) -> bool {
        if self.entries.contains_key(k) {
            &&& r.0 matches Some(v) && cloned(self.entries[k].value, v)
            &&& r.1 == self.entries[k].expired(now)
        } else {
            r == (None::<V>, false)
        }
    }
}

/// Removing distinct keys makes a cache that much smaller.
pub proof fn lemma_drop_len<K, V>(s: TtlView<K, V>, gone: Seq<K>)
    requires
        s.entries.dom().finite(),
        gone.no_duplicates(),
        forall|i: int| 0 <= i < gone.len() ==> s.entries.contains_key(#[trigger] gone[i]),
    ensures
        s.drop_keys(gone).entries.len() + gone.len() == s.entries.len(),
{
    expiry_order::lemma_remove_len(s.entries, gone);
}

/// What is written is read back until its deadline, and not after it; entries under other keys
/// stay as they are.
pub proof fn law_read_after_write<K, V>(
    s: TtlView<K, V>,
    k: K,
    v: V,
    now: Instant,
    later: Instant,
    other: K,
)
    ensures
        s.put(k, v, now).live(k, later) == if expiry::expired(
            expiry::deadline(s.ttl, now),
            later,
        ) {
            None
        } else {
            Some(v)
        },
        s.fill(k, v, now).live(k, later) == s.put(k, v, now).live(k, later),
        other != k ==> s.put(k, v, now).live(other, later) == s.live(other, later),
        other != k ==> s.fill(k, v, now).live(other, later) == s.live(other, later),
{
}

/// A look-up never returns an expired value, one that finds an expired entry leaves none, and it
/// does not touch the entries of other keys.
pub proof fn law_look_up_never_returns_expired<K, V>(
    s: TtlView<K, V>,
    k: K,
    now: Instant,
    other: K,
)
    ensures
        s.live(k, now) is Some ==> s.entries.contains_key(k) && !s.entries[k].expired(now),
        s.live(k, now) is None ==> !s.look_up(k, now).entries.contains_key(k),
        other != k ==> (s.look_up(k, now).entries.contains_key(other) <==> s.entries.contains_key(
            other,
        )),
        other != k && s.entries.contains_key(other) ==> s.look_up(k, now).entries[other]
            == s.entries[other],
{
    expiry_order::lemma_single(k);
}

/// Where hits renew entries, a hit moves the deadline to one time to live from now; where they do
/// not, or while entries do not expire, it leaves the deadline alone. It never changes the value.
pub proof fn law_hit_renews<K, V>(s: TtlView<K, V>, k: K, now: Instant)
    requires
        s.entries.contains_key(k),
    ensures
        s.hit(k, now).entries[k].value == s.entries[k].value,
        s.refresh && s.ttl.nanos != 0 ==> s.hit(k, now).entries[k].expires_at == expiry::deadline(
            s.ttl,
            now,
        ),
        !s.refresh || s.ttl.nanos == 0 ==> s.hit(k, now).entries == s.entries,
{
    assert(!s.refresh || s.ttl.nanos == 0 ==> s.hit(k, now).entries =~= s.entries);
}

/// A look-up that finds an expired entry, or none, and fails to make a value leaves the entries
/// as they were; a second one finds the same.
pub proof fn law_failed_fill_changes_no_entry<K, V>(s: TtlView<K, V>, k: K, now: Instant)
    ensures
        s.miss().entries == s.entries,
        s.miss().evictions == s.evictions,
        s.miss().heard == s.heard,
        s.miss().live(k, now) == s.live(k, now),
{
}

/// A sweep removes exactly the expired entries.
pub proof fn law_sweep_removes_the_expired<K, V>(s: TtlView<K, V>, now: Instant, gone: Seq<K>)
    requires
        sweep::sweeps(s.entries, now, gone),
    ensures
        forall|k: K| #[trigger]
            s.drop_keys(gone).entries.contains_key(k) <==> s.live(k, now) is Some,
        forall|k: K| #[trigger]
            s.drop_keys(gone).entries.contains_key(k) ==> s.drop_keys(gone).entries[k]
                == s.entries[k],
        sweep::sweeps(s.drop_keys(gone).entries, now, Seq::empty()),
{
    let t = s.drop_keys(gone);
    assert forall|k: K| #[trigger] t.entries.contains_key(k) <==> s.live(k, now) is Some by {
        if s.entries.contains_key(k) {
            assert(s.entries[k].expired(now) <==> gone.contains(k));
        }
    }
}

/// What is retained is live and was not rejected; what is not retained had expired or was
/// rejected.
pub proof fn law_retain_keeps_what_is_live_and_wanted<K, V, F: FnMut(&K, &V) -> bool>(
    s: TtlView<K, V>,
    keep: F,
    now: Instant,
    gone: Seq<K>,
    k: K,
)
    requires
        sweep::retains(s.entries, keep, now, gone),
        s.entries.contains_key(k),
    ensures
        s.drop_keys(gone).entries.contains_key(k) ==> s.live(k, now) is Some && keep.ensures(
            (&k, &s.entries[k].value),
            true,
        ),
        !s.drop_keys(gone).entries.contains_key(k) ==> s.entries[k].expired(now) || keep.ensures(
            (&k, &s.entries[k].value),
            false,
        ),
{
}

/// While a callback listens, each counted eviction is heard once, and nothing else is.
pub proof fn law_evictions_are_heard<K, V>(
    s: TtlView<K, V>,
    gone: Seq<K>,
    k: K,
    v: V,
    now: Instant,
)
    requires
        s.callback is Some,
    ensures
        ({
            let t = s.drop_keys(gone);
            t.evictions == expiry::bump(s.evictions, t.heard.len() - s.heard.len())
        }),
        ({
            let t = s.put(k, v, now);
            t.evictions == expiry::bump(s.evictions, t.heard.len() - s.heard.len())
        }),
        ({
            let t = s.fill(k, v, now);
            t.evictions == expiry::bump(s.evictions, t.heard.len() - s.heard.len())
        }),
        ({
            let t = s.look_up(k, now);
            t.evictions == expiry::bump(s.evictions, t.heard.len() - s.heard.len())
        }),
{
    assert(s.evictions == expiry::bump(s.evictions, 0)) by {
        vstd::arithmetic::div_mod::lemma_small_mod(
            s.evictions as nat,
            0x1_0000_0000_0000_0000,
        );
    }
}

/// No operation changes the clock that deadlines are judged by, or the callback.
pub proof fn law_clock_and_callback_stay<K, V>(
    s: TtlView<K, V>,
    k: K,
    v: V,
    entry: TimedEntry<V>,
    evicts: bool,
    now: Instant,
    gone: Seq<K>,
)
    ensures
        s.look_up(k, now).has_clock_and_callback_of(s),
        s.probe(k, now).has_clock_and_callback_of(s),
        s.put(k, v, now).has_clock_and_callback_of(s),
        s.fill(k, v, now).has_clock_and_callback_of(s),
        s.store(k, entry, evicts).has_clock_and_callback_of(s),
        s.with_value(k, v).has_clock_and_callback_of(s),
        s.drop_keys(gone).has_clock_and_callback_of(s),
{
}

} // verus!
