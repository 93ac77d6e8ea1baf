//! What the operations of a [`TtlCache`](crate::stores::ttl::TtlCache) do, entry by entry and
//! counter by counter.
use crate::stores::expiry::{self, Listed, TimedEntry};
use crate::stores::sweep;
use crate::stores::ttl::{self, TtlCache, TtlCacheBuilder};
use crate::stores::ttl_view::TtlView;
use crate::time::{Clock, Duration, Instant, LAST_INSTANT_NANOS};
use crate::traits::{CacheClearWithOnEvict, CacheEvict, CacheExpiry};
use std::hash::{BuildHasher, Hash};
use vstd::prelude::*;

verus! {

/// Whether an entry is stored under `k` whose deadline, if it has one, lies after `now`.
pub open spec fn holds<K, V>(entries: Map<K, TimedEntry<V>>, k: K, now: Instant) -> bool {
    entries.contains_key(k) && (entries[k].expires_at matches Some(t) ==> now.nanos < t.nanos)
}

/// Whether `at` is one time to live after `now`: never, if there is none or it leads past the last
/// instant.
pub open spec fn one_ttl_after(ttl: Duration, now: Instant, at: Option<Instant>) -> bool {
    match at {
        Some(t) => ttl.nanos > 0 && t.nanos == now.nanos + ttl.nanos && t.nanos
            <= LAST_INSTANT_NANOS,
        None => ttl.nanos == 0 || now.nanos + ttl.nanos > LAST_INSTANT_NANOS,
    }
}

/// Whether the counter `b` is one above `a`, where the greatest number is followed by zero.
pub open spec fn one_above(a: u64, b: u64) -> bool {
    if a < u64::MAX {
        b == a + 1
    } else {
        b == 0
    }
}

/// Whether `b` has the entries of `a` but for the one under `k`, if there is one.
pub open spec fn same_but_for<K, V>(
    a: Map<K, TimedEntry<V>>,
    b: Map<K, TimedEntry<V>>,
    k: K,
) -> bool {
    forall|q: K|
        q != k ==> #[trigger] b.contains_key(q) == a.contains_key(q) && (a.contains_key(q) ==> b[q]
            == a[q])
}

/// Whether `t` has the settings, the clock and the callback of `s`.
pub open spec fn same_settings<K, V>(s: TtlView<K, V>, t: TtlView<K, V>) -> bool {
    &&& t.clock == s.clock
    &&& t.ttl == s.ttl
    &&& t.refresh == s.refresh
    &&& t.initial_capacity == s.initial_capacity
    &&& t.callback == s.callback
}

/// Whether in `t` one eviction more than in `s` was counted, and told to the callback if there is
/// one: that of `v` under `k`.
pub open spec fn one_evicted<K, V>(s: TtlView<K, V>, t: TtlView<K, V>, k: K, v: V) -> bool {
    &&& one_above(s.evictions, t.evictions)
    &&& t.heard.len() == s.heard.len() + if s.callback is Some {
        1int
    } else {
        0int
    }
    &&& forall|i: int| 0 <= i < s.heard.len() ==> #[trigger] t.heard[i] == s.heard[i]
    &&& s.callback is Some ==> t.heard[s.heard.len() as int] == (k, v)
}

/// Whether in `t` no eviction was counted or told that was not in `s`.
pub open spec fn none_evicted<K, V>(s: TtlView<K, V>, t: TtlView<K, V>) -> bool {
    t.evictions == s.evictions && t.heard == s.heard
}

/// Whether `t` follows from `s` by a hit of `k` at `now`: its value stays, and its deadline moves
/// to one time to live after `now` where hits renew entries and there is a time to live.
pub open spec fn follows_hit<K, V>(
    s: TtlView<K, V>,
    t: TtlView<K, V>,
    k: K,
    now: Instant,
) -> bool {
    &&& same_settings(s, t)
    &&& none_evicted(s, t)
    &&& one_above(s.hits, t.hits) && t.misses == s.misses
    &&& same_but_for(s.entries, t.entries, k)
    &&& t.entries.contains_key(k) && t.entries[k].value == s.entries[k].value
    &&& if s.refresh && s.ttl.nanos > 0 {
        one_ttl_after(s.ttl, now, t.entries[k].expires_at)
    } else {
        t.entries[k].expires_at == s.entries[k].expires_at
    }
}

/// Whether `t` follows from `s` by a miss that changes no entry.
pub open spec fn follows_miss<K, V>(s: TtlView<K, V>, t: TtlView<K, V>) -> bool {
    &&& same_settings(s, t)
    &&& none_evicted(s, t)
    &&& one_above(s.misses, t.misses) && t.hits == s.hits
    &&& t.entries == s.entries
}

/// What a look-up finds is the value of an entry that is stored and has not reached its deadline.
pub proof fn law_live_means_stored_and_not_due<K, V>(s: TtlView<K, V>, k: K, v: V, now: Instant)
    ensures
        s.live(k, now) == if holds(s.entries, k, now) {
            Some(s.entries[k].value)
        } else {
            None
        },
        s.live_or(k, v, now) == if holds(s.entries, k, now) {
            s.entries[k].value
        } else {
            v
        },
{
}

/// The live values are those of the entries that are stored and have not reached their deadlines,
/// and no others.
pub proof fn law_live_values_are_not_due<K, V>(s: TtlView<K, V>, now: Instant)
    ensures
        forall|k: K| #[trigger] s.live_values(now).contains_key(k) <==> holds(s.entries, k, now),
        forall|k: K| #[trigger]
            s.live_values(now).contains_key(k) ==> s.live_values(now)[k] == s.entries[k].value,
{
}

/// A look-up of an entry that is not due is a hit. One of an entry that is due is a miss, evicts it
/// and tells of it. Any other is a miss that changes no entry. Other entries stay as they are.
pub proof fn law_look_up_hits_evicts_or_misses<K, V>(s: TtlView<K, V>, k: K, now: Instant)
    ensures
        holds(s.entries, k, now) ==> follows_hit(s, s.look_up(k, now), k, now),
        !s.entries.contains_key(k) ==> follows_miss(s, s.look_up(k, now)),
        s.entries.contains_key(k) && !holds(s.entries, k, now) ==> {
            let t = s.look_up(k, now);
            &&& same_settings(s, t)
            &&& one_above(s.misses, t.misses) && t.hits == s.hits
            &&& same_but_for(s.entries, t.entries, k) && !t.entries.contains_key(k)
            &&& one_evicted(s, t, k, s.entries[k].value)
        },
{
    crate::stores::expiry_order::lemma_single(k);
    assert(seq![k][0] == k);
    if s.entries.contains_key(k) && !holds(s.entries, k, now) {
        let t = s.look_up(k, now);
        assert(seq![k].map_values(|q: K| (q, s.entries[q].value))[0] == (k, s.entries[k].value));
    }
}

/// A look-up that evicts nothing is a hit if the entry is not due, and a miss if it is, or if there
/// is none.
pub proof fn law_probe_hits_or_misses<K, V>(s: TtlView<K, V>, k: K, now: Instant)
    ensures
        holds(s.entries, k, now) ==> follows_hit(s, s.probe(k, now), k, now),
        !holds(s.entries, k, now) ==> follows_miss(s, s.probe(k, now)),
{
}

/// Whether `t` follows from `s` by storing `v` under `k` with a deadline one time to live after
/// `now`, where what was stored there counts as evicted if `evicts` says so.
pub open spec fn follows_write<K, V>(
    s: TtlView<K, V>,
    t: TtlView<K, V>,
    k: K,
    v: V,
    now: Instant,
    evicts: bool,
) -> bool {
    &&& same_settings(s, t)
    &&& same_but_for(s.entries, t.entries, k)
    &&& t.entries.contains_key(k) && t.entries[k].value == v
    &&& one_ttl_after(s.ttl, now, t.entries[k].expires_at)
    &&& if evicts {
        one_evicted(s, t, k, s.entries[k].value)
    } else {
        none_evicted(s, t)
    }
}

/// A write stores the value with a deadline one time to live from now, and is neither a hit nor a
/// miss. It evicts what it displaces if that was due. Other entries stay as they are.
pub proof fn law_write_stores_for_one_ttl<K, V>(s: TtlView<K, V>, k: K, v: V, now: Instant)
    ensures
        follows_write(
            s,
            s.put(k, v, now),
            k,
            v,
            now,
            s.entries.contains_key(k) && !holds(s.entries, k, now),
        ),
        s.put(k, v, now).hits == s.hits && s.put(k, v, now).misses == s.misses,
        follows_write(s, s.fill(k, v, now), k, v, now, s.entries.contains_key(k)),
        s.fill(k, v, now).hits == s.hits && s.fill(k, v, now).misses == s.misses,
{
}

/// An entry that is stored as it is has the given value and deadline; what it displaces counts as
/// evicted if asked for. Other entries and the hits and misses stay as they are.
pub proof fn law_store_keeps_the_entry<K, V>(
    s: TtlView<K, V>,
    k: K,
    entry: TimedEntry<V>,
    evicts: bool,
)
    ensures
        ({
            let t = s.store(k, entry, evicts);
            &&& same_settings(s, t)
            &&& t.hits == s.hits && t.misses == s.misses
            &&& same_but_for(s.entries, t.entries, k)
            &&& t.entries.contains_key(k) && t.entries[k] == entry
            &&& if evicts {
                one_evicted(s, t, k, s.entries[k].value)
            } else {
                none_evicted(s, t)
            }
        }),
{
}

/// A look-up that goes on to fill is a hit if the entry is not due: with its deadline renewed where
/// that is asked for, and with the value that was there. Else it is a miss, and the made value is
/// stored with a deadline one time to live after it was made; what was due is evicted.
pub proof fn law_get_or_set_hits_or_fills<K, V>(
    s: TtlView<K, V>,
    k: K,
    v: V,
    now: Instant,
    later: Instant,
)
    ensures
        holds(s.entries, k, now) ==> follows_hit(s, s.look_up_or_put(k, v, now, later), k, now),
        !holds(s.entries, k, now) ==> {
            let t = s.look_up_or_put(k, v, now, later);
            &&& follows_write(s, t, k, v, later, s.entries.contains_key(k))
            &&& one_above(s.misses, t.misses) && t.hits == s.hits
        },
{
}

/// A value that is changed in place changes no deadline, no other entry and no counter.
pub proof fn law_change_in_place<K, V>(s: TtlView<K, V>, k: K, v: V)
    requires
        s.entries.contains_key(k),
    ensures
        ({
            let t = s.with_value(k, v);
            &&& same_settings(s, t)
            &&& none_evicted(s, t)
            &&& t.hits == s.hits && t.misses == s.misses
            &&& same_but_for(s.entries, t.entries, k)
            &&& t.entries.contains_key(k) && t.entries[k].value == v
            &&& t.entries[k].expires_at == s.entries[k].expires_at
        }),
{
}

/// Keys that leave take their entries and no others. Each counts as evicted, and with a callback
/// each is told of with its value, in the order in which they leave. Hits and misses stay.
pub proof fn law_leaving_is_counted_and_told<K, V>(s: TtlView<K, V>, gone: Seq<K>)
    ensures
        ({
            let t = s.drop_keys(gone);
            &&& same_settings(s, t)
            &&& t.hits == s.hits && t.misses == s.misses
            &&& forall|k: K| #[trigger]
                t.entries.contains_key(k) <==> s.entries.contains_key(k) && !gone.contains(k)
            &&& forall|k: K| #[trigger] t.entries.contains_key(k) ==> t.entries[k] == s.entries[k]
            &&& s.evictions + gone.len() <= u64::MAX ==> t.evictions == s.evictions + gone.len()
            &&& s.callback is None ==> t.heard == s.heard
            &&& s.callback is Some ==> {
                &&& t.heard.len() == s.heard.len() + gone.len()
                &&& forall|i: int| 0 <= i < s.heard.len() ==> #[trigger] t.heard[i] == s.heard[i]
                &&& forall|i: int|
                    0 <= i < gone.len() ==> t.heard[s.heard.len() + i] == (
                        #[trigger] gone[i],
                        s.entries[gone[i]].value,
                    )
            }
        }),
{
    let t = s.drop_keys(gone);
    if s.evictions + gone.len() <= u64::MAX {
        vstd::arithmetic::div_mod::lemma_small_mod(
            (s.evictions + gone.len()) as nat,
            0x1_0000_0000_0000_0000,
        );
    }
}

/// The entry that is removed is the one of its key. It counts as evicted and is told of.
pub proof fn law_removal_takes_one_entry<K, V>(s: TtlView<K, V>, k: K)
    requires
        s.entries.contains_key(k),
    ensures
        ({
            let t = s.discard(k);
            &&& same_settings(s, t)
            &&& t.hits == s.hits && t.misses == s.misses
            &&& same_but_for(s.entries, t.entries, k) && !t.entries.contains_key(k)
            &&& one_evicted(s, t, k, s.entries[k].value)
        }),
{
    crate::stores::expiry_order::lemma_single(k);
    assert(seq![k][0] == k);
    assert(seq![k].map_values(|q: K| (q, s.entries[q].value))[0] == (k, s.entries[k].value));
}

/// A list of all entries leaves none when they leave, and is as long as there are entries.
pub proof fn law_all_entries_leave<K, V>(s: TtlView<K, V>, gone: Seq<K>)
    requires
        s.lists_all(gone),
        s.entries.dom().finite(),
    ensures
        forall|k: K| !#[trigger] s.drop_keys(gone).entries.contains_key(k),
        gone.len() == s.entries.len(),
{
    gone.unique_seq_to_set();
    assert(gone.to_set() =~= s.entries.dom());
}

/// What a sweep lists are the keys whose deadline has come, each once: when they leave, the entries
/// without a deadline and those whose deadline lies ahead stay as they are, and no others.
pub proof fn law_sweep_lists_what_is_due<K, V>(s: TtlView<K, V>, now: Instant, gone: Seq<K>)
    requires
        sweep::sweeps(s.entries, now, gone),
    ensures
        gone.no_duplicates(),
        forall|k: K| #[trigger]
            gone.contains(k) <==> s.entries.contains_key(k) && !holds(s.entries, k, now),
        forall|k: K| #[trigger]
            s.drop_keys(gone).entries.contains_key(k) <==> holds(s.entries, k, now),
{
    assert forall|k: K| #[trigger] gone.contains(k) <==> s.entries.contains_key(k) && !holds(
        s.entries,
        k,
        now,
    ) by {
        if gone.contains(k) {
            let i = choose|i: int| 0 <= i < gone.len() && gone[i] == k;
            assert(s.entries.contains_key(gone[i]));
        }
    }
}

/// What is retained was not due and was accepted. What leaves was due, or was not and was rejected;
/// nothing leaves that was not there.
pub proof fn law_retain_lists_the_due_and_the_rejected<K, V, F: FnMut(&K, &V) -> bool>(
    s: TtlView<K, V>,
    keep: F,
    now: Instant,
    gone: Seq<K>,
)
    requires
        sweep::retains(s.entries, keep, now, gone),
    ensures
        gone.no_duplicates(),
        forall|k: K| #[trigger] gone.contains(k) ==> s.entries.contains_key(k),
        forall|k: K|
            s.entries.contains_key(k) && !holds(s.entries, k, now) ==> #[trigger] gone.contains(k),
        forall|k: K|
            holds(s.entries, k, now) && #[trigger] gone.contains(k) ==> keep.ensures(
                (&k, &s.entries[k].value),
                false,
            ),
        forall|k: K|
            holds(s.entries, k, now) && !#[trigger] gone.contains(k) ==> keep.ensures(
                (&k, &s.entries[k].value),
                true,
            ),
{
    assert forall|k: K| #[trigger] gone.contains(k) implies s.entries.contains_key(k) by {
        let i = choose|i: int| 0 <= i < gone.len() && gone[i] == k;
        assert(s.entries.contains_key(gone[i]));
    }
    assert forall|k: K| s.entries.contains_key(k) && !holds(s.entries, k, now) implies
    #[trigger] gone.contains(k) by {
        assert(s.entries.contains_key(k));
    }
    assert forall|k: K| holds(s.entries, k, now) && #[trigger] gone.contains(k) implies
    keep.ensures((&k, &s.entries[k].value), false) by {
        assert(s.entries.contains_key(k));
    }
    assert forall|k: K| holds(s.entries, k, now) && !#[trigger] gone.contains(k) implies
    keep.ensures((&k, &s.entries[k].value), true) by {
        assert(s.entries.contains_key(k));
    }
}

/// A status report of a stored entry has a clone of its value, and says that it has expired exactly
/// if its deadline has come. Of a key without an entry it has no value, and says that nothing has
/// expired.
pub proof fn law_status_tells_value_and_due<K, V: Clone>(
    s: TtlView<K, V>,
    k: K,
    now: Instant,
    r: (Option<V>, bool),
)
    ensures
        s.reads(k, now, r) <==> match r.0 {
            Some(v) => s.entries.contains_key(k) && cloned(s.entries[k].value, v) && r.1 == !holds(
                s.entries,
                k,
                now,
            ),
            None => !s.entries.contains_key(k) && !r.1,
        },
{
}

/// A deadline is one time to live after the write, and has come at its instant and ever after;
/// where there is none, it never comes. A time to live is reported as it is, and not at all if it
/// is zero.
pub proof fn law_deadlines(ttl: Duration, now: Instant, at: Option<Instant>, later: Instant)
    ensures
        one_ttl_after(ttl, now, expiry::deadline(ttl, now)),
        expiry::expired(at, later) <==> at is Some && at->0.nanos <= later.nanos,
        ttl.nanos == 0 ==> expiry::reported(ttl) is None,
        ttl.nanos > 0 ==> expiry::reported(ttl) == Some(ttl),
{
}

/// A counter goes up by as many as there were events, and wraps around.
pub proof fn law_counters_count(count: u64, n: int)
    requires
        0 <= n,
    ensures
        count + n <= u64::MAX ==> expiry::bump(count, n) == count + n,
        one_above(count, expiry::bump(count, 1)),
{
    if count + n <= u64::MAX {
        vstd::arithmetic::div_mod::lemma_small_mod((count + n) as nat, 0x1_0000_0000_0000_0000);
    }
}

/// A copy of entries has the same keys, and under each a clone of the value and the same deadline.
pub proof fn law_copies_keep_keys_and_deadlines<K, V: Clone>(
    a: Map<K, TimedEntry<V>>,
    b: Map<K, TimedEntry<V>>,
    k: K,
)
    requires
        expiry::copies(a, b),
    ensures
        b.contains_key(k) == a.contains_key(k),
        a.contains_key(k) ==> b[k].expires_at == a[k].expires_at && cloned(a[k].value, b[k].value),
{
    assert(b.dom().contains(k) == a.dom().contains(k));
}

/// A list of entries has a place for each that is listed, with its key, value and deadline; a list
/// of pairs has one for each pair.
pub proof fn law_lists_keep_their_places<K, V>(
    list: Seq<Listed<'_, K, V>>,
    pairs: Seq<(&K, &V)>,
    i: int,
)
    ensures
        expiry::listed(list).len() == list.len(),
        0 <= i < list.len() ==> {
            &&& expiry::listed(list)[i].0 == *list[i].key
            &&& expiry::listed(list)[i].1.value == *list[i].value
            &&& expiry::listed(list)[i].1.expires_at == list[i].expires_at
        },
        ttl::pairs(pairs).len() == pairs.len(),
        0 <= i < pairs.len() ==> ttl::pairs(pairs)[i].0 == *pairs[i].0 && ttl::pairs(pairs)[i].1
            == *pairs[i].1,
{
}

/// What was written is found until one time to live is over, and not after it. What was removed is
/// not found, and what was cleared is not either.
pub proof fn law_found_until_due_or_removed<K, V>(
    s: TtlView<K, V>,
    k: K,
    v: V,
    now: Instant,
    later: Instant,
    gone: Seq<K>,
)
    ensures
        s.ttl.nanos > 0 && now.nanos + s.ttl.nanos <= LAST_INSTANT_NANOS ==> s.put(k, v, now).live(
            k,
            later,
        ) == if later.nanos < now.nanos + s.ttl.nanos {
            Some(v)
        } else {
            None
        },
        s.ttl.nanos == 0 ==> s.put(k, v, now).live(k, later) == Some(v),
        s.discard(k).live(k, later) is None,
        s.lists_all(gone) ==> s.drop_keys(gone).live(k, later) is None,
{
    crate::stores::expiry_order::lemma_single(k);
}

/// What is told of a stored entry is a clone of its value and its deadline, expired or not; of a
/// key without an entry, nothing.
pub proof fn law_deadlines_are_told_as_stored<K, V: Clone>(
    m: Map<K, TimedEntry<V>>,
    k: K,
    r: (bool, Option<Instant>),
    p: (Option<V>, Option<Instant>),
)
    ensures
        expiry::finds(m, k, r) <==> if m.contains_key(k) {
            r.0 && r.1 == m[k].expires_at
        } else {
            !r.0 && r.1 is None
        },
        expiry::peeks(m, k, p) <==> if m.contains_key(k) {
            p.0 is Some && cloned(m[k].value, p.0->0) && p.1 == m[k].expires_at
        } else {
            p.0 is None && p.1 is None
        },
{
}

/// A cache that was built has no entries, counters at zero, and the settings that were given.
pub proof fn law_built_as_asked<K, V, S>(b: TtlCacheBuilder<K, V, S>, clock: Clock)
    requires
        b.ttl is Some,
    ensures
        ({
            let s = b.fresh(clock);
            &&& s.clock == clock
            &&& s.entries.dom() == Set::<K>::empty()
            &&& Some(s.ttl) == b.ttl
            &&& s.refresh == b.refresh
            &&& s.initial_capacity == b.capacity
            &&& s.hits == 0 && s.misses == 0 && s.evictions == 0
            &&& s.callback == b.on_evict
            &&& s.heard.len() == 0
        }),
{
    assert(b.fresh(clock).entries.dom() =~= Set::<K>::empty());
}

/// What a cache shows of itself by what it has in common with others is its entries.
pub proof fn law_traits_speak_of_the_entries<K: Hash + Eq, V, S: BuildHasher>(
    c: TtlCache<K, V, S>,
    k: K,
)
    ensures
        CacheExpiry::<K, V>::deadlines(&c) == c@.entries,
        CacheEvict::entry_count(&c) == c@.entries.len(),
        CacheClearWithOnEvict::vacant(&c) ==> !c@.entries.contains_key(k),
{
}

} // verus!
