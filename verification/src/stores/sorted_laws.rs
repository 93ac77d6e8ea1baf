//! What the operations of a [`TtlSortedCache`](crate::stores::ttl_sorted::TtlSortedCache) do, entry
//! by entry and counter by counter.
use crate::stores::expiry::TimedEntry;
use crate::stores::expiry_index;
use crate::stores::expiry_order;
use crate::stores::sorted_view::{self, SortedView};
use crate::stores::ttl_sorted::{TtlSortedCache, TtlSortedCacheBuilder};
use crate::stores::ttl_laws::{holds, one_above, one_ttl_after, same_but_for};
use crate::time::{Clock, Duration, Instant};
use std::hash::{BuildHasher, Hash};
use vstd::prelude::*;

verus! {

/// Whether `t` has the settings, the clock and the callback of `s`.
pub open spec fn same_settings<K, V>(s: SortedView<K, V>, t: SortedView<K, V>) -> bool {
    &&& t.clock == s.clock
    &&& t.ttl == s.ttl
    &&& t.max_size == s.max_size
    &&& t.initial_capacity == s.initial_capacity
    &&& t.callback == s.callback
}

/// Whether in `t` one eviction more than in `s` was counted, and told to the callback if there is
/// one: that of `v` under `k`.
pub open spec fn one_evicted<K, V>(s: SortedView<K, V>, t: SortedView<K, V>, k: K, v: V) -> bool {
    &&& one_above(s.evictions, t.evictions)
    &&& t.heard.len() == s.heard.len() + if s.callback is Some {
        1int
    } else {
        0int
    }
    &&& forall|i: int| 0 <= i < s.heard.len() ==> #[trigger] t.heard[i] == s.heard[i]
    &&& s.callback is Some ==> t.heard[s.heard.len() as int] == (k, v)
}

/// Whether in `t` no eviction was counted or told that was not in `s`.
pub open spec fn none_evicted<K, V>(s: SortedView<K, V>, t: SortedView<K, V>) -> bool {
    t.evictions == s.evictions && t.heard == s.heard
}

/// Whether the entry of `a` leaves before that of `b`: it has the earlier deadline, or only it has
/// one, or they have the same and its key is the smaller one.
pub open spec fn goes_before<K: Ord, V>(entries: Map<K, TimedEntry<V>>, a: K, b: K) -> bool {
    match (entries[a].expires_at, entries[b].expires_at) {
        (Some(x), Some(y)) => x.nanos < y.nanos || x.nanos == y.nanos && expiry_index::key_before(
            a,
            b,
        ),
        (Some(_), None) => true,
        (None, Some(_)) => false,
        (None, None) => expiry_index::key_before(a, b),
    }
}

/// Whether the entry of `k` has a deadline that lies before `cutoff`.
pub open spec fn lies_before<K, V>(
    entries: Map<K, TimedEntry<V>>,
    k: K,
    cutoff: Instant,
) -> bool {
    entries.contains_key(k) && (entries[k].expires_at matches Some(t) && t.nanos < cutoff.nanos)
}

/// Whether the entries of `t` are entries of `s`, unchanged.
pub open spec fn no_new_entries<K, V>(
    s: Map<K, TimedEntry<V>>,
    t: Map<K, TimedEntry<V>>,
) -> bool {
    forall|k: K| #[trigger] t.contains_key(k) ==> s.contains_key(k) && t[k] == s[k]
}

/// Whether each entry of `s` that is not in `t` leaves before each that is.
pub open spec fn next_left_first<K: Ord, V>(
    s: Map<K, TimedEntry<V>>,
    t: Map<K, TimedEntry<V>>,
) -> bool {
    forall|a: K, b: K|
        s.contains_key(a) && !#[trigger] t.contains_key(a) && #[trigger] t.contains_key(b)
            ==> goes_before(s, a, b)
}

/// Whether the entries of `s` that are not in `t` were counted as evicted, and told to the callback
/// if there is one, each once, with their values, in the order in which they leave.
pub open spec fn leavers_counted_and_told<K: Ord, V>(
    s: SortedView<K, V>,
    t: SortedView<K, V>,
) -> bool {
    let left = s.entries.len() - t.entries.len();
    &&& s.evictions + left <= u64::MAX ==> t.evictions == s.evictions + left
    &&& s.callback is None ==> t.heard == s.heard
    &&& s.callback is Some ==> {
        &&& t.heard.len() == s.heard.len() + left
        &&& forall|i: int| 0 <= i < s.heard.len() ==> #[trigger] t.heard[i] == s.heard[i]
        &&& forall|i: int|
            s.heard.len() <= i < t.heard.len() ==> {
                let e = #[trigger] t.heard[i];
                s.entries.contains_key(e.0) && !t.entries.contains_key(e.0) && e.1
                    == s.entries[e.0].value
            }
        &&& forall|i: int, j: int|
            s.heard.len() <= i < j < t.heard.len() ==> goes_before(
                s.entries,
                (#[trigger] t.heard[i]).0,
                (#[trigger] t.heard[j]).0,
            )
    }
}

/// Whether `t` follows from `s` by entries leaving: the next ones to leave do, they are counted and
/// told of, and nothing else changes.
pub open spec fn follows_leaving<K: Ord, V>(s: SortedView<K, V>, t: SortedView<K, V>) -> bool {
    &&& same_settings(s, t)
    &&& t.hits == s.hits && t.misses == s.misses
    &&& no_new_entries(s.entries, t.entries)
    &&& next_left_first(s.entries, t.entries)
    &&& leavers_counted_and_told(s, t)
}

/// The order in which entries leave is that of their deadlines, with those that never expire last,
/// and among equal deadlines that of their keys.
pub proof fn law_earlier_deadlines_leave_first<K: Ord, V>(
    entries: Map<K, TimedEntry<V>>,
    a: K,
    b: K,
    cutoff: Instant,
)
    ensures
        expiry_order::leaves_first(entries, a, b) <==> goes_before(entries, a, b),
        expiry_order::past(entries, cutoff).contains(a) <==> lies_before(entries, a, cutoff),
{
}

/// What a look-up finds is the value of an entry that is stored and has not reached its deadline.
pub proof fn law_live_means_stored_and_not_due<K: Ord, V>(
    s: SortedView<K, V>,
    k: K,
    v: V,
    now: Instant,
)
    ensures
        s.live(k, now) == if holds(s.entries, k, now) {
            Some(s.entries[k].value)
        } else {
            None
        },
        s.live_or(k, v, now) == if holds(s.entries, k, now) {
            s.entries[k].value
        } else {
            v
        },
{
}

/// Whether `t` follows from `s` by a hit, or by a miss if `hit` says so, that changes no entry.
pub open spec fn follows_read<K, V>(
    s: SortedView<K, V>,
    t: SortedView<K, V>,
    hit: bool,
) -> bool {
    &&& same_settings(s, t)
    &&& none_evicted(s, t)
    &&& t.entries == s.entries
    &&& if hit {
        one_above(s.hits, t.hits) && t.misses == s.misses
    } else {
        one_above(s.misses, t.misses) && t.hits == s.hits
    }
}

/// A hit and a miss count one, and change nothing else.
pub proof fn law_reads_are_counted<K: Ord, V>(s: SortedView<K, V>)
    ensures
        follows_read(s, s.hit(), true),
        follows_read(s, s.miss(), false),
{
}

/// A look-up of an entry that is not due is a hit and changes no entry. One of an entry that is due
/// is a miss, evicts it and tells of it. Any other is a miss that changes no entry.
pub proof fn law_look_up_hits_evicts_or_misses<K: Ord, V>(s: SortedView<K, V>, k: K, now: Instant)
    ensures
        holds(s.entries, k, now) ==> follows_read(s, s.look_up(k, now), true),
        !s.entries.contains_key(k) ==> follows_read(s, s.look_up(k, now), false),
        s.entries.contains_key(k) && !holds(s.entries, k, now) ==> {
            let t = s.look_up(k, now);
            &&& same_settings(s, t)
            &&& one_above(s.misses, t.misses) && t.hits == s.hits
            &&& same_but_for(s.entries, t.entries, k) && !t.entries.contains_key(k)
            &&& one_evicted(s, t, k, s.entries[k].value)
        },
{
    expiry_order::lemma_single(k);
    assert(seq![k][0] == k);
    assert(seq![k].map_values(|q: K| (q, s.entries[q].value))[0] == (k, s.entries[k].value));
}

/// The entry that is removed is the one of its key. It counts as evicted and is told of.
pub proof fn law_removal_takes_one_entry<K: Ord, V>(s: SortedView<K, V>, k: K)
    requires
        s.entries.contains_key(k),
    ensures
        ({
            let t = s.discard(k);
            &&& same_settings(s, t)
            &&& t.hits == s.hits && t.misses == s.misses
            &&& same_but_for(s.entries, t.entries, k) && !t.entries.contains_key(k)
            &&& one_evicted(s, t, k, s.entries[k].value)
        }),
{
    expiry_order::lemma_single(k);
    assert(seq![k][0] == k);
    assert(seq![k].map_values(|q: K| (q, s.entries[q].value))[0] == (k, s.entries[k].value));
}

/// A value that is changed in place changes no deadline, no other entry and no counter.
pub proof fn law_change_in_place<K: Ord, V>(s: SortedView<K, V>, k: K, v: V)
    requires
        s.entries.contains_key(k),
    ensures
        ({
            let t = s.with_value(k, v);
            &&& same_settings(s, t)
            &&& none_evicted(s, t)
            &&& t.hits == s.hits && t.misses == s.misses
            &&& same_but_for(s.entries, t.entries, k)
            &&& t.entries.contains_key(k) && t.entries[k].value == v
            &&& t.entries[k].expires_at == s.entries[k].expires_at
        }),
{
}

/// A write stores the value with the given deadline, and is neither a hit nor a miss. It evicts
/// what it displaces if that was due. Other entries stay as they are.
pub proof fn law_write_stores_the_value<K: Ord, V>(
    s: SortedView<K, V>,
    k: K,
    v: V,
    expires_at: Option<Instant>,
    now: Instant,
)
    ensures
        ({
            let t = s.put(k, v, expires_at, now);
            &&& same_settings(s, t)
            &&& t.hits == s.hits && t.misses == s.misses
            &&& same_but_for(s.entries, t.entries, k)
            &&& t.entries.contains_key(k) && t.entries[k].value == v
            &&& t.entries[k].expires_at == expires_at
            &&& if s.entries.contains_key(k) && !holds(s.entries, k, now) {
                one_evicted(s, t, k, s.entries[k].value)
            } else {
                none_evicted(s, t)
            }
        }),
{
}

/// An entry is due one time to live after it is written: its own, or else that of the cache.
pub proof fn law_due_after_one_ttl<K: Ord, V>(
    s: SortedView<K, V>,
    ttl: Option<Duration>,
    now: Instant,
)
    ensures
        ttl matches Some(own) ==> one_ttl_after(own, now, s.due(ttl, now)),
        ttl is None ==> one_ttl_after(s.ttl, now, s.due(ttl, now)),
{
}

/// When `n` entries leave from the front, the next `n` to leave do, and they are counted and told
/// of.
pub proof fn law_front_leaves<K: Ord, V>(s: SortedView<K, V>, n: nat)
    requires
        expiry_index::ordered::<K>(),
        s.entries.dom().finite(),
        n <= s.entries.len(),
    ensures
        s.drop_front(n).entries.len() == s.entries.len() - n,
        follows_leaving(s, s.drop_front(n)),
{
    let t = s.drop_front(n);
    sorted_view::law_drops_next_to_expire(s, n);
    expiry_order::lemma_expiry_order(s.entries);
    let order = expiry_order::expiry_order(s.entries);
    let gone = order.take(n as int);
    let told = gone.map_values(|k: K| (k, s.entries[k].value));
    if s.evictions + n <= u64::MAX {
        vstd::arithmetic::div_mod::lemma_small_mod(
            (s.evictions + n) as nat,
            0x1_0000_0000_0000_0000,
        );
    }
    if s.callback is Some {
        assert(t.heard == s.heard + told);
        assert forall|i: int| s.heard.len() <= i < t.heard.len() implies {
            let e = #[trigger] t.heard[i];
            s.entries.contains_key(e.0) && !t.entries.contains_key(e.0) && e.1
                == s.entries[e.0].value
        } by {
            let j = i - s.heard.len();
            assert(t.heard[i] == told[j]);
            assert(gone[j] == order[j]);
            assert(s.entries.contains_key(order[j]));
            assert(gone.contains(gone[j]));
        }
        assert forall|i: int, j: int| s.heard.len() <= i < j < t.heard.len() implies goes_before(
            s.entries,
            (#[trigger] t.heard[i]).0,
            (#[trigger] t.heard[j]).0,
        ) by {
            assert(t.heard[i] == told[i - s.heard.len()]);
            assert(t.heard[j] == told[j - s.heard.len()]);
            assert(expiry_order::leaves_first(
                s.entries,
                order[i - s.heard.len()],
                order[j - s.heard.len()],
            ));
        }
    }
    assert forall|a: K, b: K|
        s.entries.contains_key(a) && !#[trigger] t.entries.contains_key(a)
            && #[trigger] t.entries.contains_key(b) implies goes_before(s.entries, a, b) by {
        assert(expiry_order::leaves_first(s.entries, a, b));
    }
}

/// If fewer entries leave from the front than lie before `cutoff`, all that leave do so; if as many
/// or more leave, all that lie before it leave.
pub proof fn law_front_against_cutoff<K: Ord, V>(s: SortedView<K, V>, n: nat, cutoff: Instant)
    requires
        expiry_index::ordered::<K>(),
        s.entries.dom().finite(),
        n <= s.entries.len(),
    ensures
        n <= expiry_order::past(s.entries, cutoff).len() ==> forall|k: K|
            s.entries.contains_key(k) && !#[trigger] s.drop_front(n).entries.contains_key(k)
                ==> lies_before(s.entries, k, cutoff),
        n >= expiry_order::past(s.entries, cutoff).len() ==> forall|k: K| #[trigger]
            s.drop_front(n).entries.contains_key(k) ==> !lies_before(s.entries, k, cutoff),
{
    let t = s.drop_front(n);
    let late = expiry_order::past(s.entries, cutoff);
    sorted_view::law_drops_next_to_expire(s, n);
    expiry_order::lemma_expiry_order(s.entries);
    let order = expiry_order::expiry_order(s.entries);
    let gone = order.take(n as int);
    gone.unique_seq_to_set();
    let dropped = gone.to_set();
    assert(late.subset_of(s.entries.dom()));
    vstd::set_lib::lemma_len_subset(late, s.entries.dom());
    assert forall|k: K| #[trigger] dropped.contains(k) implies s.entries.contains_key(k)
        && !t.entries.contains_key(k) by {
        let i = choose|i: int| 0 <= i < gone.len() && gone[i] == k;
        assert(s.entries.contains_key(order[i]));
    }
    if n >= late.len() {
        assert forall|k: K| #[trigger] t.entries.contains_key(k) implies !lies_before(
            s.entries,
            k,
            cutoff,
        ) by {
            if lies_before(s.entries, k, cutoff) {
                assert(late.contains(k));
                assert(!dropped.contains(k));
                assert forall|a: K| #[trigger] dropped.contains(a) implies late.contains(a) by {
                    assert(expiry_order::leaves_first(s.entries, a, k));
                }
                assert(dropped.insert(k).subset_of(late));
                vstd::set_lib::lemma_len_subset(dropped.insert(k), late);
            }
        }
    }
    if n <= late.len() {
        assert forall|k: K|
            s.entries.contains_key(k) && !#[trigger] t.entries.contains_key(k) implies lies_before(
            s.entries,
            k,
            cutoff,
        ) by {
            if !lies_before(s.entries, k, cutoff) {
                assert(dropped.contains(k));
                assert forall|a: K| #[trigger] late.contains(a) implies dropped.contains(a) by {
                    if !dropped.contains(a) {
                        assert(t.entries.contains_key(a));
                        assert(expiry_order::leaves_first(s.entries, k, a));
                    }
                }
                assert(late.insert(k).subset_of(dropped));
                assert(dropped.finite());
                vstd::set_lib::lemma_len_subset(late.insert(k), dropped);
            }
        }
    }
}

/// When at most `count` entries may stay, exactly the surplus leaves: `count` stay, or all if there
/// are no more. With a cutoff, those that lie before it leave too, and nothing else does.
pub proof fn law_retain_latest_keeps_count<K: Ord, V>(
    s: SortedView<K, V>,
    count: usize,
    cutoff: Instant,
)
    requires
        expiry_index::ordered::<K>(),
        s.entries.dom().finite(),
    ensures
        ({
            let n = s.surplus(count, None);
            let t = s.drop_front(n);
            &&& n <= s.entries.len()
            &&& s.entries.len() <= count ==> n == 0
            &&& s.entries.len() > count ==> t.entries.len() == count
            &&& t.entries.len() + n == s.entries.len()
            &&& follows_leaving(s, t)
        }),
        ({
            let n = s.surplus(count, Some(cutoff));
            let t = s.drop_front(n);
            &&& n <= s.entries.len()
            &&& t.entries.len() <= count
            &&& t.entries.len() + n == s.entries.len()
            &&& follows_leaving(s, t)
            &&& forall|k: K| #[trigger]
                t.entries.contains_key(k) ==> !lies_before(s.entries, k, cutoff)
            &&& t.entries.len() < count ==> forall|k: K|
                s.entries.contains_key(k) && !#[trigger] t.entries.contains_key(k) ==> lies_before(
                    s.entries,
                    k,
                    cutoff,
                )
        }),
{
    let late = expiry_order::past(s.entries, cutoff);
    assert(late.subset_of(s.entries.dom()));
    vstd::set_lib::lemma_len_subset(late, s.entries.dom());
    law_front_leaves(s, s.surplus(count, None));
    let n = s.surplus(count, Some(cutoff));
    law_front_leaves(s, n);
    law_front_against_cutoff(s, n, cutoff);
}

/// A sweep takes out the entries that lie before the cutoff, and no others.
pub proof fn law_sweep_takes_what_lies_before<K: Ord, V>(s: SortedView<K, V>, cutoff: Instant)
    requires
        expiry_index::ordered::<K>(),
        s.entries.dom().finite(),
    ensures
        ({
            let n = expiry_order::past(s.entries, cutoff).len();
            let t = s.drop_front(n);
            &&& n <= s.entries.len()
            &&& t.entries.len() + n == s.entries.len()
            &&& follows_leaving(s, t)
            &&& forall|k: K| #[trigger]
                t.entries.contains_key(k) <==> s.entries.contains_key(k) && !lies_before(
                    s.entries,
                    k,
                    cutoff,
                )
        }),
{
    let late = expiry_order::past(s.entries, cutoff);
    assert(late.subset_of(s.entries.dom()));
    vstd::set_lib::lemma_len_subset(late, s.entries.dom());
    law_front_leaves(s, late.len());
    law_front_against_cutoff(s, late.len(), cutoff);
}

/// After a write the bound takes out exactly the surplus, the next entries to leave: if there are
/// more entries than it allows, exactly as many stay as it allows; else all do. With a sweep, where
/// there is no bound or it is exceeded, those that lie before now leave too, and nothing else does.
pub proof fn law_settling_takes_out_the_surplus<K: Ord, V>(
    s: SortedView<K, V>,
    evict: bool,
    now: Instant,
)
    requires
        expiry_index::ordered::<K>(),
        s.entries.dom().finite(),
    ensures
        follows_leaving(s, s.settle(evict, now)),
        !evict ==> s.settle(evict, now).entries.len() == match s.max_size {
            Some(m) if s.entries.len() > m => m as nat,
            _ => s.entries.len(),
        },
        s.max_size matches Some(m) && s.entries.len() <= m ==> s.settle(evict, now).entries
            == s.entries,
        s.max_size is None && !evict ==> s.settle(evict, now).entries == s.entries,
        s.max_size is None && evict ==> forall|k: K| #[trigger]
            s.settle(evict, now).entries.contains_key(k) <==> s.entries.contains_key(k)
                && !lies_before(s.entries, k, now),
        s.max_size is Some && s.entries.len() > s.max_size->0 && evict ==> {
            let t = s.settle(evict, now);
            &&& t.entries.len() <= s.max_size->0
            &&& forall|k: K| #[trigger] t.entries.contains_key(k) ==> !lies_before(s.entries, k, now)
            &&& t.entries.len() < s.max_size->0 ==> forall|k: K|
                s.entries.contains_key(k) && !#[trigger] t.entries.contains_key(k) ==> lies_before(
                    s.entries,
                    k,
                    now,
                )
        },
{
    law_sweep_takes_what_lies_before(s, now);
    if let Some(m) = s.max_size {
        law_retain_latest_keeps_count(s, m, now);
    }
}

/// After a write that must stay, exactly as many entries stay as the bound allows, the written one
/// among them. Of the others, the next ones to leave do.
pub proof fn law_settling_around_takes_out_the_surplus<K: Ord, V>(s: SortedView<K, V>, k: K)
    requires
        expiry_index::ordered::<K>(),
        s.entries.dom().finite(),
        s.entries.contains_key(k),
        s.max_size != Some(0usize),
    ensures
        ({
            let t = s.settle_around(k);
            &&& same_settings(s, t)
            &&& t.hits == s.hits && t.misses == s.misses
            &&& t.entries.len() == match s.max_size {
                Some(m) if s.entries.len() > m => m as nat,
                _ => s.entries.len(),
            }
            &&& t.entries.contains_key(k)
            &&& no_new_entries(s.entries, t.entries)
            &&& next_left_first(s.entries.remove(k), t.entries.remove(k))
            &&& leavers_counted_and_told(s, t)
        }),
{
    let t = s.settle_around(k);
    if let Some(m) = s.max_size {
        if s.entries.len() > m {
            let others = s.entries.remove(k);
            assert(others.dom() =~= s.entries.dom().remove(k));
            expiry_order::lemma_expiry_order(others);
            let order = expiry_order::expiry_order(others);
            let n = (s.entries.len() - m) as nat;
            let gone = order.take(n as int);
            let told = gone.map_values(|q: K| (q, s.entries[q].value));
            assert forall|i: int| 0 <= i < gone.len() implies s.entries.contains_key(
                #[trigger] gone[i],
            ) by {
                assert(others.contains_key(order[i]));
            }
            expiry_order::lemma_remove_len(s.entries, gone);
            if gone.contains(k) {
                let i = choose|i: int| 0 <= i < gone.len() && gone[i] == k;
                assert(others.contains_key(order[i]));
            }
            if s.evictions + n <= u64::MAX {
                vstd::arithmetic::div_mod::lemma_small_mod(
                    (s.evictions + n) as nat,
                    0x1_0000_0000_0000_0000,
                );
            }
            let left = t.entries.remove(k);
            assert forall|a: K, b: K|
                others.contains_key(a) && !#[trigger] left.contains_key(a)
                    && #[trigger] left.contains_key(b) implies goes_before(others, a, b) by {
                assert(gone.contains(a));
                let i = choose|i: int| 0 <= i < gone.len() && gone[i] == a;
                assert(others.contains_key(b));
                let j = choose|j: int| 0 <= j < order.len() && #[trigger] order[j] == b;
                assert(order[i] == a);
                if j < n {
                    assert(gone[j] == b);
                    assert(gone.contains(b));
                }
                assert(expiry_order::leaves_first(others, order[i], order[j]));
            }
            if s.callback is Some {
                assert(t.heard == s.heard + told);
                assert forall|i: int| s.heard.len() <= i < t.heard.len() implies {
                    let e = #[trigger] t.heard[i];
                    s.entries.contains_key(e.0) && !t.entries.contains_key(e.0) && e.1
                        == s.entries[e.0].value
                } by {
                    let j = i - s.heard.len();
                    assert(t.heard[i] == told[j]);
                    assert(s.entries.contains_key(gone[j]));
                    assert(gone.contains(gone[j]));
                }
                assert forall|i: int, j: int|
                    s.heard.len() <= i < j < t.heard.len() implies goes_before(
                    s.entries,
                    (#[trigger] t.heard[i]).0,
                    (#[trigger] t.heard[j]).0,
                ) by {
                    let x = i - s.heard.len();
                    let y = j - s.heard.len();
                    assert(t.heard[i] == told[x] && t.heard[j] == told[y]);
                    assert(expiry_order::leaves_first(others, order[x], order[y]));
                    assert(others.contains_key(order[x]) && others.contains_key(order[y]));
                }
            }
        }
    }
}

/// A look-up that goes on to fill is a hit if the entry is not due, and changes no entry. Else it
/// is a miss, and the made value is stored with a deadline one time to live after it was made; no
/// more entries leave than the bound asks for.
pub proof fn law_get_or_set_hits_or_fills<K: Ord, V>(
    s: SortedView<K, V>,
    k: K,
    v: V,
    now: Instant,
    later: Instant,
)
    requires
        expiry_index::ordered::<K>(),
        s.entries.dom().finite(),
        s.max_size != Some(0usize),
    ensures
        holds(s.entries, k, now) ==> follows_read(s, s.look_up_or_put(k, v, now, later), true),
        !holds(s.entries, k, now) ==> {
            let t = s.look_up_or_put(k, v, now, later);
            let stored = s.entries.insert(k, t.entries[k]);
            &&& same_settings(s, t)
            &&& one_above(s.misses, t.misses) && t.hits == s.hits
            &&& t.entries.contains_key(k) && t.entries[k].value == v
            &&& one_ttl_after(s.ttl, later, t.entries[k].expires_at)
            &&& no_new_entries(stored, t.entries)
            &&& t.entries.len() == match s.max_size {
                Some(m) if stored.len() > m => m as nat,
                _ => stored.len(),
            }
        },
{
    if !holds(s.entries, k, now) {
        let put = s.miss().put(k, v, s.due(None, later), later);
        let t = s.look_up_or_put(k, v, now, later);
        law_settling_around_takes_out_the_surplus(put, k);
        assert(t == put.settle_around(k));
        assert(s.entries.insert(k, t.entries[k]) =~= put.entries);
    }
}

/// The entries are listed each once, in the order in which they leave, with their values and
/// deadlines.
pub proof fn law_listed_in_order<K: Ord, V>(s: SortedView<K, V>)
    requires
        expiry_index::ordered::<K>(),
        s.entries.dom().finite(),
    ensures
        s.entry_list().len() == s.entries.len(),
        forall|i: int|
            0 <= i < s.entry_list().len() ==> {
                let e = #[trigger] s.entry_list()[i];
                s.entries.contains_key(e.0) && s.entries[e.0] == e.1
            },
        forall|i: int, j: int|
            0 <= i < j < s.entry_list().len() ==> goes_before(
                s.entries,
                (#[trigger] s.entry_list()[i]).0,
                (#[trigger] s.entry_list()[j]).0,
            ),
{
    expiry_order::lemma_expiry_order(s.entries);
    let order = expiry_order::expiry_order(s.entries);
    order.unique_seq_to_set();
    assert(order.to_set() =~= s.entries.dom()) by {
        assert forall|k: K| #[trigger] order.to_set().contains(k) <==> s.entries.contains_key(
            k,
        ) by {
            if s.entries.contains_key(k) {
                let i = choose|i: int| 0 <= i < order.len() && #[trigger] order[i] == k;
                assert(order.contains(k));
            }
        }
    }
    assert forall|i: int| 0 <= i < s.entry_list().len() implies {
        let e = #[trigger] s.entry_list()[i];
        s.entries.contains_key(e.0) && s.entries[e.0] == e.1
    } by {
        assert(s.entries.contains_key(order[i]));
    }
    assert forall|i: int, j: int| 0 <= i < j < s.entry_list().len() implies goes_before(
        s.entries,
        (#[trigger] s.entry_list()[i]).0,
        (#[trigger] s.entry_list()[j]).0,
    ) by {
        assert(expiry_order::leaves_first(s.entries, order[i], order[j]));
    }
}

/// The live entries are listed each once, in the order in which they leave: those that are stored
/// and not due, with their values, and no others.
pub proof fn law_live_listed_in_order<K: Ord, V>(s: SortedView<K, V>, now: Instant)
    requires
        expiry_index::ordered::<K>(),
        s.entries.dom().finite(),
    ensures
        forall|i: int|
            0 <= i < s.live_list(now).len() ==> {
                let e = #[trigger] s.live_list(now)[i];
                holds(s.entries, e.0, now) && s.entries[e.0].value == e.1
            },
        forall|k: K| #[trigger]
            holds(s.entries, k, now) ==> exists|i: int|
                0 <= i < s.live_list(now).len() && (#[trigger] s.live_list(now)[i]).0 == k,
        forall|i: int, j: int|
            0 <= i < j < s.live_list(now).len() ==> goes_before(
                s.entries,
                (#[trigger] s.live_list(now)[i]).0,
                (#[trigger] s.live_list(now)[j]).0,
            ),
{
    expiry_order::lemma_expiry_order(s.entries);
    let order = expiry_order::expiry_order(s.entries);
    let fresh = |k: K| !s.entries[k].expired(now);
    let kept = order.filter(fresh);
    lemma_filter_keeps_order(order, fresh, s.entries);
    assert forall|i: int| 0 <= i < s.live_list(now).len() implies {
        let e = #[trigger] s.live_list(now)[i];
        holds(s.entries, e.0, now) && s.entries[e.0].value == e.1
    } by {
        assert(fresh(kept[i]));
        assert(order.contains(kept[i]));
        let j = choose|j: int| 0 <= j < order.len() && order[j] == kept[i];
        assert(s.entries.contains_key(order[j]));
    }
    assert forall|k: K| #[trigger] holds(s.entries, k, now) implies exists|i: int|
        0 <= i < s.live_list(now).len() && (#[trigger] s.live_list(now)[i]).0 == k by {
        assert(s.entries.contains_key(k));
        let j = choose|j: int| 0 <= j < order.len() && #[trigger] order[j] == k;
        assert(fresh(order[j]));
        assert(kept.contains(k));
        let i = choose|i: int| 0 <= i < kept.len() && kept[i] == k;
        assert(s.live_list(now)[i].0 == k);
    }
    assert forall|i: int, j: int| 0 <= i < j < s.live_list(now).len() implies goes_before(
        s.entries,
        (#[trigger] s.live_list(now)[i]).0,
        (#[trigger] s.live_list(now)[j]).0,
    ) by {
        assert(expiry_order::leaves_first(s.entries, kept[i], kept[j]));
    }
}

/// What is left of a list in expiry order is in expiry order, and has what was let through.
proof fn lemma_filter_keeps_order<K: Ord, V>(
    keys: Seq<K>,
    pass: spec_fn(K) -> bool,
    entries: Map<K, TimedEntry<V>>,
)
    requires
        forall|i: int, j: int|
            0 <= i < j < keys.len() ==> expiry_order::leaves_first(
                entries,
                #[trigger] keys[i],
                #[trigger] keys[j],
            ),
    ensures
        forall|i: int|
            0 <= i < keys.filter(pass).len() ==> pass(#[trigger] keys.filter(pass)[i])
                && keys.contains(keys.filter(pass)[i]),
        forall|i: int|
            0 <= i < keys.len() && pass(#[trigger] keys[i]) ==> keys.filter(pass).contains(keys[i]),
        forall|i: int, j: int|
            0 <= i < j < keys.filter(pass).len() ==> expiry_order::leaves_first(
                entries,
                #[trigger] keys.filter(pass)[i],
                #[trigger] keys.filter(pass)[j],
            ),
    decreases keys.len(),
{
    reveal(Seq::filter);
    if keys.len() > 0 {
        let init = keys.drop_last();
        lemma_filter_keeps_order(init, pass, entries);
        let before = init.filter(pass);
        let after = keys.filter(pass);
        assert(after == if pass(keys.last()) {
            before.push(keys.last())
        } else {
            before
        });
        assert forall|k: K| init.contains(k) implies keys.contains(k) by {
            let i = choose|i: int| 0 <= i < init.len() && init[i] == k;
            assert(keys[i] == k);
        }
        assert(keys[keys.len() - 1] == keys.last());
        assert forall|i: int| 0 <= i < after.len() implies pass(#[trigger] after[i])
            && keys.contains(after[i]) by {
            if i < before.len() {
                assert(after[i] == before[i]);
                assert(init.contains(before[i]));
            }
        }
        assert forall|i: int| 0 <= i < keys.len() && pass(#[trigger] keys[i]) implies
        after.contains(keys[i]) by {
            if i < init.len() {
                assert(init[i] == keys[i]);
                let j = choose|j: int| 0 <= j < before.len() && before[j] == keys[i];
                assert(after[j] == keys[i]);
            } else {
                assert(after[before.len() as int] == keys[i]);
            }
        }
        assert forall|i: int, j: int| 0 <= i < j < after.len() implies expiry_order::leaves_first(
            entries,
            #[trigger] after[i],
            #[trigger] after[j],
        ) by {
            assert(after[i] == before[i]);
            if j < before.len() {
                assert(after[j] == before[j]);
            } else {
                assert(init.contains(before[i]));
                let x = choose|x: int| 0 <= x < init.len() && init[x] == before[i];
                assert(keys[x] == before[i]);
                assert(expiry_order::leaves_first(entries, keys[x], keys[keys.len() - 1]));
            }
        }
    }
}

/// A status report of a stored entry has a clone of its value, and says that it has expired exactly
/// if its deadline has come. Of a key without an entry it has no value, and says that nothing has
/// expired.
pub proof fn law_status_tells_value_and_due<K: Ord, V: Clone>(
    s: SortedView<K, V>,
    k: K,
    now: Instant,
    r: (Option<V>, bool),
)
    ensures
        s.reads(k, now, r) <==> match r.0 {
            Some(v) => s.entries.contains_key(k) && cloned(s.entries[k].value, v) && r.1 == !holds(
                s.entries,
                k,
                now,
            ),
            None => !s.entries.contains_key(k) && !r.1,
        },
{
}

/// What is retained was not due and was accepted. What leaves was due, or was not and was rejected;
/// it leaves in the order of the deadlines, and nothing leaves that was not there.
pub proof fn law_retain_lists_the_due_and_the_rejected<
    K: Hash + Eq + Ord + Clone,
    V,
    S: BuildHasher,
    F: FnMut(&K, &V) -> bool,
>(entries: Map<K, TimedEntry<V>>, keep: F, now: Instant, gone: Seq<K>, k: K)
    requires
        TtlSortedCache::<K, V, S>::sifts(entries, keep, now, gone),
    ensures
        gone.contains(k) ==> entries.contains_key(k),
        entries.contains_key(k) && !holds(entries, k, now) ==> gone.contains(k),
        holds(entries, k, now) ==> keep.ensures((&k, &entries[k].value), !gone.contains(k)),
        forall|i: int, j: int|
            0 <= i < j < gone.len() ==> goes_before(
                entries,
                #[trigger] gone[i],
                #[trigger] gone[j],
            ),
{
    if gone.contains(k) {
        let i = choose|i: int| 0 <= i < gone.len() && gone[i] == k;
        assert(entries.contains_key(gone[i]));
    }
    if entries.contains_key(k) {
        assert(TtlSortedCache::<K, V, S>::stays(
            entries[k],
            k,
            keep,
            now,
            !gone.contains(k),
        ));
    }
    assert forall|i: int, j: int| 0 <= i < j < gone.len() implies goes_before(
        entries,
        #[trigger] gone[i],
        #[trigger] gone[j],
    ) by {
        assert(expiry_order::leaves_first(entries, gone[i], gone[j]));
    }
}

/// Keys that leave take their entries and no others. Each counts as evicted, and with a callback
/// each is told of with its value, in the order in which they leave. Hits and misses stay.
pub proof fn law_leaving_is_counted_and_told<K: Ord, V>(s: SortedView<K, V>, gone: Seq<K>)
    ensures
        ({
            let t = s.drop_keys(gone);
            &&& same_settings(s, t)
            &&& t.hits == s.hits && t.misses == s.misses
            &&& forall|k: K| #[trigger]
                t.entries.contains_key(k) <==> s.entries.contains_key(k) && !gone.contains(k)
            &&& no_new_entries(s.entries, t.entries)
            &&& s.evictions + gone.len() <= u64::MAX ==> t.evictions == s.evictions + gone.len()
            &&& s.callback is None ==> t.heard == s.heard
            &&& s.callback is Some ==> {
                &&& t.heard.len() == s.heard.len() + gone.len()
                &&& forall|i: int| 0 <= i < s.heard.len() ==> #[trigger] t.heard[i] == s.heard[i]
                &&& forall|i: int|
                    0 <= i < gone.len() ==> t.heard[s.heard.len() + i] == (
                        #[trigger] gone[i],
                        s.entries[gone[i]].value,
                    )
            }
        }),
{
    if s.evictions + gone.len() <= u64::MAX {
        vstd::arithmetic::div_mod::lemma_small_mod(
            (s.evictions + gone.len()) as nat,
            0x1_0000_0000_0000_0000,
        );
    }
}

/// Room is asked for as many entries as was asked for, or else for one more than the bound allows,
/// as far as that can be counted, or else not at all.
pub proof fn law_room_for_one_more_than_the_bound<K, V, S>(b: TtlSortedCacheBuilder<K, V, S>)
    ensures
        b.capacity is Some ==> b.room_asked() == b.capacity,
        b.capacity is None && b.size is None ==> b.room_asked() is None,
        b.capacity is None && b.size is Some && b.size->0 < usize::MAX ==> b.room_asked() is Some
            && b.room_asked()->0 == b.size->0 + 1,
        b.capacity is None && b.size == Some(usize::MAX) ==> b.room_asked() == Some(usize::MAX),
{
}

/// A write without a sweep is found until its deadline, unless the bound made it leave at once;
/// then as many entries stay as the bound allows, and each of them leaves after it. Entries of
/// other keys that stay are as they were.
pub proof fn law_write_then_look_up<K: Ord, V>(
    s: SortedView<K, V>,
    k: K,
    v: V,
    expires_at: Option<Instant>,
    now: Instant,
    later: Instant,
)
    requires
        expiry_index::ordered::<K>(),
        s.entries.dom().finite(),
    ensures
        ({
            let stored = s.entries.insert(k, TimedEntry { expires_at, value: v });
            let t = s.put(k, v, expires_at, now).settle(false, now);
            &&& no_new_entries(stored, t.entries)
            &&& next_left_first(stored, t.entries)
            &&& t.entries.len() == match s.max_size {
                Some(m) if stored.len() > m => m as nat,
                _ => stored.len(),
            }
            &&& t.entries.contains_key(k) ==> t.live(k, later) == if expires_at is Some
                && expires_at->0.nanos <= later.nanos {
                None
            } else {
                Some(v)
            }
            &&& !t.entries.contains_key(k) ==> t.live(k, later) is None && s.max_size is Some
        }),
{
    let put = s.put(k, v, expires_at, now);
    law_settling_takes_out_the_surplus(put, false, now);
    assert(put.entries == s.entries.insert(k, TimedEntry { expires_at, value: v }));
}

/// A cache that was built has no entries, counters at zero, and the settings that were given.
pub proof fn law_built_as_asked<K, V, S>(b: TtlSortedCacheBuilder<K, V, S>, clock: Clock)
    requires
        b.ttl is Some,
    ensures
        ({
            let s = b.fresh(clock);
            &&& s.clock == clock
            &&& s.entries.dom() == Set::<K>::empty()
            &&& Some(s.ttl) == b.ttl
            &&& s.max_size == b.size
            &&& s.hits == 0 && s.misses == 0 && s.evictions == 0
            &&& s.callback == b.on_evict
            &&& s.heard.len() == 0
        }),
{
    assert(b.fresh(clock).entries.dom() =~= Set::<K>::empty());
}

} // verus!
