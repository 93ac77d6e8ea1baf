//! What the operations on the shards of a cache do, entry by entry and counter by counter.
use crate::stores::expiry::{self, TimedEntry};
use crate::stores::sharded::hasher::{self, ShardHasher};
use crate::stores::sharded::shard::{self, Shard, Tally};
use crate::stores::sharded::ttl::ShardedTtlCache;
use crate::stores::sharded::ttl_store::{self, Found, Glance, TtlStore};
use crate::stores::sharded::unbound::ShardedUnboundCache;
use crate::stores::sharded::unbound_store::{self, UnboundStore};
use crate::stores::sweep;
use crate::stores::table;
use crate::stores::ttl_laws::{holds, one_ttl_after, same_but_for};
use crate::time::{Duration, Instant, Moment};
use std::hash::Hash;
use vstd::prelude::*;

verus! {

/// Whether `value` is a clone of the value under `k`, if that is stored and not due, and else there
/// is none.
pub open spec fn gives_clone<K, V: Clone>(
    m: Map<K, TimedEntry<V>>,
    k: K,
    now: Instant,
    value: Option<V>,
) -> bool {
    match value {
        Some(v) => holds(m, k, now) && cloned(m[k].value, v),
        None => !holds(m, k, now),
    }
}

/// What is found in a shard is what is stored there and not due.
pub proof fn law_shard_finds_what_is_not_due<K, V: Clone>(
    m: Map<K, TimedEntry<V>>,
    k: K,
    now: Instant,
    value: Option<V>,
    g: Glance<V>,
    r: (Option<V>, bool),
)
    ensures
        ttl_store::live(m, k, now) <==> holds(m, k, now),
        ttl_store::answers(m, k, now, value) <==> gives_clone(m, k, now, value),
        ttl_store::displaces(m, k, now, value) <==> value == if holds(m, k, now) {
            Some(m[k].value)
        } else {
            None
        },
        ttl_store::sees(m, k, now, g) ==> gives_clone(m, k, now, ttl_store::seen_value(g)),
        ttl_store::sees(m, k, now, g) && g is Expired ==> m.contains_key(k),
        ttl_store::sees(m, k, now, g) && g is Absent ==> !m.contains_key(k),
        ttl_store::reports(m, k, now, r) <==> match r.0 {
            Some(v) => m.contains_key(k) && cloned(m[k].value, v) && r.1 == !holds(m, k, now),
            None => !m.contains_key(k) && !r.1,
        },
{
}

/// Whether `after` is the deadline of an entry with the deadline `before` that a hit renews at
/// `now` with `ttl`: one time to live from now, or the one that it has where that never comes.
pub open spec fn renews(
    ttl: Duration,
    now: Instant,
    before: Option<Instant>,
    after: Option<Instant>,
) -> bool {
    if one_ttl_after(ttl, now, None) {
        after == before
    } else {
        one_ttl_after(ttl, now, after)
    }
}

/// Whether `post` follows from `pre` by a hit of `k` at `now` that renews it with `renewal`, if
/// that is given.
pub open spec fn follows_hit<K, V>(
    pre: Map<K, TimedEntry<V>>,
    post: Map<K, TimedEntry<V>>,
    k: K,
    now: Instant,
    renewal: Option<Duration>,
) -> bool {
    &&& same_but_for(pre, post, k)
    &&& post.contains_key(k) && post[k].value == pre[k].value
    &&& match renewal {
        Some(ttl) => renews(ttl, now, pre[k].expires_at, post[k].expires_at),
        None => post[k].expires_at == pre[k].expires_at,
    }
}

/// A look-up in a shard is a hit if the entry is not due, and leaves it there, renewed where that
/// is asked for. If it is due, it is a miss, and the entry leaves as evicted. Else it is a miss
/// that changes nothing. No other entry changes.
pub proof fn law_shard_look_up<K, V: Clone>(
    pre: Map<K, TimedEntry<V>>,
    post: Map<K, TimedEntry<V>>,
    k: K,
    now: Instant,
    renewal: Option<Duration>,
    f: Found<K, V>,
)
    requires
        ttl_store::looks_up(pre, post, k, now, renewal, f),
    ensures
        gives_clone(pre, k, now, f.value),
        same_but_for(pre, post, k),
        holds(pre, k, now) ==> {
            &&& follows_hit(pre, post, k, now, renewal)
            &&& f.evicted is None
            &&& f.tally.hits == 1 && f.tally.misses == 0 && f.tally.evictions == 0
        },
        pre.contains_key(k) && !holds(pre, k, now) ==> {
            &&& !post.contains_key(k)
            &&& f.evicted == Some((k, pre[k]))
            &&& f.tally.hits == 0 && f.tally.misses == 1 && f.tally.evictions == 1
        },
        !pre.contains_key(k) ==> {
            &&& post == pre
            &&& f.evicted is None
            &&& f.tally.hits == 0 && f.tally.misses == 1 && f.tally.evictions == 0
        },
{
}

/// A write in a shard stores the value with a deadline one time to live from now. It returns the
/// value that it displaces unless that was due; then it is evicted. It is neither a hit nor a miss,
/// and no other entry changes.
pub proof fn law_shard_write<K, V>(
    pre: Map<K, TimedEntry<V>>,
    post: Map<K, TimedEntry<V>>,
    k: K,
    v: V,
    now: Instant,
    ttl: Duration,
    f: Found<K, V>,
)
    requires
        ttl_store::writes(pre, post, k, v, now, ttl, f),
    ensures
        same_but_for(pre, post, k),
        post.contains_key(k) && post[k].value == v,
        one_ttl_after(ttl, now, post[k].expires_at),
        f.value == if holds(pre, k, now) {
            Some(pre[k].value)
        } else {
            None
        },
        f.evicted == if pre.contains_key(k) && !holds(pre, k, now) {
            Some((k, pre[k]))
        } else {
            None
        },
        f.tally.hits == 0 && f.tally.misses == 0,
        f.tally.evictions == if f.evicted is Some {
            1u64
        } else {
            0u64
        },
{
}

/// What is taken out of a shard is the entry of the key, expired or not, and no other. Its value is
/// handed out unless it was due.
pub proof fn law_shard_removal<K, V>(
    pre: Map<K, TimedEntry<V>>,
    post: Map<K, TimedEntry<V>>,
    k: K,
    now: Instant,
    taken: Option<(K, TimedEntry<V>)>,
)
    requires
        ttl_store::takes_one(pre, post, k, taken),
    ensures
        same_but_for(pre, post, k) && !post.contains_key(k),
        taken == if pre.contains_key(k) {
            Some((k, pre[k]))
        } else {
            None
        },
        ttl_store::stripped(taken) == if pre.contains_key(k) {
            Some((k, pre[k].value))
        } else {
            None
        },
        ttl_store::value_unless_expired(taken, now) == if holds(pre, k, now) {
            Some(pre[k].value)
        } else {
            None
        },
{
}

/// A status report of a shard leaves every entry there. Only an entry that is not due is renewed,
/// where that is asked for. It counts as a hit for a value that is not due, and else as a miss.
pub proof fn law_shard_status<K, V: Clone>(
    pre: Map<K, TimedEntry<V>>,
    post: Map<K, TimedEntry<V>>,
    k: K,
    now: Instant,
    renewal: Option<Duration>,
    r: (Option<V>, bool),
)
    requires
        ttl_store::reads_status(pre, post, k, now, renewal, r),
    ensures
        r.0 matches Some(v) ==> pre.contains_key(k) && cloned(pre[k].value, v),
        r.0 is None ==> !pre.contains_key(k),
        r.1 == (pre.contains_key(k) && !holds(pre, k, now)),
        same_but_for(pre, post, k),
        holds(pre, k, now) ==> follows_hit(pre, post, k, now, renewal),
        !holds(pre, k, now) ==> post == pre,
        ttl_store::status_tally(r) == (Tally {
            hits: if holds(pre, k, now) {
                1
            } else {
                0
            },
            misses: if holds(pre, k, now) {
                0
            } else {
                1
            },
            evictions: 0,
        }),
{
}

/// Whether `copy` is a copy of the entry of `q`, with its deadline.
pub open spec fn copy_of_entry<K: Clone, V: Clone>(
    m: Map<K, TimedEntry<V>>,
    q: K,
    copy: (K, TimedEntry<V>),
) -> bool {
    cloned(q, copy.0) && copy.1.expires_at == m[q].expires_at && cloned(m[q].value, copy.1.value)
}

/// Copies of the live entries are made of entries that are stored and not due, with their
/// deadlines.
pub proof fn law_shard_copies_only_what_is_not_due<K: Clone, V: Clone>(
    m: Map<K, TimedEntry<V>>,
    now: Instant,
    list: Seq<(K, TimedEntry<V>)>,
    i: int,
)
    requires
        ttl_store::copies_live(m, now, list),
        0 <= i < list.len(),
    ensures
        exists|q: K| holds(m, q, now) && #[trigger] copy_of_entry(m, q, list[i]),
{
    assert(ttl_store::is_copy(m, now, list[i]));
    let q = choose|q: K| #[trigger] ttl_store::copies_live_one(m, now, q, list[i]);
    assert(copy_of_entry(m, q, list[i]));
}

/// Copies of the live entries are made of all entries that are stored and not due.
pub proof fn law_shard_copies_all_that_is_not_due<K: Clone, V: Clone>(
    m: Map<K, TimedEntry<V>>,
    now: Instant,
    list: Seq<(K, TimedEntry<V>)>,
    q: K,
)
    requires
        ttl_store::copies_live(m, now, list),
        holds(m, q, now),
    ensures
        exists|i: int| 0 <= i < list.len() && #[trigger] copy_of_entry(m, q, list[i]),
{
    assert(ttl_store::live(m, q, now));
    let i = choose|i: int|
        0 <= i < list.len() && #[trigger] ttl_store::copies_live_one(m, now, q, list[i]);
    assert(copy_of_entry(m, q, list[i]));
}

/// What a sweep of a shard takes out are the entries that are due, each once, and what it leaves
/// are the others, as they were.
pub proof fn law_shard_sweep<K, V>(
    m: Map<K, TimedEntry<V>>,
    left: Map<K, TimedEntry<V>>,
    now: Instant,
    taken: Seq<(K, TimedEntry<V>)>,
)
    requires
        sweep::sweeps(m, now, sweep::taken_keys(taken)),
        sweep::takes(m, left, taken),
    ensures
        forall|k: K| #[trigger] left.contains_key(k) <==> holds(m, k, now),
        forall|k: K| #[trigger] left.contains_key(k) ==> left[k] == m[k],
        forall|i: int|
            0 <= i < taken.len() ==> m.contains_key((#[trigger] taken[i]).0) && !holds(
                m,
                taken[i].0,
                now,
            ) && taken[i].1.value == m[taken[i].0].value,
        forall|i: int, j: int|
            0 <= i < j < taken.len() ==> (#[trigger] taken[i]).0 != (#[trigger] taken[j]).0,
{
    let keys = sweep::taken_keys(taken);
    assert forall|i: int| 0 <= i < taken.len() implies m.contains_key((#[trigger] taken[i]).0)
        && !holds(m, taken[i].0, now) && taken[i].1.value == m[taken[i].0].value by {
        assert(keys[i] == taken[i].0);
        assert(m.contains_key(keys[i]));
        assert(keys.contains(keys[i]));
    }
    assert forall|i: int, j: int| 0 <= i < j < taken.len() implies (#[trigger] taken[i]).0 != (
    #[trigger] taken[j]).0 by {
        assert(keys[i] == taken[i].0 && keys[j] == taken[j].0);
    }
    assert forall|k: K| #[trigger] left.contains_key(k) <==> holds(m, k, now) by {
        if m.contains_key(k) {
            assert(m[k].expired(now) <==> keys.contains(k));
        }
    }
}

/// What is sifted out of a shard was due, or was not and was rejected; what is left was not due and
/// was accepted, and is as it was.
pub proof fn law_shard_sift<K, V, F: FnMut(&K, &V) -> bool>(
    m: Map<K, TimedEntry<V>>,
    left: Map<K, TimedEntry<V>>,
    keep: F,
    now: Instant,
    taken: Seq<(K, TimedEntry<V>)>,
)
    requires
        sweep::retains(m, keep, now, sweep::taken_keys(taken)),
        sweep::takes(m, left, taken),
    ensures
        forall|k: K| #[trigger]
            left.contains_key(k) ==> holds(m, k, now) && left[k] == m[k] && keep.ensures(
                (&k, &m[k].value),
                true,
            ),
        forall|k: K|
            holds(m, k, now) && !#[trigger] left.contains_key(k) ==> keep.ensures(
                (&k, &m[k].value),
                false,
            ),
        forall|i: int|
            0 <= i < taken.len() ==> m.contains_key((#[trigger] taken[i]).0) && !left.contains_key(
                taken[i].0,
            ) && taken[i].1.value == m[taken[i].0].value,
{
    let keys = sweep::taken_keys(taken);
    assert forall|i: int| 0 <= i < taken.len() implies m.contains_key((#[trigger] taken[i]).0)
        && !left.contains_key(taken[i].0) && taken[i].1.value == m[taken[i].0].value by {
        assert(keys[i] == taken[i].0);
        assert(m.contains_key(keys[i]));
        assert(keys.contains(keys[i]));
    }
    assert forall|k: K| #[trigger] left.contains_key(k) implies holds(m, k, now) && left[k] == m[k]
        && keep.ensures((&k, &m[k].value), true) by {
        assert(m.contains_key(k));
        assert(!keys.contains(k));
    }
    assert forall|k: K| holds(m, k, now) && !#[trigger] left.contains_key(k) implies keep.ensures(
        (&k, &m[k].value),
        false,
    ) by {
        assert(m.contains_key(k));
        assert(keys.contains(k));
    }
}

/// Whether `b` has the values of `a` but for the one under `k`, if there is one.
pub open spec fn same_values_but_for<K, V>(a: Map<K, V>, b: Map<K, V>, k: K) -> bool {
    forall|q: K|
        q != k ==> #[trigger] b.contains_key(q) == a.contains_key(q) && (a.contains_key(q) ==> b[q]
            == a[q])
}

/// In a shard without expiry, a look-up finds a clone of what is stored, a removal takes out the
/// entry of its key and no other, and a look-up counts as a hit exactly if it finds something.
pub proof fn law_unbound_shard<K, V: Clone>(
    pre: Map<K, V>,
    post: Map<K, V>,
    k: K,
    value: Option<V>,
    taken: Option<(K, V)>,
)
    ensures
        unbound_store::answers(pre, k, value) <==> match value {
            Some(v) => pre.contains_key(k) && cloned(pre[k], v),
            None => !pre.contains_key(k),
        },
        unbound_store::displaces(pre, k, value) <==> match value {
            Some(v) => pre.contains_key(k) && pre[k] == v,
            None => !pre.contains_key(k),
        },
        unbound_store::takes_one(pre, post, k, taken) ==> {
            &&& same_values_but_for(pre, post, k) && !post.contains_key(k)
            &&& match taken {
                Some(e) => pre.contains_key(k) && e.0 == k && e.1 == pre[k],
                None => !pre.contains_key(k),
            }
            &&& unbound_store::value_of(taken) is Some <==> pre.contains_key(k)
            &&& unbound_store::value_of(taken) matches Some(v) ==> v == pre[k]
        },
        unbound_store::look_up_tally(value) == (Tally {
            hits: if value is Some {
                1
            } else {
                0
            },
            misses: if value is Some {
                0
            } else {
                1
            },
            evictions: 0,
        }),
{
}

/// What is sifted out of a shard without expiry was rejected, and what is left was accepted, and is
/// as it was.
pub proof fn law_unbound_shard_sift<K, V, F: FnMut(&K, &V) -> bool>(
    pre: Map<K, V>,
    post: Map<K, V>,
    keep: F,
    taken: Seq<(K, V)>,
)
    requires
        unbound_store::takes_rejected(pre, post, keep, taken),
    ensures
        forall|k: K| #[trigger]
            post.contains_key(k) ==> pre.contains_key(k) && post[k] == pre[k] && keep.ensures(
                (&k, &pre[k]),
                true,
            ),
        forall|k: K|
            pre.contains_key(k) && !#[trigger] post.contains_key(k) ==> keep.ensures(
                (&k, &pre[k]),
                false,
            ),
        forall|i: int|
            0 <= i < taken.len() ==> pre.contains_key((#[trigger] taken[i]).0)
                && !post.contains_key(taken[i].0) && taken[i].1 == pre[taken[i].0],
        forall|i: int, j: int|
            0 <= i < j < taken.len() ==> (#[trigger] taken[i]).0 != (#[trigger] taken[j]).0,
        forall|k: K|
            pre.contains_key(k) && !#[trigger] post.contains_key(k) ==> exists|i: int|
                0 <= i < taken.len() && (#[trigger] taken[i]).0 == k,
{
    let out = pre.remove_keys(post.dom());
    assert forall|k: K| #[trigger] post.contains_key(k) implies pre.contains_key(k) && post[k]
        == pre[k] && keep.ensures((&k, &pre[k]), true) by {
        assert(pre.restrict(post.dom()).contains_key(k));
    }
    assert forall|k: K| pre.contains_key(k) && !#[trigger] post.contains_key(k) implies
    keep.ensures((&k, &pre[k]), false) && exists|i: int|
        0 <= i < taken.len() && (#[trigger] taken[i]).0 == k by {
        assert(out.contains_key(k));
    }
    assert forall|i: int| 0 <= i < taken.len() implies pre.contains_key((#[trigger] taken[i]).0)
        && !post.contains_key(taken[i].0) && taken[i].1 == pre[taken[i].0] by {
        assert(out.contains_key(taken[i].0));
    }
}

/// A copy of a shard without expiry has all its keys, each with a clone of its value, and no
/// others.
pub proof fn law_unbound_shard_copies<K, V: Clone>(m: Map<K, V>, copy: Map<K, V>, k: K)
    requires
        unbound_store::copies(m, copy),
    ensures
        copy.contains_key(k) == m.contains_key(k),
        m.contains_key(k) ==> cloned(m[k], copy[k]),
{
    assert(copy.dom().contains(k) == m.dom().contains(k));
}

/// Whether `copy` is a copy of the entry of `q`.
pub open spec fn copy_of_pair<K: Clone, V: Clone>(m: Map<K, V>, q: K, copy: (K, V)) -> bool {
    m.contains_key(q) && cloned(q, copy.0) && cloned(m[q], copy.1)
}

/// A list of copies of the entries of a shard without expiry has only copies of its entries.
pub proof fn law_unbound_shard_lists_only_entries<K: Clone, V: Clone>(
    m: Map<K, V>,
    list: Seq<(K, V)>,
    i: int,
)
    requires
        unbound_store::copies_all(m, list),
        0 <= i < list.len(),
    ensures
        exists|q: K| #[trigger] copy_of_pair(m, q, list[i]),
{
    assert(unbound_store::is_copy(m, list[i]));
    let q = choose|q: K| #[trigger] unbound_store::copies_one(m, q, list[i]);
    assert(copy_of_pair(m, q, list[i]));
}

/// A list of copies of the entries of a shard without expiry has a copy of each.
pub proof fn law_unbound_shard_lists_all_entries<K: Clone, V: Clone>(
    m: Map<K, V>,
    list: Seq<(K, V)>,
    q: K,
)
    requires
        unbound_store::copies_all(m, list),
        m.contains_key(q),
    ensures
        exists|i: int| 0 <= i < list.len() && #[trigger] copy_of_pair(m, q, list[i]),
{
    let i = choose|i: int|
        0 <= i < list.len() && #[trigger] unbound_store::copies_one(m, q, list[i]);
    assert(copy_of_pair(m, q, list[i]));
}

/// Sums over shards: of none it is zero, and each shard adds its own count. Counters wrap, and
/// sizes stop at the greatest number. The counts are those of the readings, shard by shard.
pub proof fn law_sums_over_shards(
    counts: Seq<u64>,
    c: u64,
    sizes: Seq<usize>,
    n: usize,
    tallies: Seq<Tally>,
    i: int,
)
    requires
        0 <= i < tallies.len(),
    ensures
        shard::total(Seq::<u64>::empty()) == 0,
        shard::total(counts.push(c)) == shard::total(counts) + c,
        shard::total(counts) <= u64::MAX ==> shard::wrapped(counts) == shard::total(counts),
        shard::total_size(Seq::<usize>::empty()) == 0,
        shard::total_size(sizes.push(n)) == shard::total_size(sizes) + n,
        shard::total_size(sizes) <= usize::MAX ==> shard::capped_size(sizes) == shard::total_size(
            sizes,
        ),
        shard::total_size(sizes) > usize::MAX ==> shard::capped_size(sizes) == usize::MAX,
        shard::hits_of(tallies).len() == tallies.len() && shard::hits_of(tallies)[i]
            == tallies[i].hits,
        shard::misses_of(tallies).len() == tallies.len() && shard::misses_of(tallies)[i]
            == tallies[i].misses,
        shard::evictions_of(tallies).len() == tallies.len() && shard::evictions_of(tallies)[i]
            == tallies[i].evictions,
{
    assert(counts.push(c).drop_last() =~= counts);
    assert(sizes.push(n).drop_last() =~= sizes);
    if shard::total(counts) <= u64::MAX {
        vstd::arithmetic::div_mod::lemma_small_mod(
            shard::total(counts),
            0x1_0000_0000_0000_0000,
        );
    }
}

/// The shard of a key is chosen by the upper half of its hash: the bits that the mask has.
pub proof fn law_upper_bits_choose(hash: u64, mask: usize)
    ensures
        hasher::index_of(hash, mask) == (((hash / 0x1_0000_0000) as usize) & mask),
{
    assert(hash >> 32 == hash / 0x1_0000_0000) by (bit_vector);
}

/// A status report counts on the shard of its key as a hit or as a miss, and as no eviction.
pub proof fn law_status_is_counted<K: Hash + Eq, V: Clone, H: ShardHasher<K>>(
    c: ShardedTtlCache<K, V, H>,
    k: K,
    when: Moment,
    r: (Option<V>, bool),
)
    requires
        c.looks_up_status(k, when, r),
    ensures
        exists|i: int| #[trigger]
            c.places(k, i) && c.shard(i).adds_reads(
                Tally {
                    hits: if r.0 is Some && !r.1 {
                        1
                    } else {
                        0
                    },
                    misses: if r.0 is Some && !r.1 {
                        0
                    } else {
                        1
                    },
                    evictions: 0,
                },
            ),
        r.1 ==> r.0 is Some,
{
}

/// What a clearing that tells takes out of a shard is counted there, as evicted, and each entry is
/// told of with its value.
pub proof fn law_drain_is_counted_and_told<K: Hash + Eq, V, H: ShardHasher<K>>(
    c: ShardedTtlCache<K, V, H>,
    i: int,
)
    requires
        c.drained(),
        0 <= i < c.shard_count(),
    ensures
        exists|removed: Vec<(K, TimedEntry<V>)>|
            {
                &&& #[trigger] call_ensures(
                    Shard::write,
                    (&c.shard(i), (), TtlStore::<K, V>::take_all),
                    removed,
                )
                &&& c.shard(i).adds_evictions(removed.len() as u64)
                &&& forall|j: int|
                    0 <= j < removed.len() ==> shard::told(
                        c.callback(),
                        (#[trigger] removed[j]).0,
                        removed[j].1.value,
                    )
            },
{
    assert(c.drained_shard(i));
    let (removed, held) = choose|removed: Vec<(K, TimedEntry<V>)>, held: Map<K, TimedEntry<V>>|
        {
            &&& call_ensures(
                Shard::write,
                (&c.shard(i), (), TtlStore::<K, V>::take_all),
                removed,
            )
            &&& #[trigger] table::enumerates(removed@, held)
            &&& c.settled_all(i, removed@)
        };
    assert(call_ensures(Shard::write, (&c.shard(i), (), TtlStore::<K, V>::take_all), removed));
}

/// What a sweep takes out of a shard was due there; it is counted, and each entry is told of.
pub proof fn law_sweep_is_counted_and_told<K: Hash + Eq, V, H: ShardHasher<K>>(
    c: ShardedTtlCache<K, V, H>,
    now: Instant,
    counts: Seq<usize>,
    i: int,
)
    requires
        c.sweeps(now, counts),
        0 <= i < c.shard_count(),
    ensures
        counts.len() == c.shard_count(),
        exists|removed: Vec<(K, TimedEntry<V>)>, held: Map<K, TimedEntry<V>>|
            {
                &&& call_ensures(
                    Shard::write,
                    (&c.shard(i), now, TtlStore::<K, V>::take_expired),
                    removed,
                )
                &&& counts[i] == removed.len()
                &&& c.shard(i).adds_evictions(removed.len() as u64)
                &&& #[trigger] sweep::takes(
                    held,
                    held.remove_keys(sweep::taken_keys(removed@).to_set()),
                    removed@,
                )
                &&& forall|j: int|
                    0 <= j < removed.len() ==> held.contains_key((#[trigger] removed[j]).0)
                        && !holds(held, removed[j].0, now) && shard::told(
                        c.callback(),
                        removed[j].0,
                        removed[j].1.value,
                    )
            },
{
    assert(c.sweeps_shard(i, now, counts[i]));
    let (removed, held) = choose|removed: Vec<(K, TimedEntry<V>)>, held: Map<K, TimedEntry<V>>|
        {
            &&& call_ensures(
                Shard::write,
                (&c.shard(i), now, TtlStore::<K, V>::take_expired),
                removed,
            )
            &&& #[trigger] sweep::sweeps(held, now, sweep::taken_keys(removed@))
            &&& sweep::takes(
                held,
                held.remove_keys(sweep::taken_keys(removed@).to_set()),
                removed@,
            )
            &&& counts[i] == removed.len()
            &&& c.settled_all(i, removed@)
        };
    law_shard_sweep(
        held,
        held.remove_keys(sweep::taken_keys(removed@).to_set()),
        now,
        removed@,
    );
}

/// The steps that a look-up which goes on to fill states are on the shard of its key, and change no
/// entry of it but that of the key: the look-up, and where it finds nothing, one write of a clone
/// of what was made, after it was made.
pub proof fn law_get_or_set_steps<K: Hash + Eq, V: Clone, H: ShardHasher<K>, F: FnOnce() -> V>(
    c: ShardedTtlCache<K, V, H>,
    k: K,
    f: F,
    v: V,
)
    requires
        c.gets_or_sets(k, f, v),
    ensures
        exists|found: Found<K, V>| #[trigger]
            c.looks_up(k, Moment::Present(c.timepiece()), found) && c.explains(
                k,
                Moment::Present(c.timepiece()),
                found,
            ) && match found.value {
                Some(w) => v == w,
                None => f.ensures((), v) && exists|copy: V, now: Instant, put: Found<K, V>|
                    {
                        &&& #[trigger] c.writes(k, copy, now, put)
                        &&& cloned(v, copy)
                        &&& c.timepiece().shows_after(copy, now)
                    },
            },
        forall|
            pre: Map<K, TimedEntry<V>>,
            post: Map<K, TimedEntry<V>>,
            now: Instant,
            renewal: Option<Duration>,
            found: Found<K, V>,
        | #[trigger]
            ttl_store::looks_up(pre, post, k, now, renewal, found) ==> same_but_for(pre, post, k),
        forall|
            pre: Map<K, TimedEntry<V>>,
            post: Map<K, TimedEntry<V>>,
            copy: V,
            now: Instant,
            ttl: Duration,
            put: Found<K, V>,
        | #[trigger]
            ttl_store::writes(pre, post, k, copy, now, ttl, put) ==> same_but_for(pre, post, k),
{
}

/// The steps that a copy of a cache without expiry states are, for each shard of the source, one
/// reading of it, and one write in the copy for each entry that was read.
pub proof fn law_copy_reads_its_source<
    K: Hash + Eq + Clone,
    V: Clone,
    H: ShardHasher<K>,
    H2: ShardHasher<K>,
>(c: ShardedUnboundCache<K, V, H>, source: ShardedUnboundCache<K, V, H2>, j: int)
    requires
        c.takes_over(source),
        0 <= j < source.shard_count(),
    ensures
        exists|list: Vec<(K, V)>, held: Map<K, V>|
            {
                &&& call_ensures(
                    Shard::read,
                    (&source.shard(j), (), UnboundStore::<K, V>::entries),
                    list,
                )
                &&& #[trigger] unbound_store::copies_all(held, list@)
                &&& forall|n: int|
                    0 <= n < list.len() ==> c.takes_in((#[trigger] list[n]).0, list[n].1)
            },
{
    assert(c.takes_over_shard(source.shard(j)));
}

} // verus!
