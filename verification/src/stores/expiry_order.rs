//! The order in which entries leave a cache that drops the next ones to expire.
use crate::stores::expiry::TimedEntry;
use crate::stores::expiry_index;
use crate::time::Instant;
use vstd::prelude::*;

verus! {

/// Whether the entry of `a` leaves before the entry of `b`: its deadline is earlier, or it is the
/// same and its key is smaller.
pub open spec fn leaves_first<K: Ord, V>(entries: Map<K, TimedEntry<V>>, a: K, b: K) -> bool {
    ||| expiry_index::deadline_before(entries[a].expires_at, entries[b].expires_at)
    ||| entries[a].expires_at == entries[b].expires_at && expiry_index::key_before(a, b)
}

/// Whether `keys` are all keys of `entries`, in the order in which they leave.
pub open spec fn in_expiry_order<K: Ord, V>(
    keys: Seq<K>,
    entries: Map<K, TimedEntry<V>>,
) -> bool {
    &&& forall|i: int| 0 <= i < keys.len() ==> entries.contains_key(#[trigger] keys[i])
    &&& forall|k: K|
        #[trigger] entries.contains_key(k) ==> exists|i: int|
            0 <= i < keys.len() && #[trigger] keys[i] == k
    &&& forall|i: int, j: int|
        0 <= i < j < keys.len() ==> leaves_first(entries, #[trigger] keys[i], #[trigger] keys[j])
}

/// The keys of `entries` in the order in which they leave.
pub open spec fn expiry_order<K: Ord, V>(entries: Map<K, TimedEntry<V>>) -> Seq<K> {
    choose|keys: Seq<K>| in_expiry_order(keys, entries)
}

/// The keys whose deadline lies before `cutoff`.
pub open spec fn past<K, V>(entries: Map<K, TimedEntry<V>>, cutoff: Instant) -> Set<K> {
    entries.dom().filter(
        |k: K| expiry_index::deadline_before(entries[k].expires_at, Some(cutoff)),
    )
}

/// Two lists of the same keys in expiry order are the same list.
pub proof fn lemma_order_unique<K: Ord, V>(
    a: Seq<K>,
    b: Seq<K>,
    entries: Map<K, TimedEntry<V>>,
)
    requires
        expiry_index::ordered::<K>(),
        in_expiry_order(a, entries),
        in_expiry_order(b, entries),
    ensures
        a == b,
    decreases a.len(),
{
    lemma_leaves_first_ordered(entries);
    if a.len() == 0 {
        if b.len() > 0 {
            assert(entries.contains_key(b[0]));
        }
        assert(a =~= b);
    } else {
        assert(entries.contains_key(a[0]));
        let j = choose|j: int| 0 <= j < b.len() && #[trigger] b[j] == a[0];
        assert(entries.contains_key(b[0]));
        let i = choose|i: int| 0 <= i < a.len() && #[trigger] a[i] == b[0];
        if a[0] != b[0] {
            assert(leaves_first(entries, b[0], b[j]));
            assert(leaves_first(entries, a[0], a[i]));
        }
        let rest = entries.remove(a[0]);
        lemma_order_rest(a, entries);
        lemma_order_rest(b, entries);
        lemma_order_unique(a.skip(1), b.skip(1), rest);
        assert(a =~= seq![a[0]] + a.skip(1));
        assert(b =~= seq![b[0]] + b.skip(1));
    }
}

/// The order in which entries leave is a strict total order on their keys.
pub proof fn lemma_leaves_first_ordered<K: Ord, V>(entries: Map<K, TimedEntry<V>>)
    requires
        expiry_index::ordered::<K>(),
    ensures
        forall|a: K| !#[trigger] leaves_first(entries, a, a),
        forall|a: K, b: K| #[trigger] leaves_first(entries, a, b) ==> !leaves_first(entries, b, a),
        forall|a: K, b: K|
            a != b ==> #[trigger] leaves_first(entries, a, b) || leaves_first(entries, b, a),
        forall|a: K, b: K, c: K|
            #[trigger] leaves_first(entries, a, b) && #[trigger] leaves_first(entries, b, c)
                ==> leaves_first(entries, a, c),
{
    expiry_index::lemma_keys_ordered::<K>();
    assert forall|a: K, b: K| a != b implies #[trigger] leaves_first(entries, a, b)
        || leaves_first(entries, b, a) by {
        if entries[a].expires_at == entries[b].expires_at {
            assert(expiry_index::key_before(a, b) || expiry_index::key_before(b, a));
        }
    }
    assert forall|a: K, b: K, c: K| #[trigger] leaves_first(entries, a, b)
        && #[trigger] leaves_first(entries, b, c) implies leaves_first(entries, a, c) by {
        if entries[a].expires_at == entries[b].expires_at && entries[b].expires_at
            == entries[c].expires_at {
            assert(expiry_index::key_before(a, b) && expiry_index::key_before(b, c));
        }
    }
}

/// How many of `keys`, which are in the order in which they leave, leave before `k`.
pub proof fn lemma_place<K: Ord, V>(
    keys: Seq<K>,
    entries: Map<K, TimedEntry<V>>,
    k: K,
) -> (p: int)
    requires
        expiry_index::ordered::<K>(),
        forall|i: int, j: int|
            0 <= i < j < keys.len() ==> leaves_first(
                entries,
                #[trigger] keys[i],
                #[trigger] keys[j],
            ),
        forall|i: int| 0 <= i < keys.len() ==> #[trigger] keys[i] != k,
    ensures
        0 <= p <= keys.len(),
        forall|i: int| 0 <= i < p ==> leaves_first(entries, #[trigger] keys[i], k),
        forall|i: int| p <= i < keys.len() ==> leaves_first(entries, k, #[trigger] keys[i]),
    decreases keys.len(),
{
    lemma_leaves_first_ordered(entries);
    if keys.len() == 0 {
        0
    } else if leaves_first(entries, keys.last(), k) {
        assert forall|i: int| 0 <= i < keys.len() implies leaves_first(
            entries,
            #[trigger] keys[i],
            k,
        ) by {
            if i < keys.len() - 1 {
                assert(leaves_first(entries, keys[i], keys[keys.len() - 1]));
            }
        }
        keys.len() as int
    } else {
        let rest = keys.drop_last();
        assert forall|i: int, j: int| 0 <= i < j < rest.len() implies leaves_first(
            entries,
            #[trigger] rest[i],
            #[trigger] rest[j],
        ) by {
            assert(leaves_first(entries, keys[i], keys[j]));
        }
        assert forall|i: int| 0 <= i < rest.len() implies #[trigger] rest[i] != k by {
            assert(keys[i] != k);
        }
        let p = lemma_place(rest, entries, k);
        assert(keys[keys.len() - 1] != k);
        assert forall|i: int| 0 <= i < p implies leaves_first(entries, #[trigger] keys[i], k) by {
            assert(rest[i] == keys[i]);
        }
        assert forall|i: int| p <= i < keys.len() implies leaves_first(
            entries,
            k,
            #[trigger] keys[i],
        ) by {
            if i < rest.len() {
                assert(rest[i] == keys[i]);
            }
        }
        p
    }
}

/// The entries of a cache have an order in which they leave: a list of their keys, each once, by
/// deadline and then by key.
pub proof fn lemma_expiry_order<K: Ord, V>(entries: Map<K, TimedEntry<V>>)
    requires
        expiry_index::ordered::<K>(),
        entries.dom().finite(),
    ensures
        in_expiry_order(expiry_order(entries), entries),
        expiry_order(entries).len() == entries.len(),
        expiry_order(entries).no_duplicates(),
    decreases entries.len(),
{
    lemma_leaves_first_ordered(entries);
    if entries.len() == 0 {
        assert(entries.dom() =~= Set::empty());
        let keys = Seq::<K>::empty();
        assert(in_expiry_order(keys, entries));
        let order = expiry_order(entries);
        if order.len() > 0 {
            assert(entries.contains_key(order[0]));
        }
    } else {
        let k = entries.dom().choose();
        let rest = entries.remove(k);
        assert(rest.dom() =~= entries.dom().remove(k));
        lemma_expiry_order(rest);
        let keys = expiry_order(rest);
        assert forall|i: int, j: int| 0 <= i < j < keys.len() implies leaves_first(
            entries,
            #[trigger] keys[i],
            #[trigger] keys[j],
        ) by {
            assert(leaves_first(rest, keys[i], keys[j]));
            assert(rest.contains_key(keys[i]) && rest.contains_key(keys[j]));
        }
        assert forall|i: int| 0 <= i < keys.len() implies #[trigger] keys[i] != k by {
            assert(rest.contains_key(keys[i]));
        }
        let p = lemma_place(keys, entries, k);
        let all = keys.insert(p, k);
        assert forall|i: int| 0 <= i < all.len() implies entries.contains_key(
            #[trigger] all[i],
        ) by {
            if i < p {
                assert(rest.contains_key(keys[i]));
            } else if i > p {
                assert(rest.contains_key(keys[i - 1]));
            }
        }
        lemma_insert_members(keys, p, k);
        assert forall|q: K| #[trigger] entries.contains_key(q) implies exists|i: int|
            0 <= i < all.len() && #[trigger] all[i] == q by {
            if q != k {
                assert(rest.contains_key(q));
                let i = choose|i: int| 0 <= i < keys.len() && #[trigger] keys[i] == q;
                assert(keys.contains(q));
            }
            assert(all.contains(q));
        }
        assert forall|i: int, j: int| 0 <= i < j < all.len() implies leaves_first(
            entries,
            #[trigger] all[i],
            #[trigger] all[j],
        ) by {
            let pi = if i < p { i } else { i - 1 };
            let pj = if j < p { j } else { j - 1 };
            if i != p && j != p {
                assert(leaves_first(entries, keys[pi], keys[pj]));
            } else if i == p {
                assert(leaves_first(entries, k, keys[pj]));
            } else {
                assert(leaves_first(entries, keys[pi], k));
            }
        }
        assert(in_expiry_order(all, entries));
        lemma_order_unique(all, expiry_order(entries), entries);
    }
    let order = expiry_order(entries);
    assert forall|i: int, j: int| 0 <= i < order.len() && 0 <= j < order.len() && i
        != j implies order[i] != order[j] by {
        if i < j {
            assert(leaves_first(entries, order[i], order[j]));
        } else {
            assert(leaves_first(entries, order[j], order[i]));
        }
    }
}

/// Without its first key, a list in expiry order lists the other entries.
pub proof fn lemma_order_rest<K: Ord, V>(keys: Seq<K>, entries: Map<K, TimedEntry<V>>)
    requires
        expiry_index::ordered::<K>(),
        in_expiry_order(keys, entries),
        keys.len() > 0,
    ensures
        in_expiry_order(keys.skip(1), entries.remove(keys[0])),
{
    lemma_leaves_first_ordered(entries);
    let rest = keys.skip(1);
    let left = entries.remove(keys[0]);
    assert forall|i: int, j: int| 0 <= i < j < rest.len() implies leaves_first(
        left,
        #[trigger] rest[i],
        #[trigger] rest[j],
    ) by {
        assert(rest[i] == keys[i + 1] && rest[j] == keys[j + 1]);
        assert(leaves_first(entries, keys[0], keys[i + 1]));
        assert(leaves_first(entries, keys[0], keys[j + 1]));
    }
    assert forall|i: int| 0 <= i < rest.len() implies left.contains_key(#[trigger] rest[i]) by {
        assert(rest[i] == keys[i + 1]);
        assert(leaves_first(entries, keys[0], keys[i + 1]));
    }
    assert forall|k: K| #[trigger] left.contains_key(k) implies exists|i: int|
        0 <= i < rest.len() && #[trigger] rest[i] == k by {
        assert(entries.contains_key(k));
        let i = choose|i: int| 0 <= i < keys.len() && #[trigger] keys[i] == k;
        assert(rest[i - 1] == k);
    }
}

/// The members of a sequence with one more element.
pub proof fn lemma_insert_members<A>(s: Seq<A>, n: int, a: A)
    requires
        0 <= n <= s.len(),
    ensures
        forall|x: A| #[trigger] s.insert(n, a).contains(x) <==> x == a || s.contains(x),
{
    let t = s.insert(n, a);
    assert forall|x: A| #[trigger] t.contains(x) <==> x == a || s.contains(x) by {
        if t.contains(x) {
            let i = choose|i: int| 0 <= i < t.len() && t[i] == x;
            if i < n {
                assert(s[i] == x);
            } else if i > n {
                assert(s[i - 1] == x);
            }
        }
        if s.contains(x) {
            let i = choose|i: int| 0 <= i < s.len() && s[i] == x;
            if i < n {
                assert(t[i] == x);
            } else {
                assert(t[i + 1] == x);
            }
        }
        assert(t[n] == a);
    }
}

/// The set of one key.
pub proof fn lemma_single<K>(k: K)
    ensures
        seq![k].to_set() == set![k],
{
    assert(seq![k][0] == k);
    assert(seq![k].to_set() =~= set![k]);
}

/// The set of the first `n + 1` keys.
pub proof fn lemma_take_one_more<K>(keys: Seq<K>, n: int)
    requires
        0 <= n < keys.len(),
    ensures
        keys.take(n + 1).to_set() == keys.take(n).to_set().insert(keys[n]),
{
    let a = keys.take(n);
    let b = keys.take(n + 1);
    assert forall|k: K| b.to_set().contains(k) == a.to_set().insert(keys[n]).contains(k) by {
        if b.contains(k) {
            let i = choose|i: int| 0 <= i < b.len() && b[i] == k;
            if i < n {
                assert(a[i] == k);
            }
        }
        if a.contains(k) {
            let i = choose|i: int| 0 <= i < a.len() && a[i] == k;
            assert(b[i] == k);
        }
        assert(b[n] == keys[n]);
    }
    assert(b.to_set() =~= a.to_set().insert(keys[n]));
}

/// Removing distinct keys makes a map that much smaller.
pub proof fn lemma_remove_len<K, V>(m: Map<K, V>, gone: Seq<K>)
    requires
        m.dom().finite(),
        gone.no_duplicates(),
        forall|i: int| 0 <= i < gone.len() ==> m.contains_key(#[trigger] gone[i]),
    ensures
        m.remove_keys(gone.to_set()).dom().finite(),
        m.remove_keys(gone.to_set()).len() == m.len() - gone.len(),
{
    let left = m.remove_keys(gone.to_set()).dom();
    assert(left =~= m.dom().difference(gone.to_set()));
    gone.unique_seq_to_set();
    assert(gone.to_set().subset_of(m.dom()));
    vstd::set_lib::lemma_len_subset(gone.to_set(), m.dom());
    vstd::set_lib::lemma_set_intersect_union_lens(left, gone.to_set());
    assert(left.union(gone.to_set()) =~= m.dom());
    assert(left.intersect(gone.to_set()) =~= Set::empty());
}

} // verus!
