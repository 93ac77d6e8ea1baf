//! Entries and the index of their deadlines, kept in step.
use crate::stores::expiry::{self, TimedEntry};
use crate::stores::expiry_index::{self, Stamped};
use crate::stores::expiry_order;
use crate::stores::listener::share;
use crate::time::Instant;
use std::sync::Arc;
use vstd::prelude::*;

verus! {

/// A stored value, its deadline, and the key that it shares with the index.
pub struct Entry<K, V> {
    pub expiry: Option<Instant>,
    pub key: Arc<K>,
    pub value: V,
}

impl<K, V: Clone> Clone for Entry<K, V> {
    fn clone(&self) -> (e: Self)
        ensures
            e.expiry == self.expiry,
            e.key == self.key,
            cloned(self.value, e.value),
    {
        Entry { expiry: self.expiry, key: share(&self.key), value: self.value.clone() }
    }
}

impl<K, V> Entry<K, V> {
    pub open spec fn timed(self) -> TimedEntry<V> {
        TimedEntry { expires_at: self.expiry, value: self.value }
    }

    pub fn as_stamped(&self) -> (s: Stamped<K>)
        ensures
            s.expiry == self.expiry,
            s.key == Some(self.key),
    {
        Stamped { expiry: self.expiry, key: Some(share(&self.key)) }
    }

    /// Whether the deadline has come at `now`.
    pub fn is_expired_at(&self, now: Instant) -> (b: bool)
        ensures
            b == self.timed().expired(now),
    {
        expiry::is_past(self.expiry, now)
    }
}

/// The deadlines and values of stored entries.
pub open spec fn timed<K, V>(m: Map<K, Entry<K, V>>) -> Map<K, TimedEntry<V>> {
    m.map_values(|e: Entry<K, V>| e.timed())
}

/// The keys of stamps.
pub open spec fn stamped_keys<K>(stamps: Seq<Stamped<K>>) -> Seq<K> {
    stamps.map_values(|s: Stamped<K>| *s.key->0)
}

/// Whether an index holds exactly one stamp for each entry, with its deadline and key.
pub open spec fn lockstep<K: Ord, V>(m: Map<K, Entry<K, V>>, stamps: Seq<Stamped<K>>) -> bool {
    &&& expiry_index::indexed(stamps)
    &&& forall|k: K| #[trigger] m.contains_key(k) ==> *m[k].key == k
    &&& forall|i: int|
        0 <= i < stamps.len() ==> {
            &&& m.contains_key(*(#[trigger] stamps[i]).key->0)
            &&& m[*stamps[i].key->0].expiry == stamps[i].expiry
        }
    &&& forall|k: K|
        #[trigger] m.contains_key(k) ==> exists|i: int|
            0 <= i < stamps.len() && *(#[trigger] stamps[i]).key->0 == k
    &&& m.dom().finite()
    &&& stamps.len() == m.len()
}

/// Taking a stamp and its entry out keeps index and entries in step.
pub proof fn lemma_lockstep_take<K: Ord, V>(m: Map<K, Entry<K, V>>, stamps: Seq<Stamped<K>>, n: int)
    requires
        expiry_index::ordered::<K>(),
        lockstep(m, stamps),
        0 <= n < stamps.len(),
    ensures
        lockstep(m.remove(*stamps[n].key->0), stamps.remove(n)),
        m.contains_key(*stamps[n].key->0),
{
    let k = *stamps[n].key->0;
    let m1 = m.remove(k);
    lemma_lockstep_members(m, stamps);
    lemma_remove_members(stamps, n);
    expiry_index::lemma_without_one(stamps, n);
    assert forall|x: Stamped<K>| #[trigger] stamps.remove(n).contains(x) <==> stamps_entry(
        m1,
        x,
    ) by {
        if stamps.contains(x) && *x.key->0 == k {
            assert(x.expiry == stamps[n].expiry);
            assert(x == stamps[n]);
        }
    }
    assert(m1.dom() == m.dom().remove(k));
    lemma_lockstep_from_members(m1, stamps.remove(n));
}

/// Taking the first stamp and its entry out keeps index and entries in step.
pub proof fn lemma_lockstep_pop<K: Ord, V>(m: Map<K, Entry<K, V>>, stamps: Seq<Stamped<K>>)
    requires
        expiry_index::ordered::<K>(),
        lockstep(m, stamps),
        stamps.len() > 0,
    ensures
        lockstep(m.remove(*stamps[0].key->0), stamps.skip(1)),
        m.contains_key(*stamps[0].key->0),
{
    lemma_lockstep_take(m, stamps, 0);
    assert(stamps.remove(0) =~= stamps.skip(1));
}

/// Whether `x` is the stamp of an entry.
pub open spec fn stamps_entry<K, V>(m: Map<K, Entry<K, V>>, x: Stamped<K>) -> bool {
    &&& x.key is Some
    &&& m.contains_key(*x.key->0)
    &&& m[*x.key->0].expiry == x.expiry
}

/// An index in step with its entries holds their stamps and no other.
pub proof fn lemma_lockstep_members<K: Ord, V>(m: Map<K, Entry<K, V>>, stamps: Seq<Stamped<K>>)
    requires
        lockstep(m, stamps),
    ensures
        forall|x: Stamped<K>| #[trigger] stamps.contains(x) <==> stamps_entry(m, x),
{
    assert forall|x: Stamped<K>| stamps_entry(m, x) implies #[trigger] stamps.contains(x) by {
        let k = *x.key->0;
        assert(m.contains_key(k));
        let i = choose|i: int| 0 <= i < stamps.len() && *(#[trigger] stamps[i]).key->0 == k;
        assert(stamps[i] == x);
    }
}

/// An index that holds the stamps of all entries, and no other, is in step with them.
pub proof fn lemma_lockstep_from_members<K: Ord, V>(m: Map<K, Entry<K, V>>, stamps: Seq<Stamped<K>>)
    requires
        expiry_index::indexed(stamps),
        m.dom().finite(),
        stamps.len() == m.len(),
        forall|k: K| #[trigger] m.contains_key(k) ==> *m[k].key == k,
        forall|x: Stamped<K>| #[trigger] stamps.contains(x) <==> stamps_entry(m, x),
    ensures
        lockstep(m, stamps),
{
    assert forall|i: int| 0 <= i < stamps.len() implies {
        &&& m.contains_key(*(#[trigger] stamps[i]).key->0)
        &&& m[*stamps[i].key->0].expiry == stamps[i].expiry
    } by {
        assert(stamps.contains(stamps[i]));
    }
    assert forall|k: K| #[trigger] m.contains_key(k) implies exists|i: int|
        0 <= i < stamps.len() && *(#[trigger] stamps[i]).key->0 == k by {
        let x = Stamped { expiry: m[k].expiry, key: Some(m[k].key) };
        assert(stamps_entry(m, x));
        assert(stamps.contains(x));
        let i = choose|i: int| 0 <= i < stamps.len() && stamps[i] == x;
        assert(*stamps[i].key->0 == k);
    }
}

/// The members of an index without its `n`th stamp.
pub proof fn lemma_remove_members<K: Ord>(s: Seq<Stamped<K>>, n: int)
    requires
        expiry_index::ordered::<K>(),
        expiry_index::indexed(s),
        0 <= n < s.len(),
    ensures
        forall|x: Stamped<K>| #[trigger]
            s.remove(n).contains(x) <==> x != s[n] && s.contains(x),
{
    expiry_index::lemma_stamps_ordered::<K>();
    let t = s.remove(n);
    assert forall|x: Stamped<K>| #[trigger] t.contains(x) <==> x != s[n] && s.contains(x) by {
        if t.contains(x) {
            let i = choose|i: int| 0 <= i < t.len() && t[i] == x;
            if i < n {
                assert(s[i] == x);
                assert(s[i].before(s[n]));
            } else {
                assert(s[i + 1] == x);
                assert(s[n].before(s[i + 1]));
            }
        }
        if x != s[n] && s.contains(x) {
            let i = choose|i: int| 0 <= i < s.len() && s[i] == x;
            if i < n {
                assert(t[i] == x);
            } else {
                assert(t[i - 1] == x);
            }
        }
    }
}

/// The keys of an index in step with its entries are the expiry order.
pub proof fn lemma_lockstep_order<K: Ord, V>(m: Map<K, Entry<K, V>>, stamps: Seq<Stamped<K>>)
    requires
        expiry_index::ordered::<K>(),
        lockstep(m, stamps),
    ensures
        expiry_order::in_expiry_order(stamped_keys(stamps), timed(m)),
        stamped_keys(stamps) == expiry_order::expiry_order(timed(m)),
{
    let keys = stamped_keys(stamps);
    let entries = timed(m);
    assert forall|i: int| 0 <= i < keys.len() implies entries.contains_key(#[trigger] keys[i]) by {
        assert(keys[i] == *stamps[i].key->0);
    }
    assert forall|k: K| #[trigger] entries.contains_key(k) implies exists|i: int|
        0 <= i < keys.len() && #[trigger] keys[i] == k by {
        assert(m.contains_key(k));
        let i = choose|i: int| 0 <= i < stamps.len() && *(#[trigger] stamps[i]).key->0 == k;
        assert(keys[i] == k);
    }
    assert forall|i: int, j: int| 0 <= i < j < keys.len() implies expiry_order::leaves_first(
        entries,
        #[trigger] keys[i],
        #[trigger] keys[j],
    ) by {
        assert(stamps[i].before(stamps[j]));
    }
    assert(expiry_order::in_expiry_order(keys, entries));
    expiry_order::lemma_order_unique(keys, expiry_order::expiry_order(entries), entries);
}

/// The entries with a deadline before `t` are the first ones of the index.
pub proof fn lemma_past_prefix<K: Ord, V>(m: Map<K, Entry<K, V>>, stamps: Seq<Stamped<K>>, t: Instant)
    requires
        expiry_index::ordered::<K>(),
        lockstep(m, stamps),
    ensures
        expiry_order::past(timed(m), t).len() <= stamps.len(),
        forall|i: int|
            0 <= i < stamps.len() ==> (expiry_index::deadline_before(
                (#[trigger] stamps[i]).expiry,
                Some(t),
            ) <==> i < expiry_order::past(timed(m), t).len()),
    decreases stamps.len(),
{
    let late = expiry_order::past(timed(m), t);
    if stamps.len() == 0 {
        assert(late =~= Set::empty()) by {
            assert forall|k: K| !late.contains(k) by {
                if late.contains(k) {
                    assert(m.contains_key(k));
                }
            }
        }
    } else if expiry_index::deadline_before(stamps[0].expiry, Some(t)) {
        let k0 = *stamps[0].key->0;
        let m1 = m.remove(k0);
        let rest = stamps.skip(1);
        lemma_lockstep_pop(m, stamps);
        lemma_past_prefix(m1, rest, t);
        let late1 = expiry_order::past(timed(m1), t);
        assert(late =~= late1.insert(k0));
        assert(late1.finite()) by {
            assert(late1.subset_of(m1.dom()));
            vstd::set_lib::lemma_len_subset(late1, m1.dom());
        }
        assert forall|i: int| 0 <= i < stamps.len() implies (expiry_index::deadline_before(
            (#[trigger] stamps[i]).expiry,
            Some(t),
        ) <==> i < late.len()) by {
            if i > 0 {
                assert(rest[i - 1] == stamps[i]);
            }
        }
    } else {
        assert forall|i: int| 0 <= i < stamps.len() implies !expiry_index::deadline_before(
            (#[trigger] stamps[i]).expiry,
            Some(t),
        ) by {
            if i > 0 {
                assert(stamps[0].before(stamps[i]));
            }
        }
        assert(late =~= Set::empty()) by {
            assert forall|k: K| !late.contains(k) by {
                if late.contains(k) {
                    assert(m.contains_key(k));
                    let i = choose|i: int|
                        0 <= i < stamps.len() && *(#[trigger] stamps[i]).key->0 == k;
                    assert(m[k].expiry == stamps[i].expiry);
                }
            }
        }
    }
}

/// After the entry of `key` was written and its stamp renewed, index and entries are in step.
pub proof fn lemma_put_in_step<K: Ord, V>(
    m: Map<K, Entry<K, V>>,
    stamps: Seq<Stamped<K>>,
    e: Entry<K, V>,
    s: Stamped<K>,
    mid: Seq<Stamped<K>>,
    post: Seq<Stamped<K>>,
)
    requires
        expiry_index::ordered::<K>(),
        lockstep(m, stamps),
        s == (Stamped { expiry: e.expiry, key: Some(e.key) }),
        expiry_index::indexed(mid),
        expiry_index::indexed(post),
        stamps.contains(s) ==> mid == stamps,
        !stamps.contains(s) ==> exists|n: int|
            0 <= n <= stamps.len() && mid == #[trigger] stamps.insert(n, s),
        ({
            let stale = Stamped { expiry: m[*e.key].expiry, key: Some(m[*e.key].key) };
            if m.contains_key(*e.key) && m[*e.key].expiry != s.expiry {
                mid.contains(stale) ==> exists|n: int|
                    0 <= n < mid.len() && mid[n] == stale && post == #[trigger] mid.remove(n)
            } else {
                post == mid
            }
        }),
    ensures
        lockstep(m.insert(*e.key, e), post),
{
    let key = *e.key;
    let m1 = m.insert(key, e);
    lemma_lockstep_members(m, stamps);
    if !stamps.contains(s) {
        let n = choose|n: int| 0 <= n <= stamps.len() && mid == #[trigger] stamps.insert(n, s);
        expiry_order::lemma_insert_members(stamps, n, s);
    }
    if m.contains_key(key) && m[key].expiry != s.expiry {
        let stale = Stamped { expiry: m[key].expiry, key: Some(m[key].key) };
        assert(stamps.contains(stale)) by {
            assert(stamps_entry(m, stale));
        }
        assert(!stamps.contains(s));
        assert(mid.contains(stale));
        let n = choose|n: int|
            0 <= n < mid.len() && mid[n] == stale && post == #[trigger] mid.remove(n);
        lemma_remove_members(mid, n);
    }
    assert forall|x: Stamped<K>| #[trigger] post.contains(x) <==> stamps_entry(m1, x) by {
        if x.key is Some && *x.key->0 == key {
            assert(x.expiry == s.expiry ==> x == s);
        }
    }
    assert(m1.dom() =~= m.dom().insert(key));
    lemma_lockstep_from_members(m1, post);
}

} // verus!
