//! What one shard of a cache without expiry holds.
use crate::stores::sharded::shard::{Shard, Tally};
use crate::stores::table::{self, DefaultHashBuilder};
use std::collections::HashMap;
use std::hash::Hash;
use vstd::prelude::*;

verus! {

broadcast use vstd::std_specs::hash::group_hash_axioms;

/// A stored value, and whether the sweep that is under way has rejected it.
pub struct Held<V> {
    pub value: V,
    pub rejected: bool,
}

impl<V: Clone> Clone for Held<V> {
    fn clone(&self) -> (h: Self)
        ensures
            cloned(self.value, h.value),
    {
        Held { value: self.value.clone(), rejected: self.rejected }
    }
}

/// The entries of one shard.
#[verifier::reject_recursive_types(K)]
#[verifier::reject_recursive_types(V)]
pub struct UnboundStore<K, V> {
    map: HashMap<K, Held<V>, DefaultHashBuilder>,
}

/// The values of stored entries.
spec fn values<K, V>(m: Map<K, Held<V>>) -> Map<K, V> {
    m.map_values(|h: Held<V>| h.value)
}

impl<K, V> View for UnboundStore<K, V> {
    type V = Map<K, V>;

    closed spec fn view(&self) -> Map<K, V> {
        values(self.map@)
    }
}

/// Whether `value` answers a look-up of `k`: a clone of its value, if there is one.
pub open spec fn answers<K, V: Clone>(m: Map<K, V>, k: K, value: Option<V>) -> bool {
    match value {
        Some(v) => m.contains_key(k) && cloned(m[k], v),
        None => !m.contains_key(k),
    }
}

/// Whether `value` is what leaves with the entry of `k`: its value, if there is one.
pub open spec fn displaces<K, V>(m: Map<K, V>, k: K, value: Option<V>) -> bool {
    value == if m.contains_key(k) {
        Some(m[k])
    } else {
        None
    }
}

/// The value of an entry that was taken out.
pub open spec fn value_of<K, V>(taken: Option<(K, V)>) -> Option<V> {
    match taken {
        Some((_, v)) => Some(v),
        None => None,
    }
}

/// Whether `taken` and `post` follow from taking the entry of `k` out.
pub open spec fn takes_one<K, V>(
    pre: Map<K, V>,
    post: Map<K, V>,
    k: K,
    taken: Option<(K, V)>,
) -> bool {
    &&& post == pre.remove(k)
    &&& taken == if pre.contains_key(k) {
        Some((k, pre[k]))
    } else {
        None
    }
}

/// Whether `taken` and `post` follow from taking out the entries that `keep` rejects.
pub open spec fn takes_rejected<K, V, F: FnMut(&K, &V) -> bool>(
    pre: Map<K, V>,
    post: Map<K, V>,
    keep: F,
    taken: Seq<(K, V)>,
) -> bool {
    &&& post == pre.restrict(post.dom())
    &&& table::enumerates(taken, pre.remove_keys(post.dom()))
    &&& forall|k: K| #[trigger]
        pre.contains_key(k) ==> keep.ensures((&k, &pre[k]), post.contains_key(k))
}

/// What a look-up that finds `value` adds to the counters.
pub open spec fn look_up_tally<V>(value: Option<V>) -> Tally {
    if value is Some {
        Tally::hit()
    } else {
        Tally::miss(0)
    }
}

/// What a look-up that finds `value` adds to the counters.
pub fn tally_look_up<V>(value: &Option<V>) -> (t: Tally)
    ensures
        t == look_up_tally(*value),
{
    if value.is_some() {
        Tally { hits: 1, misses: 0, evictions: 0 }
    } else {
        Tally { hits: 0, misses: 1, evictions: 0 }
    }
}

/// The keys and values of entries that were taken out.
spec fn taken_values<K, V>(taken: Seq<(K, Held<V>)>) -> Seq<(K, V)> {
    taken.map_values(|e: (K, Held<V>)| (e.0, e.1.value))
}

/// Entries as keys and values.
fn strip<K, V>(taken: Vec<(K, Held<V>)>) -> (r: Vec<(K, V)>)
    ensures
        r@ == taken_values(taken@),
{
    let ghost all = taken@;
    let mut r: Vec<(K, V)> = Vec::new();
    for e in it: taken
        invariant
            it.seq() == all,
            r@ == taken_values(all.take(it.index() as int)),
    {
        let (k, held) = e;
        r.push((k, held.value));
        assert(r@ =~= taken_values(all.take(it.index() + 1)));
    }
    assert(all.take(all.len() as int) =~= all);
    r
}

impl<K: Hash + Eq, V> UnboundStore<K, V> {
    /// A store without entries, with room for `capacity` of them where there is memory for it.
    pub fn new(capacity: usize) -> (s: Self)
        ensures
            s@ == Map::<K, V>::empty(),
            vstd::std_specs::hash::builds_valid_hashers::<DefaultHashBuilder>(),
            capacity > 0 ==> exists|hasher: DefaultHashBuilder, made: bool| #[trigger]
                table::asked_for_fresh_room::<K, Held<V>, DefaultHashBuilder>(
                    hasher,
                    capacity,
                    made,
                ),
    {
        let hasher = table::new_default_hash_builder();
        let room: Option<usize> = if capacity > 0 {
            Some(capacity)
        } else {
            None
        };
        let (map, _) = table::table_with_room(hasher, room);
        assert(values(map@) =~= Map::empty());
        UnboundStore { map }
    }

    /// Writes `v` under `k`, and returns the value that it displaces. A stored key stays.
    pub fn put(&mut self, k: K, v: V) -> (r: Option<V>)
        requires
            table::keyed::<K, DefaultHashBuilder>(),
        ensures
            final(self)@ == old(self)@.insert(k, v),
            displaces(old(self)@, k, r),
    {
        let ghost pre = self@;
        let former = self.map.insert(k, Held { value: v, rejected: false });
        assert(self@ =~= pre.insert(k, v));
        match former {
            Some(held) => Some(held.value),
            None => None,
        }
    }

    /// [`put`](Self::put) of the value `a.1` under the key `a.0`.
    pub fn put_all(&mut self, a: (K, V)) -> (r: Option<V>)
        requires
            table::keyed::<K, DefaultHashBuilder>(),
        ensures
            final(self)@ == old(self)@.insert(a.0, a.1),
            displaces(old(self)@, a.0, r),
    {
        self.put(a.0, a.1)
    }

    /// Takes the entry of `k` out.
    pub fn take(&mut self, k: &K) -> (r: Option<(K, V)>)
        requires
            table::keyed::<K, DefaultHashBuilder>(),
        ensures
            takes_one(old(self)@, final(self)@, *k, r),
    {
        let ghost pre = self@;
        let taken = table::take_entry(&mut self.map, k);
        assert(self@ =~= pre.remove(*k));
        match taken {
            Some((stored, held)) => Some((stored, held.value)),
            None => None,
        }
    }

    pub fn contains(&self, k: &K) -> (b: bool)
        requires
            table::keyed::<K, DefaultHashBuilder>(),
        ensures
            b == self@.contains_key(*k),
    {
        self.map.contains_key(k)
    }

    pub fn len(&self) -> (n: usize)
        ensures
            table::keyed::<K, DefaultHashBuilder>() ==> n == self@.len(),
    {
        assert(self@.dom() =~= self.map@.dom());
        self.map.len()
    }

    /// The number of entries, for a look at the shard that takes nothing else.
    pub fn measure(&self, _a: ()) -> (n: usize)
        ensures
            table::keyed::<K, DefaultHashBuilder>() ==> n == self@.len(),
    {
        self.len()
    }

    /// Removes all entries.
    pub fn clear(&mut self)
        ensures
            table::keyed::<K, DefaultHashBuilder>() ==> final(self)@ == Map::<K, V>::empty(),
    {
        self.map.clear();
        assert(table::keyed::<K, DefaultHashBuilder>() ==> values(self.map@) =~= Map::empty());
    }

    /// Removes all entries, and returns how many there were.
    pub fn wipe(&mut self, _a: ()) -> (n: usize)
        ensures
            table::keyed::<K, DefaultHashBuilder>() ==> final(self)@ == Map::<K, V>::empty() && n
                == old(self)@.len(),
    {
        let n: usize = self.len();
        self.clear();
        n
    }

    /// Takes all entries out.
    pub fn take_all(&mut self, _a: ()) -> (r: Vec<(K, V)>)
        requires
            table::keyed::<K, DefaultHashBuilder>(),
        ensures
            final(self)@ == Map::<K, V>::empty(),
            table::enumerates(r@, old(self)@),
    {
        let ghost pre = self.map@;
        let taken = table::take_all(&mut self.map);
        assert(values(self.map@) =~= Map::empty());
        proof {
            lemma_taken_values(taken@, pre);
        }
        strip(taken)
    }

    /// Marks the entries that `keep` rejects, and no others. The first one is marked when it has
    /// been asked about all of them.
    fn mark_rejected<F: FnMut(&K, &V) -> bool>(&mut self, keep: F) -> (asked: F)
        requires
            table::keyed::<K, DefaultHashBuilder>(),
            forall|k: &K, v: &V| keep.requires((k, v)),
        ensures
            asked == keep,
            final(self).map@.dom() == old(self).map@.dom(),
            forall|k: K| #[trigger]
                old(self).map@.contains_key(k) ==> {
                    &&& final(self).map@[k].value == old(self).map@[k].value
                    &&& keep.ensures(
                        (&k, &old(self).map@[k].value),
                        !final(self).map@[k].rejected,
                    )
                },
    {
        let ghost pre = self.map@;
        let mut keep = keep;
        let ghost keep0 = keep;
        let mut entries = table::values_mut(&mut self.map);
        let ghost at_first = entries@;
        let total: usize = entries.len();
        let mut kept: Vec<bool> = Vec::new();
        while kept.len() < total
            invariant
                kept.len() <= total == entries.len(),
                entries@ == at_first,
                keep == keep0,
                forall|k: &K, v: &V| keep0.requires((k, v)),
                forall|i: int|
                    0 <= i < kept.len() ==> keep0.ensures(
                        (at_first[i].0, &(*at_first[i].1).value),
                        #[trigger] kept[i],
                    ),
            decreases total - kept.len(),
        {
            let i: usize = kept.len();
            kept.push(keep(entries[i].0, &entries[i].1.value));
        }
        let mut i: usize = 0;
        while i < total
            invariant
                i <= total == entries.len(),
                total == at_first.len() == kept.len(),
                forall|j: int|
                    0 <= j < total ==> *final((#[trigger] entries@[j]).1) == *final(at_first[j].1)
                        && entries@[j].0 == at_first[j].0,
                forall|j: int| i <= j < total ==> #[trigger] entries@[j] == at_first[j],
                forall|j: int|
                    0 <= j < i ==> *(#[trigger] entries@[j]).1 == (Held {
                        value: (*at_first[j].1).value,
                        rejected: !kept[j],
                    }),
            decreases total - i,
        {
            entries[i].1.rejected = !kept[i];
            i += 1;
        }
        proof {
            assert(has_resolved(entries));
            assert forall|k: K| #[trigger] pre.contains_key(k) implies {
                &&& after_borrow(self).map@[k].value == pre[k].value
                &&& keep0.ensures((&k, &pre[k].value), !after_borrow(self).map@[k].rejected)
            } by {
                let j = choose|j: int| 0 <= j < total && *(#[trigger] at_first[j]).0 == k;
                assert(has_resolved(entries@[j]));
                assert(*entries@[j].1 == *final(entries@[j].1));
                assert(kept[j] == kept[j]);
            }
        }
        keep
    }

    /// Takes out the entries that `keep` rejects, and hands `keep` back. All of them are chosen
    /// before the first one leaves.
    pub fn take_rejected<F: FnMut(&K, &V) -> bool>(&mut self, keep: F) -> (r: (Vec<(K, V)>, F))
        requires
            table::keyed::<K, DefaultHashBuilder>(),
            forall|k: &K, v: &V| keep.requires((k, v)),
        ensures
            r.1 == keep,
            takes_rejected(old(self)@, final(self)@, keep, r.0@),
    {
        let ghost pre = self@;
        let asked = self.mark_rejected(keep);
        let ghost marked = self.map@;
        let rejected = |_k: &K, held: &Held<V>| -> (b: bool)
            ensures
                b == held.rejected,
            { held.rejected };
        let taken = table::take_if(&mut self.map, rejected);
        proof {
            let left = self.map@;
            lemma_taken_values(taken@, marked.remove_keys(left.dom()));
            assert(values(marked.remove_keys(left.dom())) =~= pre.remove_keys(self@.dom()));
            assert(self@ =~= pre.restrict(self@.dom()));
            assert forall|k: K| #[trigger] pre.contains_key(k) implies keep.ensures(
                (&k, &pre[k]),
                self@.contains_key(k),
            ) by {
                assert(marked.contains_key(k));
            }
        }
        (strip(taken), asked)
    }
}

/// A list of all entries lists all keys and values.
proof fn lemma_taken_values<K, V>(taken: Seq<(K, Held<V>)>, m: Map<K, Held<V>>)
    requires
        table::enumerates(taken, m),
    ensures
        table::enumerates(taken_values(taken), values(m)),
{
    let list = taken_values(taken);
    assert forall|i: int| 0 <= i < list.len() implies values(m).contains_key(
        (#[trigger] list[i]).0,
    ) && values(m)[list[i].0] == list[i].1 by {
        assert(m.contains_key(taken[i].0));
    }
    assert forall|k: K| #[trigger] values(m).contains_key(k) implies exists|i: int|
        0 <= i < list.len() && (#[trigger] list[i]).0 == k by {
        assert(m.contains_key(k));
        let i = choose|i: int| 0 <= i < taken.len() && (#[trigger] taken[i]).0 == k;
        assert(list[i].0 == k);
    }
    assert forall|i: int, j: int| 0 <= i < j < list.len() implies (#[trigger] list[i]).0 != (
    #[trigger] list[j]).0 by {
        assert(taken[i].0 != taken[j].0);
    }
}

impl<K: Hash + Eq, V: Clone> UnboundStore<K, V> {
    /// A clone of the value under `k`.
    pub fn get(&self, k: &K) -> (value: Option<V>)
        requires
            table::keyed::<K, DefaultHashBuilder>(),
        ensures
            answers(self@, *k, value),
    {
        match self.map.get(k) {
            Some(held) => Some(held.value.clone()),
            None => None,
        }
    }
}

/// Whether `copy` has the keys of `m`, with clones of their values.
pub open spec fn copies<K, V: Clone>(m: Map<K, V>, copy: Map<K, V>) -> bool {
    &&& copy.dom() == m.dom()
    &&& forall|k: K| #[trigger] m.contains_key(k) ==> cloned(m[k], copy[k])
}

/// Whether `copy` is a copy of the entry of `q`.
pub open spec fn copies_one<K: Clone, V: Clone>(m: Map<K, V>, q: K, copy: (K, V)) -> bool {
    &&& m.contains_key(q)
    &&& cloned(q, copy.0)
    &&& cloned(m[q], copy.1)
}

/// Whether `copy` is a copy of an entry.
pub open spec fn is_copy<K: Clone, V: Clone>(m: Map<K, V>, copy: (K, V)) -> bool {
    exists|q: K| #[trigger] copies_one(m, q, copy)
}

/// Whether `list` holds copies of all entries, and nothing else.
pub open spec fn copies_all<K: Clone, V: Clone>(m: Map<K, V>, list: Seq<(K, V)>) -> bool {
    &&& forall|i: int| 0 <= i < list.len() ==> is_copy(m, #[trigger] list[i])
    &&& forall|q: K| #[trigger]
        m.contains_key(q) ==> exists|i: int|
            0 <= i < list.len() && #[trigger] copies_one(m, q, list[i])
}

impl<K: Hash + Eq + Clone, V: Clone> UnboundStore<K, V> {
    /// A store with clones of all values.
    pub fn duplicate(&self) -> (s: Self)
        ensures
            copies(self@, s@),
    {
        let s = UnboundStore { map: self.map.clone() };
        assert(s@.dom() =~= self@.dom());
        s
    }

    /// Copies of all entries, and a reading of the counters of `shard`. No evictions are counted.
    pub fn copy_with_counts(&self, shard: &Shard<UnboundStore<K, V>>) -> (r: (
        UnboundStore<K, V>,
        Tally,
    ))
        ensures
            copies(self@, r.0@),
            exists|tally: Tally| #[trigger]
                shard.counted(tally) && r.1 == (Tally { evictions: 0, ..tally }),
    {
        let tally = shard.counts();
        let counts = Tally { hits: tally.hits, misses: tally.misses, evictions: 0 };
        (self.duplicate(), counts)
    }

    /// Copies of all entries.
    pub fn entries(&self, _a: ()) -> (list: Vec<(K, V)>)
        requires
            table::keyed::<K, DefaultHashBuilder>(),
        ensures
            copies_all(self@, list@),
    {
        let mut list: Vec<(K, V)> = Vec::new();
        let ghost all = vstd::std_specs::iter::IteratorSpec::remaining(
            &vstd::std_specs::hash::spec_hash_map_iter(&self.map),
        );
        let ghost m = self@;
        for item in it: self.map.iter()
            invariant
                it.seq() == all,
                m == self@,
                all == vstd::std_specs::iter::IteratorSpec::remaining(
                    &vstd::std_specs::hash::spec_hash_map_iter(&self.map),
                ),
                forall|i: int| 0 <= i < list.len() ==> is_copy(m, #[trigger] list[i]),
                list.len() == it.index(),
                forall|n: int| 0 <= n < it.index() ==> copies_one(m, *(#[trigger] all[n]).0, list[n]),
        {
            let (k, held) = item;
            let ghost index = it.index() as int;
            proof {
                assert(all[index] == item);
                assert(self.map@.contains_key(*all[index].0));
                assert(self.map@[*all[index].0] == *all[index].1);
            }
            list.push((k.clone(), held.value.clone()));
            assert(copies_one(m, *k, list@[index]));
        }
        proof {
            assert forall|q: K| #[trigger] m.contains_key(q) implies exists|i: int|
                0 <= i < list.len() && #[trigger] copies_one(m, q, list[i]) by {
                assert(self.map@.contains_key(q));
                assert(all.contains((&q, &self.map@[q])));
                let n = choose|n: int| 0 <= n < all.len() && all[n] == (&q, &self.map@[q]);
                assert(copies_one(m, *all[n].0, list[n]));
            }
        }
        list
    }
}

/// A value that was written is what a look-up returns a clone of, and no other entry changes.
pub proof fn law_read_after_write<K, V: Clone>(
    pre: Map<K, V>,
    k: K,
    v: V,
    value: Option<V>,
    other: K,
)
    requires
        answers(pre.insert(k, v), k, value),
        other != k,
    ensures
        value is Some && cloned(v, value->0),
        pre.insert(k, v).contains_key(other) == pre.contains_key(other),
        pre.contains_key(other) ==> pre.insert(k, v)[other] == pre[other],
{
}

/// What was taken out is not found again, and no other entry changes.
pub proof fn law_removed_is_gone<K, V: Clone>(
    pre: Map<K, V>,
    post: Map<K, V>,
    k: K,
    taken: Option<(K, V)>,
    value: Option<V>,
    other: K,
)
    requires
        takes_one(pre, post, k, taken),
        answers(post, k, value),
        other != k,
    ensures
        value is None,
        taken is Some <==> pre.contains_key(k),
        post.contains_key(other) == pre.contains_key(other),
        pre.contains_key(other) ==> post[other] == pre[other],
{
}

/// A copy of a shard answers a look-up as its source does: with the copied value.
pub proof fn law_copy_answers_alike<K, V: Clone>(
    held: Map<K, V>,
    copy: Map<K, V>,
    k: K,
    value: Option<V>,
)
    requires
        copies(held, copy),
        answers(copy, k, value),
    ensures
        value is Some <==> held.contains_key(k),
        value matches Some(v) ==> cloned(held[k], copy[k]) && cloned(copy[k], v),
{
    if held.contains_key(k) {
        assert(copy.contains_key(k));
    }
}

} // verus!
