//! Sweeps over the entries of a cache.
use crate::stores::expiry::TimedEntry;
use crate::stores::table;
use crate::time::Instant;
use std::collections::HashMap;
use vstd::prelude::*;

verus! {

/// Whether `gone` lists the keys of the entries that have expired at `now`, each once.
pub open spec fn sweeps<K, V>(entries: Map<K, TimedEntry<V>>, now: Instant, gone: Seq<K>) -> bool {
    &&& gone.no_duplicates()
    &&& forall|i: int| 0 <= i < gone.len() ==> entries.contains_key(#[trigger] gone[i])
    &&& forall|k: K| #[trigger]
        entries.contains_key(k) ==> (entries[k].expired(now) <==> gone.contains(k))
}

/// Whether `gone` lists the keys of the entries that have expired at `now` or that `keep` rejects,
/// each once. It is not asked about an expired entry.
pub open spec fn retains<K, V, F: FnMut(&K, &V) -> bool>(
    entries: Map<K, TimedEntry<V>>,
    keep: F,
    now: Instant,
    gone: Seq<K>,
) -> bool {
    &&& gone.no_duplicates()
    &&& forall|i: int| 0 <= i < gone.len() ==> entries.contains_key(#[trigger] gone[i])
    &&& forall|k: K| #[trigger]
        entries.contains_key(k) ==> if entries[k].expired(now) {
            gone.contains(k)
        } else {
            keep.ensures((&k, &entries[k].value), !gone.contains(k))
        }
}

/// The keys of entries that were taken out.
pub open spec fn taken_keys<K, V>(taken: Seq<(K, TimedEntry<V>)>) -> Seq<K> {
    taken.map_values(|e: (K, TimedEntry<V>)| e.0)
}

/// The keys of a list of all entries of a map.
pub proof fn lemma_taken<K, V>(list: Seq<(K, TimedEntry<V>)>, m: Map<K, TimedEntry<V>>)
    requires
        table::enumerates(list, m),
    ensures
        taken_keys(list).no_duplicates(),
        forall|k: K| #[trigger] taken_keys(list).contains(k) <==> m.contains_key(k),
{
    let keys = taken_keys(list);
    assert forall|k: K| m.contains_key(k) implies #[trigger] keys.contains(k) by {
        let i = choose|i: int| 0 <= i < list.len() && (#[trigger] list[i]).0 == k;
        assert(keys[i] == k);
    }
    assert forall|k: K| #[trigger] keys.contains(k) implies m.contains_key(k) by {
        let i = choose|i: int| 0 <= i < keys.len() && keys[i] == k;
        assert(m.contains_key(list[i].0));
    }
    assert forall|i: int, j: int| 0 <= i < keys.len() && 0 <= j < keys.len() && i
        != j implies keys[i] != keys[j] by {
        if i < j {
            assert(list[i].0 != list[j].0);
        } else {
            assert(list[j].0 != list[i].0);
        }
    }
}

/// Whether `taken` are entries of `m`, but for their deadlines, and `left` is `m` without them.
pub open spec fn takes<K, V>(
    m: Map<K, TimedEntry<V>>,
    left: Map<K, TimedEntry<V>>,
    taken: Seq<(K, TimedEntry<V>)>,
) -> bool {
    &&& left == m.remove_keys(taken_keys(taken).to_set())
    &&& forall|i: int|
        0 <= i < taken.len() ==> (#[trigger] taken[i]).1.value == m[taken[i].0].value
}

/// Takes out the entries that have expired at `now`.
pub(crate) fn take_expired<K, V, S>(
    m: &mut HashMap<K, TimedEntry<V>, S>,
    now: Instant,
) -> (removed: Vec<(K, TimedEntry<V>)>)
    requires
        table::keyed::<K, S>(),
    ensures
        takes(old(m)@, final(m)@, removed@),
        sweeps(old(m)@, now, taken_keys(removed@)),
{
    let ghost pre = m@;
    let stale = |_k: &K, entry: &TimedEntry<V>| -> (b: bool)
        ensures
            b == entry.expired(now),
        { entry.is_expired_at(now) };
    let removed = table::take_if(m, stale);
    proof {
        let left = m@;
        let taken = pre.remove_keys(left.dom());
        lemma_taken(removed@, taken);
        let gone = taken_keys(removed@);
        assert forall|k: K| #[trigger] pre.contains_key(k) implies (pre[k].expired(now)
            <==> gone.contains(k)) by {
            assert(taken.contains_key(k) <==> !left.contains_key(k));
        }
        assert(left =~= pre.remove_keys(gone.to_set())) by {
            assert forall|k: K| left.contains_key(k) == pre.remove_keys(
                gone.to_set(),
            ).contains_key(k) by {
                if pre.contains_key(k) {
                    assert(taken.contains_key(k) <==> !left.contains_key(k));
                }
            }
        }
        assert forall|i: int| 0 <= i < gone.len() implies pre.contains_key(
            #[trigger] gone[i],
        ) by {
            assert(taken.contains_key(removed[i].0));
        }
        assert forall|i: int| 0 <= i < removed.len() implies (#[trigger] removed[i]).1.value
            == pre[removed[i].0].value by {
            assert(taken.contains_key(removed[i].0));
        }
    }
    removed
}

/// Gives the entries that `keep` rejects a deadline that has come at any time, and leaves the
/// others. It is not asked about entries that have expired at `now`. The first entry is changed
/// when it has been asked about all of them.
fn expire_rejected<K, V, S, F: FnMut(&K, &V) -> bool>(
    m: &mut HashMap<K, TimedEntry<V>, S>,
    keep: F,
    now: Instant,
) -> (asked: F)
    requires
        table::keyed::<K, S>(),
        forall|k: &K, v: &V| keep.requires((k, v)),
    ensures
        asked == keep,
        final(m)@.dom() == old(m)@.dom(),
        forall|k: K| #[trigger]
            old(m)@.contains_key(k) ==> {
                let e = old(m)@[k];
                let f = final(m)@[k];
                &&& f.value == e.value
                &&& !f.expired(now) ==> f == e
                &&& if e.expired(now) {
                    f.expired(now)
                } else {
                    keep.ensures((&k, &e.value), !f.expired(now))
                }
            },
{
    let ghost pre = m@;
    let mut keep = keep;
    let ghost keep0 = keep;
    let mut entries = table::values_mut(m);
    let ghost at_first = entries@;
    let total: usize = entries.len();
    let mut rejected: Vec<bool> = Vec::new();
    while rejected.len() < total
        invariant
            rejected.len() <= total == entries.len(),
            entries@ == at_first,
            keep == keep0,
            forall|k: &K, v: &V| keep0.requires((k, v)),
            forall|i: int|
                0 <= i < rejected.len() ==> if (*at_first[i].1).expired(now) {
                    !#[trigger] rejected[i]
                } else {
                    keep0.ensures((at_first[i].0, &(*at_first[i].1).value), !rejected[i])
                },
        decreases total - rejected.len(),
    {
        let i: usize = rejected.len();
        let reject: bool = !entries[i].1.is_expired_at(now) && !keep(
            entries[i].0,
            &entries[i].1.value,
        );
        rejected.push(reject);
    }
    let mut i: usize = 0;
    while i < total
        invariant
            i <= total == entries.len(),
            total == at_first.len() == rejected.len(),
            forall|j: int|
                0 <= j < total ==> *final((#[trigger] entries@[j]).1) == *final(at_first[j].1)
                    && entries@[j].0 == at_first[j].0,
            forall|j: int| i <= j < total ==> #[trigger] entries@[j] == at_first[j],
            forall|j: int|
                0 <= j < i ==> *(#[trigger] entries@[j]).1 == if rejected[j] {
                    TimedEntry {
                        expires_at: Some(Instant { nanos: 0 }),
                        value: (*at_first[j].1).value,
                    }
                } else {
                    *at_first[j].1
                },
        decreases total - i,
    {
        if rejected[i] {
            entries[i].1.expires_at = Some(Instant { nanos: 0 });
        }
        i += 1;
    }
    proof {
        assert(has_resolved(entries));
        assert forall|k: K| #[trigger] pre.contains_key(k) implies {
            let e = pre[k];
            let f = after_borrow(m)@[k];
            &&& f.value == e.value
            &&& !f.expired(now) ==> f == e
            &&& if e.expired(now) {
                f.expired(now)
            } else {
                keep0.ensures((&k, &e.value), !f.expired(now))
            }
        } by {
            let j = choose|j: int| 0 <= j < total && *(#[trigger] at_first[j]).0 == k;
            assert(has_resolved(entries@[j]));
            assert(*entries@[j].1 == *final(entries@[j].1));
            assert(rejected[j] == rejected[j]);
        }
    }
    keep
}

/// Takes out the entries that have expired at `now` or that `keep` rejects, and hands `keep` back.
/// All of them are chosen before the first one leaves.
pub(crate) fn take_doomed<K, V, S, F: FnMut(&K, &V) -> bool>(
    m: &mut HashMap<K, TimedEntry<V>, S>,
    keep: F,
    now: Instant,
) -> (r: (Vec<(K, TimedEntry<V>)>, F))
    requires
        table::keyed::<K, S>(),
        forall|k: &K, v: &V| keep.requires((k, v)),
    ensures
        r.1 == keep,
        takes(old(m)@, final(m)@, r.0@),
        retains(old(m)@, keep, now, taken_keys(r.0@)),
{
    let ghost pre = m@;
    let asked = expire_rejected(m, keep, now);
    let ghost marked = m@;
    let removed = take_expired(m, now);
    proof {
        let gone = taken_keys(removed@);
        assert forall|i: int| 0 <= i < removed.len() implies (#[trigger] removed[i]).1.value
            == pre[removed[i].0].value by {
            assert(marked.contains_key(gone[i]));
            assert(pre.contains_key(gone[i]));
        }
        assert forall|k: K| #[trigger] pre.contains_key(k) && !gone.contains(k) implies marked[k]
            == pre[k] by {
            assert(marked.contains_key(k));
        }
        assert(m@ =~= pre.remove_keys(gone.to_set()));
        assert forall|i: int| 0 <= i < gone.len() implies pre.contains_key(#[trigger] gone[i]) by {
            assert(marked.contains_key(gone[i]));
        }
        assert forall|k: K| #[trigger] pre.contains_key(k) implies if pre[k].expired(now) {
            gone.contains(k)
        } else {
            keep.ensures((&k, &pre[k].value), !gone.contains(k))
        } by {
            assert(marked.contains_key(k));
        }
    }
    (removed, asked)
}

} // verus!
