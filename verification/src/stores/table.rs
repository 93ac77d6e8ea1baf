//! Hash tables: when the model of a hash table applies, and the operations of
//! `std::collections::HashMap` that the caches need beyond those that `vstd` specifies.
use std::collections::{HashMap, TryReserveError};
use std::hash::{BuildHasher, Hash};
use vstd::prelude::*;

verus! {

broadcast use vstd::std_specs::hash::group_hash_axioms;

/// Whether a hash table with keys `K` and hash builder `S` behaves as a map: equality of `K` is
/// equality of values and agrees with its `Hash`, and hashers of `S` are deterministic.
pub open spec fn keyed<K, S>() -> bool {
    &&& vstd::std_specs::hash::obeys_key_model::<K>()
    &&& vstd::std_specs::hash::builds_valid_hashers::<S>()
}

/// Whether the hashers that `h` builds are deterministic.
pub open spec fn hashes_soundly<S>(h: S) -> bool {
    vstd::std_specs::hash::builds_valid_hashers::<S>()
}

/// Whether the table `m` behaves as a map.
pub open spec fn is_map<K, V, S>(m: HashMap<K, V, S>) -> bool {
    keyed::<K, S>()
}

/// Whether `list` holds each entry of `m` once, and nothing else.
pub open spec fn enumerates<K, V>(list: Seq<(K, V)>, m: Map<K, V>) -> bool {
    &&& forall|i: int|
        0 <= i < list.len() ==> m.contains_key((#[trigger] list[i]).0) && m[list[i].0] == list[i].1
    &&& forall|k: K|
        #[trigger] m.contains_key(k) ==> exists|i: int|
            0 <= i < list.len() && (#[trigger] list[i]).0 == k
    &&& forall|i: int, j: int|
        0 <= i < j < list.len() ==> (#[trigger] list[i]).0 != (#[trigger] list[j]).0
}

/// The hash builder of a cache that was given none.
pub type DefaultHashBuilder = ahash::RandomState;

#[verifier::external_type_specification]
#[verifier::external_body]
pub struct ExRandomState(ahash::RandomState);

/// `ahash::RandomState::new`: a hash builder with fresh random keys. Claimed: each hasher that it
/// builds starts from those keys, so two that are fed the same data agree.
#[verifier::external_body]
pub(crate) fn new_default_hash_builder() -> (h: DefaultHashBuilder)
    ensures
        hashes_soundly(h),
{
    ahash::RandomState::new()
}

/// `HashMap::with_hasher`: a table without entries that hashes with `hasher`.
#[verifier::external_body]
pub(crate) fn empty_table<K, V, S>(hasher: S) -> (m: HashMap<K, V, S>)
    ensures
        (m@ == Map::<K, V>::empty()),
{
    HashMap::with_hasher(hasher)
}

/// `HashMap::get_mut`: access to the value under `k`, where there is one.
#[verifier::external_body]
pub(crate) fn value_mut<'a, K: Eq + Hash, V, S: BuildHasher>(
    m: &'a mut HashMap<K, V, S>,
    k: &K,
) -> (r: Option<&'a mut V>)
    ensures
        is_map(*old(m)) ==> match r {
            Some(v) => {
                &&& old(m)@.contains_key(*k)
                &&& *v == old(m)@[*k]
                &&& final(m)@ == old(m)@.insert(*k, *final(v))
            },
            None => {
                &&& !old(m)@.contains_key(*k)
                &&& final(m)@ == old(m)@
            },
        },
{
    m.get_mut(k)
}

/// `HashMap::remove_entry`: takes the entry under `k` out, with the key that was stored.
#[verifier::external_body]
pub(crate) fn take_entry<K: Eq + Hash, V, S: BuildHasher>(
    m: &mut HashMap<K, V, S>,
    k: &K,
) -> (r: Option<(K, V)>)
    ensures
        is_map(*old(m)) ==> final(m)@ == old(m)@.remove(*k) && match r {
            Some((stored, v)) => {
                &&& old(m)@.contains_key(*k)
                &&& stored == *k
                &&& v == old(m)@[*k]
            },
            None => !old(m)@.contains_key(*k),
        },
{
    m.remove_entry(k)
}

/// `HashMap::drain`: empties the table and hands all its entries out, in no particular order.
#[verifier::external_body]
pub(crate) fn take_all<K, V, S>(m: &mut HashMap<K, V, S>) -> (r: Vec<(K, V)>)
    ensures
        is_map(*old(m)) ==> (final(m)@ == Map::<K, V>::empty()) && enumerates(r@, old(m)@),
{
    m.drain().collect()
}

/// `HashMap::extract_if`: takes out the entries that `pred` accepts, hands them out in no
/// particular order, and leaves the others.
#[verifier::external_body]
pub(crate) fn take_if<K, V, S, F: Fn(&K, &V) -> bool>(
    m: &mut HashMap<K, V, S>,
    pred: F,
) -> (r: Vec<(K, V)>)
    requires
        forall|k: &K, v: &V| pred.requires((k, v)),
    ensures
        is_map(*old(m)) ==> {
            &&& final(m)@ == old(m)@.restrict(final(m)@.dom())
            &&& enumerates(r@, old(m)@.remove_keys(final(m)@.dom()))
            &&& forall|k: K| #[trigger]
                old(m)@.contains_key(k) ==> pred.ensures(
                    (&k, &old(m)@[k]),
                    !final(m)@.contains_key(k),
                )
        },
{
    m.extract_if(|k, v| pred(k, v)).collect()
}

/// `HashMap::iter_mut`: access to the value of every entry, in no particular order.
#[verifier::external_body]
pub(crate) fn values_mut<'a, K, V, S>(m: &'a mut HashMap<K, V, S>) -> (r: Vec<(&'a K, &'a mut V)>)
    ensures
        is_map(*old(m)) ==> {
            &&& final(m)@.dom() == old(m)@.dom()
            &&& forall|i: int|
                0 <= i < r.len() ==> {
                    &&& old(m)@.contains_key(*(#[trigger] r[i]).0)
                    &&& old(m)@[*r[i].0] == *r[i].1
                    &&& final(m)@[*r[i].0] == *final(r[i].1)
                }
            &&& forall|k: K| #[trigger]
                old(m)@.contains_key(k) ==> exists|i: int|
                    0 <= i < r.len() && *(#[trigger] r[i]).0 == k
            &&& forall|i: int, j: int|
                0 <= i < j < r.len() ==> *(#[trigger] r[i]).0 != *(#[trigger] r[j]).0
        },
{
    m.iter_mut().collect()
}

/// `HashMap::try_reserve`: makes room for `more` entries, or reports that there is none. Which of
/// the two comes depends on the allocator; the entries stay either way.
#[verifier::external_body]
pub(crate) fn make_room<K: Eq + Hash, V, S: BuildHasher>(
    m: &mut HashMap<K, V, S>,
    more: usize,
) -> (r: Result<(), TryReserveError>)
    ensures
        final(m)@ == old(m)@,
{
    m.try_reserve(more)
}

/// `HashMap::shrink_to`: gives room back down to `room`. The entries stay.
#[verifier::external_body]
pub(crate) fn shrink_room<K: Eq + Hash, V, S: BuildHasher>(m: &mut HashMap<K, V, S>, room: usize)
    ensures
        final(m)@ == old(m)@,
{
    m.shrink_to(room)
}

/// `HashMap::capacity`: how many entries the table has room for; at least those that it holds.
#[verifier::external_body]
pub(crate) fn room<K, V, S>(m: &HashMap<K, V, S>) -> (n: usize)
    ensures
        is_map(*m) ==> n >= m@.len(),
{
    m.capacity()
}

/// Whether the table `m` was asked to make room for `more` entries, and `made` says whether it did.
pub closed spec fn asked_for_room<K: Eq + Hash, V, S: BuildHasher>(
    m: HashMap<K, V, S>,
    more: usize,
    made: bool,
) -> bool {
    exists|t: &mut HashMap<K, V, S>, r: Result<(), TryReserveError>|
        {
            &&& #[trigger] call_ensures(make_room::<K, V, S>, (t, more), r)
            &&& *t == m
            &&& made == (r is Ok)
        }
}

/// Asks for room for `more` entries, and tells whether it was made.
pub(crate) fn ask_for_room<K: Eq + Hash, V, S: BuildHasher>(
    m: &mut HashMap<K, V, S>,
    more: usize,
) -> (made: bool)
    ensures
        asked_for_room(*old(m), more, made),
        final(m)@ == old(m)@,
{
    make_room(m, more).is_ok()
}

/// Whether a fresh table that hashes with `hasher` was asked to make room for `more` entries, and
/// `made` says whether it did.
pub closed spec fn asked_for_fresh_room<K: Eq + Hash, V, S: BuildHasher>(
    hasher: S,
    more: usize,
    made: bool,
) -> bool {
    exists|m: HashMap<K, V, S>|
        {
            &&& call_ensures(empty_table::<K, V, S>, (hasher,), m)
            &&& #[trigger] asked_for_room(m, more, made)
        }
}

/// A table without entries that hashes with `hasher`, and whether the room was made that `room`
/// asks for.
pub(crate) fn table_with_room<K: Eq + Hash, V, S: BuildHasher>(
    hasher: S,
    room: Option<usize>,
) -> (r: (HashMap<K, V, S>, bool))
    ensures
        (r.0@ == Map::<K, V>::empty()),
        match room {
            Some(more) => asked_for_fresh_room::<K, V, S>(hasher, more, r.1),
            None => r.1,
        },
{
    let mut m: HashMap<K, V, S> = empty_table(hasher);
    let made: bool = match room {
        Some(more) => ask_for_room(&mut m, more),
        None => true,
    };
    (m, made)
}

/// Whether the table `m` was asked to give room back down to `room`.
pub closed spec fn asked_for_less_room<K: Eq + Hash, V, S: BuildHasher>(
    m: HashMap<K, V, S>,
    room: usize,
) -> bool {
    exists|t: &mut HashMap<K, V, S>|
        {
            &&& #[trigger] call_ensures(shrink_room::<K, V, S>, (t, room), ())
            &&& *t == m
        }
}

/// Whether an emptied table was asked to give room back down to `room`.
pub open spec fn gave_room_back<K: Eq + Hash, V, S: BuildHasher>(room: usize) -> bool {
    exists|emptied: HashMap<K, V, S>| #[trigger]
        asked_for_less_room(emptied, room) && (keyed::<K, S>() ==> emptied@
            == Map::<K, V>::empty())
}

/// Removes all entries, and gives room back down to `room`.
pub(crate) fn empty_down_to<K: Eq + Hash, V, S: BuildHasher>(m: &mut HashMap<K, V, S>, room: usize)
    ensures
        keyed::<K, S>() ==> (final(m)@ == Map::<K, V>::empty()),
        gave_room_back::<K, V, S>(room),
{
    m.clear();
    let ghost emptied = *m;
    shrink_room(m, room);
    assert(asked_for_less_room(emptied, room));
}

/// Room is asked for, and given back, for as many entries as were named.
pub(crate) proof fn law_room_as_asked<K: Eq + Hash, V, S: BuildHasher>(
    m: HashMap<K, V, S>,
    more: usize,
    made: bool,
)
    ensures
        asked_for_room(m, more, made) ==> exists|
            t: &mut HashMap<K, V, S>,
            r: Result<(), TryReserveError>,
        | #[trigger]
            call_ensures(make_room::<K, V, S>, (t, more), r) && *t == m && made == (r is Ok),
        asked_for_less_room(m, more) ==> exists|t: &mut HashMap<K, V, S>| #[trigger]
            call_ensures(shrink_room::<K, V, S>, (t, more), ()) && *t == m,
{
}

/// A list of all entries has, for each key, its entry, and nothing else.
pub proof fn law_enumerates_each_once<K, V>(list: Seq<(K, V)>, m: Map<K, V>, k: K, v: V)
    requires
        enumerates(list, m),
    ensures
        list.contains((k, v)) <==> m.contains_key(k) && m[k] == v,
        list.no_duplicates(),
{
    if list.contains((k, v)) {
        let i = choose|i: int| 0 <= i < list.len() && list[i] == (k, v);
        assert(m.contains_key(list[i].0));
    }
    if m.contains_key(k) && m[k] == v {
        let i = choose|i: int| 0 <= i < list.len() && (#[trigger] list[i]).0 == k;
        assert(list[i] == (k, v));
    }
    assert forall|i: int, j: int| 0 <= i < list.len() && 0 <= j < list.len() && i != j implies
    list[i] != list[j] by {
        if i < j {
            assert(list[i].0 != list[j].0);
        } else {
            assert(list[j].0 != list[i].0);
        }
    }
}

} // verus!
