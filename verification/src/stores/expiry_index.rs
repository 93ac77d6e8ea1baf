//! Keys in the order of their deadlines.
use crate::stores::listener::share;
use crate::time::Instant;
use std::collections::VecDeque;
use std::sync::Arc;
use vstd::prelude::*;

verus! {

/// Whether `<` on `K` is a total order whose equality is equality of values.
pub open spec fn ordered<K: Ord>() -> bool {
    &&& vstd::laws_cmp::obeys_cmp::<K>()
    &&& vstd::laws_eq::obeys_concrete_eq::<K>()
}

/// Whether the key `a` sorts below the key `b`.
pub open spec fn key_before<K: Ord>(a: K, b: K) -> bool {
    vstd::std_specs::cmp::PartialOrdSpec::partial_cmp_spec(&a, &b) == Some(
        core::cmp::Ordering::Less,
    )
}

/// Whether the deadline `a` comes before the deadline `b`; to never expire comes last.
pub open spec fn deadline_before(a: Option<Instant>, b: Option<Instant>) -> bool {
    match (a, b) {
        (Some(x), Some(y)) => x.nanos < y.nanos,
        (Some(_), None) => true,
        (None, _) => false,
    }
}

/// A deadline and the key that it belongs to. Without a key it is a bound: it sorts below every
/// key with the same deadline.
pub struct Stamped<K> {
    pub expiry: Option<Instant>,
    pub key: Option<Arc<K>>,
}

impl<K: Ord> Stamped<K> {
    /// The order of the index: by deadline, then by key.
    pub open spec fn before(self, other: Self) -> bool {
        ||| deadline_before(self.expiry, other.expiry)
        ||| self.expiry == other.expiry && match (self.key, other.key) {
            (None, Some(_)) => true,
            (Some(a), Some(b)) => key_before(*a, *b),
            _ => false,
        }
    }

    pub fn precedes(&self, other: &Self) -> (b: bool)
        requires
            ordered::<K>(),
        ensures
            b == self.before(*other),
    {
        proof {
            reveal(vstd::laws_cmp::obeys_cmp_partial_ord);
        }
        let same_deadline: bool = match (self.expiry, other.expiry) {
            (Some(x), Some(y)) => {
                if x.nanos < y.nanos {
                    return true;
                }
                x.nanos == y.nanos
            },
            (Some(_), None) => return true,
            (None, Some(_)) => false,
            (None, None) => true,
        };
        same_deadline && match (&self.key, &other.key) {
            (None, Some(_)) => true,
            (Some(a), Some(b)) => **a < **b,
            _ => false,
        }
    }
}

impl<K> Stamped<K> {
    /// The bound below all keys with the deadline `expiry`.
    pub fn bound(expiry: Instant) -> (s: Stamped<K>)
        ensures
            s.expiry == Some(expiry),
            s.key is None,
    {
        Stamped { expiry: Some(expiry), key: None }
    }

    /// A second stamp with the same deadline and key.
    pub fn duplicate(&self) -> (s: Stamped<K>)
        ensures
            s == *self,
    {
        Stamped {
            expiry: self.expiry,
            key: match &self.key {
                Some(key) => Some(share(key)),
                None => None,
            },
        }
    }
}

/// The order of keys is a strict total order.
pub proof fn lemma_keys_ordered<K: Ord>()
    requires
        ordered::<K>(),
    ensures
        forall|a: K| !#[trigger] key_before(a, a),
        forall|a: K, b: K| #[trigger] key_before(a, b) ==> !key_before(b, a),
        forall|a: K, b: K| a != b ==> #[trigger] key_before(a, b) || key_before(b, a),
        forall|a: K, b: K, c: K|
            #[trigger] key_before(a, b) && #[trigger] key_before(b, c) ==> key_before(a, c),
{
    reveal(vstd::laws_cmp::obeys_cmp_partial_ord);
    reveal(vstd::laws_cmp::obeys_cmp_ord);
    reveal(vstd::laws_cmp::obeys_partial_cmp_spec_properties);
    reveal(vstd::laws_eq::obeys_concrete_eq);
    assert forall|a: K, b: K| a != b implies #[trigger] key_before(a, b) || key_before(b, a) by {
        assert(vstd::std_specs::cmp::PartialOrdSpec::partial_cmp_spec(&a, &b) is Some);
    }
    assert forall|a: K| !#[trigger] key_before(a, a) by {
        assert(vstd::std_specs::cmp::PartialEqSpec::eq_spec(&a, &a));
    }
}

/// The order of stamps is a strict total order.
pub proof fn lemma_stamps_ordered<K: Ord>()
    requires
        ordered::<K>(),
    ensures
        forall|a: Stamped<K>| !#[trigger] a.before(a),
        forall|a: Stamped<K>, b: Stamped<K>| #[trigger] a.before(b) ==> !b.before(a),
        forall|a: Stamped<K>, b: Stamped<K>| a != b ==> #[trigger] a.before(b) || b.before(a),
        forall|a: Stamped<K>, b: Stamped<K>, c: Stamped<K>|
            #[trigger] a.before(b) && #[trigger] b.before(c) ==> a.before(c),
{
    lemma_keys_ordered::<K>();
    assert forall|a: Stamped<K>, b: Stamped<K>| a != b implies #[trigger] a.before(b) || b.before(
        a,
    ) by {
        if a.expiry == b.expiry && a.key is Some && b.key is Some {
            assert(*a.key->0 != *b.key->0);
            assert(key_before(*a.key->0, *b.key->0) || key_before(*b.key->0, *a.key->0));
        }
    }
    assert forall|a: Stamped<K>, b: Stamped<K>, c: Stamped<K>|
        #[trigger] a.before(b) && #[trigger] b.before(c) implies a.before(c) by {
        if a.expiry == b.expiry && b.expiry == c.expiry && a.key is Some && b.key is Some {
            assert(key_before(*a.key->0, *b.key->0) && key_before(*b.key->0, *c.key->0));
        }
    }
}

/// Whether `stamps` are in order and each has a key.
pub open spec fn indexed<K: Ord>(stamps: Seq<Stamped<K>>) -> bool {
    &&& forall|i: int| 0 <= i < stamps.len() ==> (#[trigger] stamps[i]).key is Some
    &&& forall|i: int, j: int|
        0 <= i < j < stamps.len() ==> (#[trigger] stamps[i]).before(#[trigger] stamps[j])
}

/// The stamps of the entries of a cache, in order.
#[verifier::reject_recursive_types(K)]
pub struct ExpiryIndex<K> {
    stamps: VecDeque<Stamped<K>>,
}

impl<K> View for ExpiryIndex<K> {
    type V = Seq<Stamped<K>>;

    closed spec fn view(&self) -> Seq<Stamped<K>> {
        self.stamps@
    }
}

impl<K> ExpiryIndex<K> {
    pub fn new() -> (index: ExpiryIndex<K>)
        ensures
            index@ == Seq::<Stamped<K>>::empty(),
    {
        ExpiryIndex { stamps: VecDeque::new() }
    }

    pub fn len(&self) -> (n: usize)
        ensures
            n == self@.len(),
    {
        self.stamps.len()
    }

    pub fn clear(&mut self)
        ensures
            final(self)@ == Seq::<Stamped<K>>::empty(),
    {
        self.stamps.clear()
    }

    /// The stamp at position `i`.
    pub fn get(&self, i: usize) -> (s: &Stamped<K>)
        requires
            i < self@.len(),
        ensures
            *s == self@[i as int],
    {
        &self.stamps[i]
    }

    /// Takes all stamps out.
    pub fn take(&mut self) -> (all: VecDeque<Stamped<K>>)
        ensures
            all@ == old(self)@,
            final(self)@ == Seq::<Stamped<K>>::empty(),
    {
        let mut all: VecDeque<Stamped<K>> = VecDeque::new();
        std::mem::swap(&mut self.stamps, &mut all);
        all
    }

    /// A second index with the same stamps.
    pub fn duplicate(&self) -> (index: ExpiryIndex<K>)
        ensures
            index@ == self@,
    {
        let mut stamps: VecDeque<Stamped<K>> = VecDeque::new();
        let mut i: usize = 0;
        while i < self.stamps.len()
            invariant
                i <= self.stamps.len(),
                stamps@ == self.stamps@.take(i as int),
            decreases self.stamps.len() - i,
        {
            stamps.push_back(self.stamps[i].duplicate());
            i += 1;
        }
        ExpiryIndex { stamps }
    }
}

impl<K: Ord> ExpiryIndex<K> {
    /// How many stamps sort below `s`; they are the first ones.
    pub fn rank(&self, s: &Stamped<K>) -> (n: usize)
        requires
            ordered::<K>(),
            indexed(self@),
        ensures
            n <= self@.len(),
            forall|i: int| 0 <= i < n ==> (#[trigger] self@[i]).before(*s),
            forall|i: int| n <= i < self@.len() ==> !(#[trigger] self@[i]).before(*s),
    {
        proof {
            lemma_stamps_ordered::<K>();
        }
        let mut low: usize = 0;
        let mut high: usize = self.stamps.len();
        while low < high
            invariant
                ordered::<K>(),
                indexed(self.stamps@),
                low <= high <= self.stamps@.len(),
                forall|i: int| 0 <= i < low ==> (#[trigger] self.stamps@[i]).before(*s),
                forall|i: int|
                    high <= i < self.stamps@.len() ==> !(#[trigger] self.stamps@[i]).before(*s),
            decreases high - low,
        {
            let mid: usize = low + (high - low) / 2;
            let below: bool = self.stamps[mid].precedes(s);
            proof {
                lemma_stamps_ordered::<K>();
            }
            if below {
                assert forall|i: int| 0 <= i < mid + 1 implies (
                #[trigger] self.stamps@[i]).before(*s) by {
                    if i < mid {
                        assert(self.stamps@[i].before(self.stamps@[mid as int]));
                    }
                }
                low = mid + 1;
            } else {
                assert forall|i: int| mid <= i < self.stamps@.len() implies !(
                #[trigger] self.stamps@[i]).before(*s) by {
                    if mid < i {
                        assert(self.stamps@[mid as int].before(self.stamps@[i]));
                    }
                }
                high = mid;
            }
        }
        low
    }

    /// Adds the stamp `s` at its place, unless the index holds it.
    pub fn insert(&mut self, s: Stamped<K>)
        requires
            ordered::<K>(),
            indexed(old(self)@),
            s.key is Some,
        ensures
            indexed(final(self)@),
            old(self)@.contains(s) ==> final(self)@ == old(self)@,
            !old(self)@.contains(s) ==> exists|n: int|
                0 <= n <= old(self)@.len() && final(self)@ == #[trigger] old(self)@.insert(n, s),
    {
        let n: usize = self.rank(&s);
        proof {
            lemma_stamps_ordered::<K>();
        }
        let ghost before = self@;
        if n < self.stamps.len() && !s.precedes(&self.stamps[n]) {
            proof {
                assert(self.stamps@[n as int] == s);
            }
        } else {
            proof {
                if before.contains(s) {
                    let i = choose|i: int| 0 <= i < before.len() && before[i] == s;
                    assert(n <= i);
                    assert(n < i);
                    assert(before[n as int].before(before[i]));
                }
            }
            self.stamps.insert(n, s);
            proof {
                assert(self@ == before.insert(n as int, s));
                assert forall|i: int, j: int| 0 <= i < j < self@.len() implies (
                #[trigger] self@[i]).before(#[trigger] self@[j]) by {
                    let pi = if i < n { i } else { i - 1 };
                    let pj = if j < n { j } else { j - 1 };
                    if i == n {
                        assert(self@[j] == before[pj]);
                        if pj > n {
                            assert(before[n as int].before(before[pj]));
                        }
                    } else if j == n {
                        assert(self@[i] == before[pi]);
                    } else {
                        assert(self@[i] == before[pi] && self@[j] == before[pj]);
                    }
                }
                assert forall|i: int| 0 <= i < self@.len() implies (
                #[trigger] self@[i]).key is Some by {
                    if i < n {
                        assert(self@[i] == before[i]);
                    } else if i > n {
                        assert(self@[i] == before[i - 1]);
                    }
                }
            }
        }
    }

    /// Takes the stamp `s` out, if the index holds it.
    pub fn remove(&mut self, s: &Stamped<K>)
        requires
            ordered::<K>(),
            indexed(old(self)@),
        ensures
            indexed(final(self)@),
            !old(self)@.contains(*s) ==> final(self)@ == old(self)@,
            old(self)@.contains(*s) ==> exists|n: int|
                0 <= n < old(self)@.len() && old(self)@[n] == *s && final(self)@
                    == #[trigger] old(self)@.remove(n),
    {
        let n: usize = self.rank(s);
        proof {
            lemma_stamps_ordered::<K>();
        }
        let ghost before = self@;
        if n < self.stamps.len() && !s.precedes(&self.stamps[n]) {
            assert(before[n as int] == *s);
            let _ = self.stamps.remove(n);
            proof {
                assert(self@ == before.remove(n as int));
                lemma_without_one(before, n as int);
            }
        } else {
            proof {
                if before.contains(*s) {
                    let i = choose|i: int| 0 <= i < before.len() && before[i] == *s;
                    assert(n <= i);
                    assert(n < i);
                    assert(before[n as int].before(before[i]));
                }
            }
        }
    }

    /// Takes the first stamp out.
    pub fn pop_first(&mut self) -> (r: Option<Stamped<K>>)
        requires
            indexed(old(self)@),
        ensures
            indexed(final(self)@),
            match r {
                Some(s) => old(self)@.len() > 0 && s == old(self)@[0] && final(self)@
                    == old(self)@.skip(1),
                None => old(self)@.len() == 0 && final(self)@ == old(self)@,
            },
    {
        let ghost before = self@;
        let r = self.stamps.pop_front();
        assert(r is Some ==> self@ == before.skip(1));
        r
    }

    /// Adds a stamp that sorts above all others.
    pub fn push_last(&mut self, s: Stamped<K>)
        requires
            indexed(old(self)@.push(s)),
        ensures
            final(self)@ == old(self)@.push(s),
    {
        self.stamps.push_back(s)
    }

    /// Puts back a stamp that was taken from the front.
    pub fn push_first(&mut self, s: Stamped<K>)
        requires
            s.key is Some,
            indexed(old(self)@),
            indexed(seq![s] + old(self)@),
        ensures
            final(self)@ == seq![s] + old(self)@,
    {
        self.stamps.push_front(s)
    }

    /// Detaches the stamps below the bound `s`.
    pub fn split_below(&mut self, s: &Stamped<K>) -> (front: VecDeque<Stamped<K>>)
        requires
            ordered::<K>(),
            indexed(old(self)@),
        ensures
            front@.len() <= old(self)@.len(),
            front@ == old(self)@.take(front@.len() as int),
            final(self)@ == old(self)@.skip(front@.len() as int),
            indexed(final(self)@),
            forall|i: int| 0 <= i < front@.len() ==> (#[trigger] old(self)@[i]).before(*s),
            forall|i: int|
                front@.len() <= i < old(self)@.len() ==> !(#[trigger] old(self)@[i]).before(*s),
    {
        let n: usize = self.rank(s);
        let ghost before = self@;
        let mut rest = self.stamps.split_off(n);
        std::mem::swap(&mut self.stamps, &mut rest);
        assert(rest@ == before.take(n as int));
        assert(self@ == before.skip(n as int));
        rest
    }
}

/// The front of an index is one.
pub proof fn lemma_front_indexed<K: Ord>(front: Seq<Stamped<K>>, rest: Seq<Stamped<K>>)
    requires
        indexed(front + rest),
    ensures
        indexed(front),
{
    let all = front + rest;
    assert forall|i: int, j: int| 0 <= i < j < front.len() implies (#[trigger] front[i]).before(
        #[trigger] front[j],
    ) by {
        assert(front[i] == all[i] && front[j] == all[j]);
    }
    assert forall|i: int| 0 <= i < front.len() implies (#[trigger] front[i]).key is Some by {
        assert(front[i] == all[i]);
    }
}

/// An index stays one when a stamp is taken out.
pub proof fn lemma_without_one<K: Ord>(stamps: Seq<Stamped<K>>, n: int)
    requires
        indexed(stamps),
        0 <= n < stamps.len(),
    ensures
        indexed(stamps.remove(n)),
{
    let rest = stamps.remove(n);
    assert forall|i: int, j: int| 0 <= i < j < rest.len() implies (#[trigger] rest[i]).before(
        #[trigger] rest[j],
    ) by {
        let pi = if i < n { i } else { i + 1 };
        let pj = if j < n { j } else { j + 1 };
        assert(rest[i] == stamps[pi] && rest[j] == stamps[pj]);
    }
    assert forall|i: int| 0 <= i < rest.len() implies (#[trigger] rest[i]).key is Some by {
        let pi = if i < n { i } else { i + 1 };
        assert(rest[i] == stamps[pi]);
    }
}

} // verus!
