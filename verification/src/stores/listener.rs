//! The eviction callback of a cache.
use std::sync::Arc;
use vstd::prelude::*;

verus! {

/// What a cache calls for an entry that it evicts. Every closure over a key and a value is one.
pub trait Observer<K, V>: Send + Sync {
    /// Whether the observer can be told of any entry.
    spec fn attentive(&self) -> bool;

    /// Whether the observer was told of the entry `(k, v)`, and returned.
    spec fn hears(&self, k: K, v: V) -> bool;

    fn evicted(&self, k: &K, v: &V)
        requires
            self.attentive(),
        ensures
            self.hears(*k, *v),
    ;
}

impl<K, V, F: Fn(&K, &V) + Send + Sync> Observer<K, V> for F {
    open spec fn attentive(&self) -> bool {
        forall|k: &K, v: &V| call_requires(*self, (k, v))
    }

    open spec fn hears(&self, k: K, v: V) -> bool {
        call_ensures(*self, (&k, &v), ())
    }

    fn evicted(&self, k: &K, v: &V) {
        self(k, v)
    }
}

/// A callback, shared by the handles and copies of a cache.
pub type OnEvict<K, V> = Arc<Box<dyn Observer<K, V>>>;

/// `Arc::clone`: a second pointer to the same value.
#[verifier::external_body]
pub(crate) fn share<T>(a: &Arc<T>) -> (r: Arc<T>)
    ensures
        r == *a,
{
    Arc::clone(a)
}

/// Whether to call `callback` is to call `f`.
pub open spec fn calls<K, V, F: Fn(&K, &V)>(callback: Option<OnEvict<K, V>>, f: F) -> bool {
    callback matches Some(g) && forall|k: K, v: V| #[trigger]
        g.hears(k, v) <==> call_ensures(f, (&k, &v), ())
}

/// Whether `callback`, if there is one, was called for each of the entries `heard`.
pub open spec fn called_for<K, V>(
    callback: Option<OnEvict<K, V>>,
    heard: Seq<(K, V)>,
) -> bool {
    callback matches Some(f) ==> forall|i: int|
        0 <= i < heard.len() ==> f.hears((#[trigger] heard[i]).0, heard[i].1)
}

/// A closure as a callback.
pub(crate) fn on_evict_from<K, V, F: Fn(&K, &V) + Send + Sync + 'static>(f: F) -> (r: OnEvict<K, V>)
    requires
        forall|k: &K, v: &V| call_requires(f, (k, v)),
    ensures
        r.attentive(),
        calls(Some(r), f),
{
    Arc::new(Box::new(f))
}

/// A second pointer to the callback of a builder or a cache, where there is one.
pub(crate) fn share_on_evict<K, V>(f: &Option<OnEvict<K, V>>) -> (r: Option<OnEvict<K, V>>)
    ensures
        r == *f,
{
    match f {
        Some(f) => Some(share(f)),
        None => None,
    }
}

/// A callback, if there is one, with a record of the entries that it was called for.
#[verifier::reject_recursive_types(K)]
#[verifier::reject_recursive_types(V)]
pub struct Listener<K, V> {
    callback: Option<OnEvict<K, V>>,
    heard: Ghost<Seq<(K, V)>>,
}

impl<K, V> Listener<K, V> {
    /// The callback, if there is one.
    pub closed spec fn callback(&self) -> Option<OnEvict<K, V>> {
        self.callback
    }

    /// The entries that the callback was called for, in the order of the calls.
    pub closed spec fn heard(&self) -> Seq<(K, V)> {
        self.heard@
    }

    /// Whether the callback, if there is one, takes any entry, and was called for the entries on
    /// record.
    pub open spec fn wf(&self) -> bool {
        &&& self.callback() matches Some(f) ==> f.attentive()
        &&& called_for(self.callback(), self.heard())
    }

    pub fn new(callback: Option<OnEvict<K, V>>) -> (l: Listener<K, V>)
        ensures
            l.callback() == callback,
            l.heard() == Seq::<(K, V)>::empty(),
            l.wf() == (callback matches Some(f) ==> f.attentive()),
    {
        Listener { callback, heard: Ghost(Seq::empty()) }
    }

    /// A listener with the same callback that has heard nothing.
    pub fn fresh(&self) -> (l: Listener<K, V>)
        ensures
            l.callback() == self.callback(),
            l.heard() == Seq::<(K, V)>::empty(),
            self.wf() ==> l.wf(),
    {
        Listener { callback: share_on_evict(&self.callback), heard: Ghost(Seq::empty()) }
    }

    pub fn is_listening(&self) -> (b: bool)
        ensures
            b == (self.callback() is Some),
    {
        self.callback.is_some()
    }

    /// Calls the callback, if there is one, for the entry `(k, v)`.
    pub fn notify(&mut self, k: &K, v: &V)
        requires
            old(self).wf(),
        ensures
            final(self).wf(),
            final(self).callback() == old(self).callback(),
            old(self).callback() matches Some(f) ==> f.hears(*k, *v),
            final(self).heard() == if old(self).callback() is Some {
                old(self).heard().push((*k, *v))
            } else {
                old(self).heard()
            },
    {
        let ghost before = self.heard();
        if let Some(f) = &self.callback {
            f.evicted(k, v);
            proof {
                self.heard@ = self.heard@.push((*k, *v));
                assert forall|i: int| 0 <= i < self.heard().len() implies f.hears(
                    (#[trigger] self.heard()[i]).0,
                    self.heard()[i].1,
                ) by {
                    if i < before.len() {
                        assert(self.heard()[i] == before[i]);
                    }
                }
            }
        }
    }
}

} // verus!
