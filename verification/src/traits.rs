//! What caches of different kinds have in common.
use crate::stores::expiry::{self, TimedEntry};
use crate::time::Instant;
use vstd::prelude::*;

verus! {

/// A cache whose entries have deadlines that can be read without a look-up being counted.
pub trait CacheExpiry<K, V> {
    /// Whether the cache is in order.
    spec fn readable(&self) -> bool;

    /// The entries of the cache.
    spec fn deadlines(&self) -> Map<K, TimedEntry<V>>;

    /// A clone of the value under `k`, expired or not, and its deadline.
    fn cache_peek_expires_at(&self, k: &K) -> (r: (Option<V>, Option<Instant>)) where V: Clone
        requires
            self.readable(),
        ensures
            match r.0 {
                Some(v) => {
                    &&& self.deadlines().contains_key(*k)
                    &&& cloned(self.deadlines()[*k].value, v)
                    &&& r.1 == self.deadlines()[*k].expires_at
                },
                None => !self.deadlines().contains_key(*k) && r.1 is None,
            },
    ;

    /// Whether there is an entry under `k`, expired or not, and its deadline.
    fn cache_expires_at(&self, k: &K) -> (r: (bool, Option<Instant>))
        requires
            self.readable(),
        ensures
            r.0 == self.deadlines().contains_key(*k),
            r.1 == if r.0 {
                self.deadlines()[*k].expires_at
            } else {
                None
            },
    ;

    /// The same as [`cache_peek_expires_at`](Self::cache_peek_expires_at).
    fn peek_expires_at(&self, k: &K) -> (r: (Option<V>, Option<Instant>)) where V: Clone
        requires
            self.readable(),
        ensures
            match r.0 {
                Some(v) => {
                    &&& self.deadlines().contains_key(*k)
                    &&& cloned(self.deadlines()[*k].value, v)
                    &&& r.1 == self.deadlines()[*k].expires_at
                },
                None => !self.deadlines().contains_key(*k) && r.1 is None,
            },
    {
        self.cache_peek_expires_at(k)
    }

    /// The same as [`cache_expires_at`](Self::cache_expires_at).
    fn expires_at(&self, k: &K) -> (r: (bool, Option<Instant>))
        requires
            self.readable(),
        ensures
            r.0 == self.deadlines().contains_key(*k),
            r.1 == if r.0 {
                self.deadlines()[*k].expires_at
            } else {
                None
            },
    {
        self.cache_expires_at(k)
    }
}

/// A cache whose expired entries can be swept.
pub trait CacheEvict {
    /// Whether the cache is in order.
    spec fn sweepable(&self) -> bool;

    /// The number of entries, expired ones among them.
    spec fn entry_count(&self) -> nat;

    /// Removes the expired entries as evicted, and returns their number.
    fn evict(&mut self) -> (n: usize)
        requires
            old(self).sweepable(),
        ensures
            final(self).sweepable(),
            final(self).entry_count() + n == old(self).entry_count(),
    ;
}

/// A cache for many threads whose expired entries can be swept.
pub trait ConcurrentCacheEvict {
    /// Whether the cache is in order.
    spec fn sweepable(&self) -> bool;

    /// Whether `n` is what removing the expired entries as evicted gives.
    spec fn swept(&self, n: usize) -> bool;

    /// Removes the expired entries as evicted, and returns their number.
    fn evict(&self) -> (n: usize)
        requires
            self.sweepable(),
        ensures
            self.swept(n),
    ;
}

/// A cache that can be cleared with its callback being called.
pub trait CacheClearWithOnEvict {
    /// Whether the cache is in order.
    spec fn clearable(&self) -> bool;

    /// Whether the cache has no entry.
    spec fn vacant(&self) -> bool;

    /// Removes all entries, and calls the callback, if there is one, for each.
    fn cache_clear_with_on_evict(&mut self)
        requires
            old(self).clearable(),
        ensures
            final(self).clearable(),
            final(self).vacant(),
    ;
}

/// A cache for many threads whose entries have deadlines that can be read without a look-up being
/// counted. What is read is what another thread may have left there a moment ago.
pub trait ConcurrentCacheExpiry<K, V> {
    /// Whether the cache is in order.
    spec fn readable(&self) -> bool;

    /// Whether `r` is what reading the value and the deadline of `k` gives.
    spec fn peeked(&self, k: K, r: (Option<V>, Option<Instant>)) -> bool where V: Clone;

    /// Whether `r` is what reading the deadline of `k` gives.
    spec fn found(&self, k: K, r: (bool, Option<Instant>)) -> bool;

    /// A clone of the value under `k`, expired or not, and its deadline.
    fn cache_peek_expires_at(&self, k: &K) -> (r: (Option<V>, Option<Instant>)) where V: Clone
        requires
            self.readable(),
        ensures
            self.peeked(*k, r),
            exists|held: Map<K, TimedEntry<V>>| #[trigger] expiry::peeks(held, *k, r),
    ;

    /// Whether there is an entry under `k`, expired or not, and its deadline.
    fn cache_expires_at(&self, k: &K) -> (r: (bool, Option<Instant>))
        requires
            self.readable(),
        ensures
            self.found(*k, r),
            exists|held: Map<K, TimedEntry<V>>| #[trigger] expiry::finds(held, *k, r),
    ;

    /// The same as [`cache_peek_expires_at`](Self::cache_peek_expires_at).
    fn peek_expires_at(&self, k: &K) -> (r: (Option<V>, Option<Instant>)) where V: Clone
        requires
            self.readable(),
        ensures
            self.peeked(*k, r),
            exists|held: Map<K, TimedEntry<V>>| #[trigger] expiry::peeks(held, *k, r),
    {
        self.cache_peek_expires_at(k)
    }

    /// The same as [`cache_expires_at`](Self::cache_expires_at).
    fn expires_at(&self, k: &K) -> (r: (bool, Option<Instant>))
        requires
            self.readable(),
        ensures
            self.found(*k, r),
            exists|held: Map<K, TimedEntry<V>>| #[trigger] expiry::finds(held, *k, r),
    {
        self.cache_expires_at(k)
    }
}

} // verus!
