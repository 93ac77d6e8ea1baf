//! Deadlines of entries.
use crate::time::{Clock, Duration, Instant};
use vstd::prelude::*;

verus! {

/// A cached value and its deadline; `None` stands for "never expires".
#[derive(Debug)]
pub struct TimedEntry<V> {
    pub expires_at: Option<Instant>,
    pub value: V,
}

impl<V: Clone> Clone for TimedEntry<V> {
    fn clone(&self) -> (e: Self)
        ensures
            copies_entry(*self, e),
    {
        TimedEntry { expires_at: self.expires_at, value: self.value.clone() }
    }
}

/// Whether `b` has the deadline of `a` and a clone of its value.
pub open spec fn copies_entry<V: Clone>(a: TimedEntry<V>, b: TimedEntry<V>) -> bool {
    &&& b.expires_at == a.expires_at
    &&& cloned(a.value, b.value)
}

/// Whether `b` has the keys of `a`, with their deadlines and clones of their values.
pub open spec fn copies<K, V: Clone>(
    a: Map<K, TimedEntry<V>>,
    b: Map<K, TimedEntry<V>>,
) -> bool {
    &&& b.dom() == a.dom()
    &&& forall|k: K| #[trigger] a.contains_key(k) ==> copies_entry(a[k], b[k])
}

/// Whether `r` is a clone of the value under `k`, expired or not, and its deadline.
pub open spec fn peeks<K, V: Clone>(
    m: Map<K, TimedEntry<V>>,
    k: K,
    r: (Option<V>, Option<Instant>),
) -> bool {
    match r.0 {
        Some(v) => m.contains_key(k) && cloned(m[k].value, v) && r.1 == m[k].expires_at,
        None => !m.contains_key(k) && r.1 is None,
    }
}

/// Whether `r` tells that there is an entry under `k`, expired or not, and its deadline.
pub open spec fn finds<K, V>(
    m: Map<K, TimedEntry<V>>,
    k: K,
    r: (bool, Option<Instant>),
) -> bool {
    &&& r.0 == m.contains_key(k)
    &&& r.1 == if r.0 {
        m[k].expires_at
    } else {
        None
    }
}

impl<V> TimedEntry<V> {
    /// Whether the entry has expired at `now`: at its deadline or after it.
    pub open spec fn expired(self, now: Instant) -> bool {
        expired(self.expires_at, now)
    }

    pub fn is_expired_at(&self, now: Instant) -> (b: bool)
        ensures
            b == self.expired(now),
    {
        is_past(self.expires_at, now)
    }
}

/// An entry as a cache lists it, expired or not, to be judged by those who reach it.
pub struct Listed<'a, K, V> {
    pub key: &'a K,
    pub value: &'a V,
    pub expires_at: Option<Instant>,
}

impl<'a, K, V> Listed<'a, K, V> {
    /// The key and the entry that are listed.
    pub open spec fn stored(self) -> (K, TimedEntry<V>) {
        (*self.key, TimedEntry { expires_at: self.expires_at, value: *self.value })
    }

    /// The key and the value, unless the entry has expired at `now`.
    pub fn live_at(&self, now: Instant) -> (r: Option<(&'a K, &'a V)>)
        ensures
            match r {
                Some((k, v)) => !expired(self.expires_at, now) && k == self.key && v == self.value,
                None => expired(self.expires_at, now),
            },
    {
        if is_past(self.expires_at, now) {
            None
        } else {
            Some((self.key, self.value))
        }
    }

    /// The key and the value, unless the entry has expired at the instant that `clock` shows.
    pub fn live(&self, clock: &Clock) -> (r: Option<(&'a K, &'a V)>)
        ensures
            exists|now: Instant| #[trigger]
                clock.shows(now) && match r {
                    Some((k, v)) => !expired(self.expires_at, now) && k == self.key && v
                        == self.value,
                    None => expired(self.expires_at, now),
                },
    {
        let now = clock.now();
        self.live_at(now)
    }
}

/// The keys and entries that are listed.
pub open spec fn listed<K, V>(list: Seq<Listed<'_, K, V>>) -> Seq<(K, TimedEntry<V>)> {
    list.map_values(|e: Listed<'_, K, V>| e.stored())
}

/// Whether the deadline `at` has come at `now`.
pub open spec fn expired(at: Option<Instant>, now: Instant) -> bool {
    at matches Some(t) && t.nanos <= now.nanos
}

/// The deadline of an entry that is written at `now`. A zero time to live, or one that leads past
/// the last instant, gives an entry that never expires.
pub open spec fn deadline(ttl: Duration, now: Instant) -> Option<Instant> {
    if ttl.nanos == 0 {
        None
    } else {
        now.after(ttl)
    }
}

/// A wrapping counter after `n` more events.
pub open spec fn bump(count: u64, n: int) -> u64 {
    ((count + n) % 0x1_0000_0000_0000_0000) as u64
}

/// A configured time to live as it is reported: zero means that entries do not expire.
pub open spec fn reported(ttl: Duration) -> Option<Duration> {
    if ttl.nanos == 0 {
        None
    } else {
        Some(ttl)
    }
}

pub fn is_past(at: Option<Instant>, now: Instant) -> (b: bool)
    ensures
        b == expired(at, now),
{
    match at {
        Some(t) => t.nanos <= now.nanos,
        None => false,
    }
}

pub fn compute_expires_at(ttl: Duration, now: Instant) -> (at: Option<Instant>)
    ensures
        at == deadline(ttl, now),
{
    if ttl.is_zero() {
        None
    } else {
        now.checked_add(ttl)
    }
}

pub fn report_ttl(ttl: Duration) -> (r: Option<Duration>)
    ensures
        r == reported(ttl),
{
    if ttl.is_zero() {
        None
    } else {
        Some(ttl)
    }
}

/// `count` after `n` more events.
pub(crate) fn count_up(count: u64, n: usize) -> (r: u64)
    ensures
        r == bump(count, n as int),
{
    count.wrapping_add(n as u64)
}

/// Two counts in a row are one count of both.
pub proof fn lemma_bump_twice(count: u64, m: nat, n: nat)
    ensures
        bump(bump(count, m as int), n as int) == bump(count, (m + n) as int),
{
    vstd::arithmetic::div_mod::lemma_add_mod_noop(
        count + m,
        n as int,
        0x1_0000_0000_0000_0000,
    );
    vstd::arithmetic::div_mod::lemma_small_mod(n % 0x1_0000_0000_0000_0000, 0x1_0000_0000_0000_0000);
    vstd::arithmetic::div_mod::lemma_add_mod_noop_right(
        (count + m) % 0x1_0000_0000_0000_0000,
        n as int,
        0x1_0000_0000_0000_0000,
    );
}

/// An entry is live before its deadline, and expired at its deadline and ever after.
pub proof fn law_expires_at_the_deadline<V>(e: TimedEntry<V>, t: Instant, now: Instant)
    requires
        e.expires_at == Some(t),
    ensures
        e.expired(now) <==> t.nanos <= now.nanos,
        e.expired(t),
{
}

/// An entry that is written with a time to live of zero, or with one that leads past the last
/// instant, never expires.
pub proof fn law_never_expires<V>(e: TimedEntry<V>, ttl: Duration, written: Instant, now: Instant)
    requires
        e.expires_at == deadline(ttl, written),
        ttl.nanos == 0 || written.nanos + ttl.nanos > crate::time::LAST_INSTANT_NANOS,
    ensures
        !e.expired(now),
{
}

/// Any other entry lives for its time to live, and no longer.
pub proof fn law_lives_for_its_ttl<V>(
    e: TimedEntry<V>,
    ttl: Duration,
    written: Instant,
    now: Instant,
)
    requires
        e.expires_at == deadline(ttl, written),
        ttl.nanos != 0,
        written.nanos + ttl.nanos <= crate::time::LAST_INSTANT_NANOS,
    ensures
        e.expired(now) <==> written.nanos + ttl.nanos <= now.nanos,
{
}

} // verus!
