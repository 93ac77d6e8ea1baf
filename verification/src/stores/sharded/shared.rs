//! Settings that the shards of a cache share, and that threads may change.
use crate::time::Duration;
use std::sync::atomic::{AtomicBool, AtomicU64, Ordering};
use vstd::prelude::*;

verus! {

/// A time to live, in nanoseconds.
pub struct SharedTtl {
    nanos: AtomicU64,
}

impl SharedTtl {
    /// Whether this is a fresh cell around `nanos`.
    pub closed spec fn made_of(self, nanos: u64) -> bool {
        call_ensures(AtomicU64::new, (nanos,), self.nanos)
    }

    /// Whether `nanos` is a reading.
    pub closed spec fn reads(self, nanos: u64) -> bool {
        call_ensures(AtomicU64::load, (&self.nanos, Ordering::Relaxed), nanos)
    }

    /// Whether `former` is what putting `nanos` in its place gives.
    pub closed spec fn trades(self, nanos: u64, former: u64) -> bool {
        call_ensures(AtomicU64::swap, (&self.nanos, nanos, Ordering::Relaxed), former)
    }

    /// The cell that holds the nanoseconds.
    pub closed spec fn cell(self) -> AtomicU64 {
        self.nanos
    }

    /// What is made, read and traded is the value of the cell, as it is.
    pub proof fn law_is_the_cell(self, nanos: u64, former: u64)
        ensures
            self.made_of(nanos) <==> call_ensures(AtomicU64::new, (nanos,), self.cell()),
            self.reads(nanos) <==> call_ensures(
                AtomicU64::load,
                (&self.cell(), Ordering::Relaxed),
                nanos,
            ),
            self.trades(nanos, former) <==> call_ensures(
                AtomicU64::swap,
                (&self.cell(), nanos, Ordering::Relaxed),
                former,
            ),
    {
    }

    pub fn new(nanos: u64) -> (s: SharedTtl)
        ensures
            s.made_of(nanos),
    {
        SharedTtl { nanos: AtomicU64::new(nanos) }
    }

    /// The time to live in nanoseconds, as it stands.
    pub fn nanos(&self) -> (nanos: u64)
        ensures
            self.reads(nanos),
    {
        self.nanos.load(Ordering::Relaxed)
    }

    /// Puts `nanos` in the place of the time to live, and returns the former one.
    pub fn swap(&self, nanos: u64) -> (former: u64)
        ensures
            self.trades(nanos, former),
    {
        self.nanos.swap(nanos, Ordering::Relaxed)
    }

    /// Whether `ttl` is a reading.
    pub open spec fn shows(self, ttl: Duration) -> bool {
        ttl.nanos <= u64::MAX && self.reads(ttl.nanos as u64)
    }

    /// The time to live as it stands.
    pub fn ttl(&self) -> (ttl: Duration)
        ensures
            self.shows(ttl),
    {
        Duration::from_nanos(self.nanos())
    }
}

/// A switch.
pub struct SharedFlag {
    flag: AtomicBool,
}

impl SharedFlag {
    /// Whether this is a fresh switch that stands at `flag`.
    pub closed spec fn made_of(self, flag: bool) -> bool {
        call_ensures(AtomicBool::new, (flag,), self.flag)
    }

    /// Whether `flag` is a reading.
    pub closed spec fn reads(self, flag: bool) -> bool {
        call_ensures(AtomicBool::load, (&self.flag, Ordering::Relaxed), flag)
    }

    /// Whether `former` is what setting the switch to `flag` gives.
    pub closed spec fn trades(self, flag: bool, former: bool) -> bool {
        call_ensures(AtomicBool::swap, (&self.flag, flag, Ordering::Relaxed), former)
    }

    /// The cell that holds the switch.
    pub closed spec fn cell(self) -> AtomicBool {
        self.flag
    }

    /// What is made, read and traded is the value of the cell, as it is.
    pub proof fn law_is_the_cell(self, flag: bool, former: bool)
        ensures
            self.made_of(flag) <==> call_ensures(AtomicBool::new, (flag,), self.cell()),
            self.reads(flag) <==> call_ensures(
                AtomicBool::load,
                (&self.cell(), Ordering::Relaxed),
                flag,
            ),
            self.trades(flag, former) <==> call_ensures(
                AtomicBool::swap,
                (&self.cell(), flag, Ordering::Relaxed),
                former,
            ),
    {
    }

    pub fn new(flag: bool) -> (s: SharedFlag)
        ensures
            s.made_of(flag),
    {
        SharedFlag { flag: AtomicBool::new(flag) }
    }

    /// The switch as it stands.
    pub fn get(&self) -> (flag: bool)
        ensures
            self.reads(flag),
    {
        self.flag.load(Ordering::Relaxed)
    }

    /// Sets the switch to `flag`, and returns where it stood.
    pub fn swap(&self, flag: bool) -> (former: bool)
        ensures
            self.trades(flag, former),
    {
        self.flag.swap(flag, Ordering::Relaxed)
    }
}

} // verus!
