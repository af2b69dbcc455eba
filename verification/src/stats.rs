//! Throughput statistics: how many candidates were handed out since the
//! statistics were last cleared, and when that was.

use crate::clock::{elapsed_since, now};
use metered::HitCount;
use std::time::{Duration, Instant};
use vstd::prelude::*;

verus! {

/// A hit counter of `metered`, held so that only the functions below reach it.
/// Nothing inside it is visible to proofs: Verus cannot be told of the type
/// itself, whose parameter is bound by a trait of `metered`.
#[verifier::external_body]
#[derive(Debug)]
pub struct Hits {
    counter: HitCount,
}

/// The number that a hit counter holds.
pub uninterp spec fn hit_count(hits: Hits) -> nat;

/// Calls `HitCount::default`: a counter that holds 0.
#[verifier::external_body]
fn fresh_counter() -> (hits: Hits)
    ensures
        hit_count(hits) == 0,
{
    Hits { counter: HitCount::default() }
}

/// Calls `Counter::incr_by` on the counter inside: the number grows by `n`,
/// and starts again from 0 where it runs past the largest `u64`.
#[verifier::external_body]
fn count_hits(hits: &mut Hits, n: usize)
    ensures
        hit_count(*final(hits)) == wrapped(hit_count(*old(hits)) + n as nat),
{
    metered::metric::Counter::incr_by(&hits.counter.0, n)
}

/// Calls `Clear::clear`: the counter holds 0 again.
#[verifier::external_body]
fn clear_counter(hits: &mut Hits)
    ensures
        hit_count(*final(hits)) == 0,
{
    metered::clear::Clear::clear(&hits.counter)
}

/// Calls `AtomicInt::get` on the counter inside: the number it holds.
#[verifier::external_body]
fn read_counter(hits: &Hits) -> (r: u64)
    ensures
        r == hit_count(*hits),
{
    hits.counter.0.get()
}

/// The number of candidates handed out since the last clearing, and the time
/// of that clearing.
#[derive(Debug)]
pub struct Stats {
    recording_since: Instant,
    count: Hits,
}

/// A count that has run past the largest `u64` starts again from 0.
pub open spec fn wrapped(count: nat) -> nat {
    (count % 0x1_0000_0000_0000_0000) as nat
}

impl Stats {
    /// The number of candidates counted since the last clearing.
    pub closed spec fn count(&self) -> nat {
        hit_count(self.count)
    }

    /// Fresh statistics: nothing counted, recording from now on.
    pub fn new() -> (r: Self)
        ensures
            r.count() == 0,
    {
        Stats { recording_since: now(), count: fresh_counter() }
    }

    /// Counts `n` more candidates.
    pub fn record(&mut self, n: usize)
        ensures
            final(self).count() == wrapped(old(self).count() + n as nat),
    {
        count_hits(&mut self.count, n);
    }

    /// Forgets what was counted and records from now on.
    pub fn clear(&mut self)
        ensures
            final(self).count() == 0,
    {
        clear_counter(&mut self.count);
        self.recording_since = now();
    }

    /// The number of candidates counted since the last clearing.
    pub fn hits(&self) -> (r: u64)
        ensures
            r == self.count(),
    {
        read_counter(&self.count)
    }

    /// The time that has passed since the last clearing. The clock decides.
    pub fn recording_time(&self) -> Duration {
        elapsed_since(&self.recording_since)
    }
}

impl Default for Stats {
    fn default() -> (r: Self)
        ensures
            r.count() == 0,
    {
        Stats::new()
    }
}

} // verus!
