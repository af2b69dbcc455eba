//! The wall clock, as far as the library reads it.

use std::time::{Duration, Instant};
use vstd::prelude::*;

verus! {

/// A reading of the monotonic clock (`std::time::Instant`); nothing inside it
/// is visible to proofs.
#[verifier::external_type_specification]
#[verifier::external_body]
pub struct ExInstant(std::time::Instant);

/// The whole length of a duration in nanoseconds, as `Duration::as_nanos`
/// gives it.
pub uninterp spec fn nanos(d: Duration) -> nat;

/// Calls `Instant::now`. The reading depends on when the call is made, so
/// nothing is claimed of it.
#[verifier::external_body]
pub(crate) fn now() -> Instant {
    Instant::now()
}

/// Calls `Instant::elapsed`: the time that has passed since `at` was read.
/// Nothing is claimed of how much that is.
#[verifier::external_body]
pub(crate) fn elapsed_since(at: &Instant) -> Duration {
    at.elapsed()
}

/// Calls `Duration::as_nanos`: the result is the duration's length in
/// nanoseconds, by which two durations are compared.
#[verifier::external_body]
pub(crate) fn as_nanos(d: &Duration) -> (r: u128)
    ensures
        r == nanos(*d),
{
    d.as_nanos()
}

} // verus!
