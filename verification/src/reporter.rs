//! The interface through which progress is reported.

use crate::problem::Problem;
use crate::stats::Stats;
use vstd::prelude::*;

verus! {

/// Receives, once per reporting interval, the space, the best result so far
/// and the statistics of the interval. What it does with them is its own
/// affair.
pub trait Reporter<P: Problem> {
    fn report_on(&mut self, space: &P::Space, out: &P::Out, stats: &Stats);
}

/// A reporter that reports nothing.
pub struct NullReporter;

impl<P: Problem> Reporter<P> for NullReporter {
    fn report_on(&mut self, _space: &P::Space, _out: &P::Out, _stats: &Stats) {
    }
}

} // verus!
