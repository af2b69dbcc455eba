//! What a search is run on: a space of candidates and a check that folds each
//! candidate into the best result so far.

use crate::spaces::{Candidates, Space};
use vstd::prelude::*;

verus! {

/// A search problem.
pub trait Problem: Sized {
    /// The space of candidates.
    type Space: Space;

    /// The accumulated result of the search.
    type Out: Clone;

    /// Relates the problem before it supplied its space to the problem after
    /// that and to the space supplied.
    spec fn starts(self, after: Self, space: Self::Space) -> bool;

    /// Supplies the space to search.
    fn initial_space(&mut self) -> (space: Self::Space)
        ensures
            (*old(self)).starts(*final(self), space),
    ;

    /// What `check` decides: the new best result where `candidate` improves on
    /// `latest`, `None` where it does not.
    spec fn improved(
        &self,
        candidate: <<Self::Space as Space>::Batch as Candidates>::Item,
        latest: Self::Out,
    ) -> Option<Self::Out>;

    /// Checks one candidate against the best result so far.
    fn check(
        &self,
        candidate: <<<Self as Problem>::Space as Space>::Batch as Candidates>::Item,
        latest_out: &<Self as Problem>::Out,
    ) -> (r: Option<Self::Out>)
        ensures
            r == self.improved(candidate, *latest_out),
    ;
}

} // verus!
