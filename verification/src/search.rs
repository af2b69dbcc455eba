//! The flat search, as the steps of one worker: withdraw a batch together with
//! a copy of the best result so far, fold the check over the batch, and
//! publish the outcome where it differs from that copy. The caller runs these
//! steps on as many workers as it likes, and holds its lock around the first
//! and the last step only.

use crate::batch_size::{floored, grown, shrunk, BatchSizeOptimizer, SEED_SIZE};
use crate::problem::Problem;
use crate::reporter::Reporter;
use crate::spaces::{Candidates, Space};
use crate::stats::{wrapped, Stats};
use vstd::pervasive::cloned;
use vstd::prelude::*;
use vstd::std_specs::cmp::PartialEqSpec;

verus! {

/// The state that all workers share: the space, the best result so far, and
/// the statistics.
pub struct Mutable<S: Space, O> {
    out: O,
    space: S,
    stats: Stats,
}

/// The batch of a withdrawal, if it handed one out.
pub open spec fn batch_of<B, O>(withdrawn: Option<(B, O)>) -> Option<B> {
    match withdrawn {
        Some((batch, _)) => Some(batch),
        None => None,
    }
}

/// The best result after `candidates` were checked in order, starting from
/// `state`: each candidate that improves on the result so far replaces it.
pub open spec fn folded<P: Problem>(
    problem: &P,
    candidates: Seq<<<P::Space as Space>::Batch as Candidates>::Item>,
    state: P::Out,
) -> P::Out
    decreases candidates.len(),
{
    if candidates.len() == 0 {
        state
    } else {
        let next = match problem.improved(candidates[0], state) {
            Some(better) => better,
            None => state,
        };
        folded(problem, candidates.skip(1), next)
    }
}

/// Whether any of `candidates`, checked in order starting from `state`,
/// improves on the result before it.
pub open spec fn any_improved<P: Problem>(
    problem: &P,
    candidates: Seq<<<P::Space as Space>::Batch as Candidates>::Item>,
    state: P::Out,
) -> bool
    decreases candidates.len(),
{
    if candidates.len() == 0 {
        false
    } else {
        match problem.improved(candidates[0], state) {
            Some(better) => true,
            None => any_improved(problem, candidates.skip(1), state),
        }
    }
}

/// Whether `value` is what the check returns for one of `candidates` against
/// some earlier result.
pub open spec fn is_check_result<P: Problem>(
    problem: &P,
    candidates: Seq<<<P::Space as Space>::Batch as Candidates>::Item>,
    value: P::Out,
) -> bool {
    exists|i: int, against: P::Out|
        0 <= i < candidates.len() && #[trigger] problem.improved(candidates[i], against) == Some(
            value,
        )
}

/// Where a candidate of a batch improved on the result, the outcome of the
/// fold is what the check returned for one candidate of that batch: never a
/// value that no check produced.
pub proof fn lemma_outcome_is_check_result<P: Problem>(
    problem: &P,
    candidates: Seq<<<P::Space as Space>::Batch as Candidates>::Item>,
    state: P::Out,
)
    ensures
        any_improved(problem, candidates, state) ==> is_check_result(
            problem,
            candidates,
            folded(problem, candidates, state),
        ),
        !any_improved(problem, candidates, state) ==> folded(problem, candidates, state) == state,
    decreases candidates.len(),
{
    if candidates.len() > 0 {
        let rest = candidates.skip(1);
        let next = match problem.improved(candidates[0], state) {
            Some(better) => better,
            None => state,
        };
        lemma_outcome_is_check_result(problem, rest, next);
        let end = folded(problem, candidates, state);
        if any_improved(problem, rest, next) {
            let (i, against) = choose|i: int, against: P::Out|
                0 <= i < rest.len() && #[trigger] problem.improved(rest[i], against) == Some(end);
            assert(problem.improved(candidates[i + 1], against) == Some(end));
        } else if problem.improved(candidates[0], state) is Some {
            assert(problem.improved(candidates[0], state) == Some(end));
        }
    }
}

/// Folding the check over two batches, one after the other, is folding it
/// over their candidates taken together: where workers take turns, the best
/// result does not depend on how the space was cut into batches.
pub proof fn lemma_fold_in_batches<P: Problem>(
    problem: &P,
    first: Seq<<<P::Space as Space>::Batch as Candidates>::Item>,
    second: Seq<<<P::Space as Space>::Batch as Candidates>::Item>,
    state: P::Out,
)
    ensures
        folded(problem, first + second, state) == folded(
            problem,
            second,
            folded(problem, first, state),
        ),
    decreases first.len(),
{
    if first.len() == 0 {
        assert(first + second =~= second);
    } else {
        let next = match problem.improved(first[0], state) {
            Some(better) => better,
            None => state,
        };
        assert((first + second).skip(1) =~= first.skip(1) + second);
        lemma_fold_in_batches(problem, first.skip(1), second, next);
    }
}

impl<S: Space, O: Clone> Mutable<S, O> {
    /// The space that batches are withdrawn from.
    pub closed spec fn space(self) -> S {
        self.space
    }

    /// The best result published so far.
    pub closed spec fn out(self) -> O {
        self.out
    }

    /// The statistics.
    pub closed spec fn stats(self) -> Stats {
        self.stats
    }

    /// The shared state at the start of a search.
    pub fn new(space: S, out: O) -> (r: Self)
        ensures
            r.space() == space,
            r.out() == out,
            r.stats().count() == 0,
    {
        Mutable { out, space, stats: Stats::new() }
    }

    /// Withdraws a batch of up to `n` candidates together with a copy of the
    /// best result so far, and counts the candidates. `None`: the space is
    /// exhausted, and nothing has changed but what the space changes in
    /// itself.
    pub fn withdraw_sized(&mut self, n: usize) -> (r: Option<(S::Batch, O)>)
        ensures
            old(self).space().issues(n, final(self).space(), batch_of(r)),
            final(self).out() == old(self).out(),
            match r {
                None => final(self).stats() == old(self).stats(),
                Some((batch, snapshot)) => {
                    &&& batch.inv()
                    &&& batch.pending().len() <= n
                    &&& cloned(old(self).out(), snapshot)
                    &&& final(self).stats().count() == wrapped(
                        old(self).stats().count() + batch.pending().len(),
                    )
                },
            },
    {
        match self.space.batch(n) {
            None => None,
            Some(batch) => {
                self.stats.record(batch.len());
                Some((batch, self.out.clone()))
            },
        }
    }

    /// Withdraws a batch of the size that the worker's controller asks for
    /// next. The size depends on the clock; whatever it is, the batch is what
    /// the space hands out for that size.
    pub fn withdraw(&mut self, sizes: &mut BatchSizeOptimizer) -> (r: Option<(S::Batch, O)>)
        ensures
            final(sizes).target() == old(sizes).target(),
            final(sizes).last_size() is Some,
            match old(sizes).last_size() {
                None => final(sizes).last_size() == Some(SEED_SIZE),
                Some(size) => {
                    ||| final(sizes).last_size() == Some(floored(grown(size)))
                    ||| final(sizes).last_size() == Some(floored(size))
                    ||| final(sizes).last_size() == Some(floored(shrunk(size)))
                },
            },
            old(self).space().issues(
                final(sizes).last_size()->Some_0,
                final(self).space(),
                batch_of(r),
            ),
            final(self).out() == old(self).out(),
            match r {
                None => final(self).stats() == old(self).stats(),
                Some((batch, snapshot)) => {
                    &&& batch.inv()
                    &&& cloned(old(self).out(), snapshot)
                    &&& final(self).stats().count() == wrapped(
                        old(self).stats().count() + batch.pending().len(),
                    )
                },
            },
    {
        let n = sizes.next_batch();
        self.withdraw_sized(n)
    }

    /// Publishes the outcome of a worker's fold: where a candidate improved on
    /// the copy the worker started from, and the outcome differs from that
    /// copy, the outcome replaces the shared best result, whatever another
    /// worker has published meanwhile, and is returned for the result stream.
    /// Else nothing changes and nothing is returned.
    pub fn publish(&mut self, snapshot: &O, found: Option<O>) -> (r: Option<O>) where
        O: PartialEq,

        ensures
            final(self).space() == old(self).space(),
            final(self).stats() == old(self).stats(),
            match r {
                Some(value) => found == Some(value) && cloned(value, final(self).out()),
                None => final(self).out() == old(self).out(),
            },
            found is None ==> r is None,
            O::obeys_eq_spec() ==> (r is Some <==> (found matches Some(value) && !value.eq_spec(
                snapshot,
            ))),
    {
        match found {
            None => None,
            Some(value) => {
                if value != *snapshot {
                    self.out = value.clone();
                    Some(value)
                } else {
                    None
                }
            },
        }
    }

    /// Hands the space, the best result and the statistics to the reporter,
    /// and clears the statistics for the next interval.
    pub fn report<P: Problem<Space = S, Out = O>, R: Reporter<P>>(&mut self, reporter: &mut R)
        ensures
            final(self).space() == old(self).space(),
            final(self).out() == old(self).out(),
            final(self).stats().count() == 0,
    {
        reporter.report_on(&self.space, &self.out, &self.stats);
        self.stats.clear();
    }

    /// The best result published so far.
    pub fn best(&self) -> (r: &O)
        ensures
            *r == self.out(),
    {
        &self.out
    }

    /// The statistics of the current interval.
    pub fn statistics(&self) -> (r: &Stats)
        ensures
            *r == self.stats(),
    {
        &self.stats
    }
}

/// Folds the check over a batch, starting from the copy of the best result
/// that was withdrawn with it. Returns the last improvement, or `None` where
/// no candidate improved on the result before it.
pub fn evaluate<P: Problem>(
    problem: &P,
    batch: <P::Space as Space>::Batch,
    snapshot: &P::Out,
) -> (r: Option<P::Out>)
    requires
        batch.inv(),
    ensures
        match r {
            Some(value) => {
                &&& any_improved(problem, batch.pending(), *snapshot)
                &&& value == folded(problem, batch.pending(), *snapshot)
                &&& is_check_result(problem, batch.pending(), value)
            },
            None => {
                &&& !any_improved(problem, batch.pending(), *snapshot)
                &&& folded(problem, batch.pending(), *snapshot) == *snapshot
            },
        },
{
    let ghost all = batch.pending();
    let mut batch = batch;
    let mut found: Option<P::Out> = None;
    loop
        invariant
            batch.inv(),
            match found {
                Some(value) => {
                    &&& any_improved(problem, all, *snapshot)
                    &&& folded(problem, all, *snapshot) == folded(problem, batch.pending(), value)
                },
                None => {
                    &&& any_improved(problem, all, *snapshot) == any_improved(
                        problem,
                        batch.pending(),
                        *snapshot,
                    )
                    &&& folded(problem, all, *snapshot) == folded(
                        problem,
                        batch.pending(),
                        *snapshot,
                    )
                },
            },
        ensures
            batch.pending().len() == 0,
        decreases batch.pending().len(),
    {
        let candidate = match batch.next() {
            None => {
                break ;
            },
            Some(candidate) => candidate,
        };
        let result = match &found {
            Some(value) => problem.check(candidate, value),
            None => problem.check(candidate, snapshot),
        };
        if result.is_some() {
            found = result;
        }
    }
    proof {
        lemma_outcome_is_check_result(problem, all, *snapshot);
    }
    found
}

/// A search that is ready to run: the shared state, the problem and the
/// reporter.
pub struct Stitches<P: Problem, R: Reporter<P>> {
    mutable: Mutable<P::Space, P::Out>,
    problem: P,
    reporter: R,
}

impl<P: Problem, R: Reporter<P>> Stitches<P, R> {
    /// The shared state.
    pub closed spec fn mutable(self) -> Mutable<P::Space, P::Out> {
        self.mutable
    }

    /// The problem.
    pub closed spec fn problem(self) -> P {
        self.problem
    }

    /// The reporter.
    pub closed spec fn reporter(self) -> R {
        self.reporter
    }

    /// A search of the space that `problem` supplies, starting from the
    /// default result, with nothing counted yet.
    pub fn new(problem: P, reporter: R) -> (r: Self) where P::Out: Default
        ensures
            problem.starts(r.problem(), r.mutable().space()),
            call_ensures(P::Out::default, (), r.mutable().out()),
            r.mutable().stats().count() == 0,
            r.reporter() == reporter,
    {
        let mut problem = problem;
        let space = problem.initial_space();
        Stitches { mutable: Mutable::new(space, P::Out::default()), problem, reporter }
    }

    /// Takes the search apart, for the workers to share.
    pub fn into_parts(self) -> (r: (Mutable<P::Space, P::Out>, P, R))
        ensures
            r.0 == self.mutable(),
            r.1 == self.problem(),
            r.2 == self.reporter(),
    {
        (self.mutable, self.problem, self.reporter)
    }
}

} // verus!
