//! Enumerable spaces: lazy, overflow-safe enumeration of a possibly very large
//! domain in finite, contiguous, non-overlapping batches.

use crate::clock::{as_nanos, elapsed_since, nanos, now};
use crate::step::Step;
use std::time::{Duration, Instant};
use vstd::prelude::*;

verus! {

/// A finite run of candidates, consumed once from the front.
pub trait Candidates: Sized {
    type Item;

    /// What the implementation needs to hold of a run.
    spec fn inv(&self) -> bool;

    /// The candidates that are still to come, in the order they come.
    spec fn pending(&self) -> Seq<Self::Item>;

    /// How many candidates are still to come.
    fn len(&self) -> (r: usize)
        requires
            self.inv(),
        ensures
            r == self.pending().len(),
    ;

    /// Takes the next candidate off the front, or reports that none is left.
    fn next(&mut self) -> (r: Option<Self::Item>)
        requires
            old(self).inv(),
        ensures
            final(self).inv(),
            match r {
                Some(c) => old(self).pending().len() > 0 && c == old(self).pending()[0]
                    && final(self).pending() == old(self).pending().skip(1),
                None => old(self).pending().len() == 0 && final(self).pending().len() == 0,
            },
    ;
}

/// A lazy enumerator over a domain of candidates that issues work in batches.
pub trait Space: Sized {
    type Batch: Candidates;

    /// Relates a space before a request for `n` candidates to the space after
    /// it and to what the request handed out (`None`: the space is exhausted).
    spec fn issues(self, n: usize, after: Self, out: Option<Self::Batch>) -> bool;

    /// Requests up to `n` further candidates.
    fn batch(&mut self, n: usize) -> (out: Option<Self::Batch>)
        ensures
            (*old(self)).issues(n, *final(self), out),
            out matches Some(b) ==> b.inv() && b.pending().len() <= n,
    ;
}

/// The `count` values of a domain that start at position `from`, in order.
pub open spec fn span<T: Step>(from: nat, count: nat) -> Seq<T> {
    Seq::new(count, |k: int| T::at((from + k) as nat))
}

/// The closed range of the values from `start` to `end`, consumed from the
/// front.
pub struct MyRangeInclusive<T> {
    start: T,
    end: T,
    done: bool,
}

impl<T: Step> MyRangeInclusive<T> {
    /// The range of the values from `start` to `end`, both included.
    pub fn new(start: T, end: T) -> (r: Self)
        requires
            start.index() <= end.index(),
            end.index() - start.index() < usize::MAX,
        ensures
            r.inv(),
            r.pending() == span::<T>(start.index(), (end.index() - start.index() + 1) as nat),
    {
        MyRangeInclusive { start, end, done: false }
    }

    /// A range that has nothing left to give.
    pub fn drained(at: T) -> (r: Self)
        ensures
            r.inv(),
            r.pending() == Seq::<T>::empty(),
    {
        MyRangeInclusive { start: at, end: at, done: true }
    }
}

impl<T: Step> Candidates for MyRangeInclusive<T> {
    type Item = T;

    closed spec fn inv(&self) -> bool {
        self.done || (self.start.index() <= self.end.index() && self.end.index()
            - self.start.index() < usize::MAX)
    }

    closed spec fn pending(&self) -> Seq<T> {
        if self.done {
            Seq::empty()
        } else {
            span::<T>(self.start.index(), (self.end.index() - self.start.index() + 1) as nat)
        }
    }

    fn len(&self) -> (r: usize) {
        if self.done {
            return 0;
        }
        match T::steps_between(&self.start, &self.end) {
            Some(k) => k + 1,
            None => vstd::pervasive::unreached(),
        }
    }

    fn next(&mut self) -> (r: Option<T>) {
        if self.done {
            return None;
        }
        proof {
            self.start.index_at();
            self.end.index_at();
        }
        let first = self.start;
        match T::steps_between(&self.start, &self.end) {
            Some(0) => {
                self.done = true;
            },
            _ => {
                match self.start.add_usize(1) {
                    Some(n) => {
                        self.start = n;
                    },
                    None => {
                        proof {
                            self.end.index_in_domain();
                        }
                        vstd::pervasive::unreached()
                    },
                }
            },
        }
        assert(self.pending() =~= old(self).pending().skip(1));
        Some(first)
    }
}

/// How many candidates a request for `n` issues when the cursor stands at
/// position `c` of a domain whose last position is `last`: `n`, or all that
/// are left where fewer are left.
pub open spec fn issued_count(c: nat, last: nat, n: nat) -> nat {
    if c + n > last + 1 {
        (last + 1 - c) as nat
    } else {
        n
    }
}

/// What a request for `n` hands out when the cursor is `cursor`: nothing once
/// the domain is used up, else the next candidates in order.
pub open spec fn handed<T: Step>(cursor: Option<T>, n: usize) -> Option<Seq<T>> {
    match cursor {
        None => None,
        Some(c) => Some(span::<T>(c.index(), issued_count(c.index(), T::last(), n as nat))),
    }
}

/// Where the cursor stands after a request for `n`: just past what was handed
/// out, or nowhere once the last value of the domain has been issued.
pub open spec fn advanced<T: Step>(cursor: Option<T>, n: usize) -> Option<T> {
    match cursor {
        None => None,
        Some(c) => {
            let k = issued_count(c.index(), T::last(), n as nat);
            if c.index() + k > T::last() {
                None
            } else {
                Some(T::at(c.index() + k))
            }
        },
    }
}

/// The space of all values of a domain from a starting value on, in order.
#[derive(Debug)]
pub struct LinearSpace<T> {
    unchecked: Option<T>,
}

impl<T> LinearSpace<T> {
    /// The next value to be issued; `None` once the domain is used up.
    pub closed spec fn cursor(&self) -> Option<T> {
        self.unchecked
    }

    /// The space that starts at `start`.
    pub fn new(start: T) -> (r: Self)
        ensures
            r.cursor() == Some(start),
    {
        LinearSpace { unchecked: Some(start) }
    }
}

impl<T: Default> Default for LinearSpace<T> {
    /// The space that starts at the default value of the domain.
    fn default() -> (r: Self)
        ensures
            r.cursor() matches Some(c) && call_ensures(T::default, (), c),
    {
        LinearSpace::new(T::default())
    }
}

impl<T: Step> Space for LinearSpace<T> {
    type Batch = MyRangeInclusive<T>;

    open spec fn issues(self, n: usize, after: Self, out: Option<MyRangeInclusive<T>>) -> bool {
        &&& after.cursor() == advanced(self.cursor(), n)
        &&& match handed(self.cursor(), n) {
            None => out is None,
            Some(s) => out matches Some(b) && b.pending() == s,
        }
    }

    fn batch(&mut self, n: usize) -> (out: Option<MyRangeInclusive<T>>) {
        let start = match self.unchecked {
            None => {
                return None;
            },
            Some(s) => s,
        };
        proof {
            start.index_in_domain();
            start.index_at();
        }
        if n == 0 {
            let empty = MyRangeInclusive::drained(start);
            assert(empty.pending() =~= span::<T>(start.index(), 0));
            return Some(empty);
        }
        let next = match start.add_usize(n - 1) {
            Some(m) => m,
            None => {
                // The domain ends less than `bound` steps after `result`:
                // halve that bound until it pins the last value.
                let mut result = start;
                let mut bound: usize = n - 1;
                while bound > 1
                    invariant
                        start.index() <= result.index() <= T::last(),
                        T::last() - result.index() < bound,
                    decreases bound,
                {
                    let k: usize = bound / 2;
                    if let Some(m) = result.add_usize(k) {
                        proof {
                            m.index_in_domain();
                        }
                        result = m;
                    }
                    bound = bound - k;
                }
                result
            },
        };
        proof {
            next.index_in_domain();
        }
        let result = MyRangeInclusive::new(start, next);
        self.unchecked = next.add_usize(1);
        proof {
            if let Some(m) = self.unchecked {
                m.index_at();
                m.index_in_domain();
            }
        }
        Some(result)
    }
}

/// A space that gives out batches of another space until a time limit has
/// passed, counted from the first request, and is exhausted from then on.
#[derive(Debug)]
pub struct TimeLimited<S: Space> {
    space: S,
    first_batch: Option<Instant>,
    limit: Duration,
}

impl<S: Space> TimeLimited<S> {
    /// The space whose batches are given out.
    pub closed spec fn inner(self) -> S {
        self.space
    }

    /// The time after which nothing more is given out.
    pub closed spec fn limit(self) -> Duration {
        self.limit
    }

    /// When the first batch was asked for, once one has been.
    pub closed spec fn first_batch(self) -> Option<Instant> {
        self.first_batch
    }

    /// Puts a time limit on `space`. The time runs from the first request.
    pub fn new(limit: Duration, space: S) -> (r: Self)
        ensures
            r.inner() == space,
            r.limit() == limit,
            r.first_batch() is None,
    {
        TimeLimited { limit, space, first_batch: None }
    }

    /// Answers a request for `n` candidates when `elapsed` has passed since
    /// the first request: with exhaustion once that is more than the limit,
    /// leaving the inner space as it is; else with what the inner space hands
    /// out.
    pub fn batch_after(&mut self, n: usize, elapsed: &Duration) -> (out: Option<S::Batch>)
        ensures
            final(self).limit() == old(self).limit(),
            final(self).first_batch() == old(self).first_batch(),
            nanos(*elapsed) > nanos(old(self).limit()) ==> out is None && final(self).inner()
                == old(self).inner(),
            nanos(*elapsed) <= nanos(old(self).limit()) ==> old(self).inner().issues(
                n,
                final(self).inner(),
                out,
            ),
            out matches Some(b) ==> b.inv() && b.pending().len() <= n,
    {
        if as_nanos(elapsed) > as_nanos(&self.limit) {
            return None;
        }
        self.space.batch(n)
    }
}

impl<S: Space> Space for TimeLimited<S> {
    type Batch = S::Batch;

    /// The limit stays; the time of the first request is set once and then
    /// stays; and the request is either refused, with the inner space left as
    /// it is, or answered by the inner space. Which of the two depends on the
    /// clock.
    open spec fn issues(self, n: usize, after: Self, out: Option<S::Batch>) -> bool {
        &&& after.limit() == self.limit()
        &&& after.first_batch() is Some
        &&& self.first_batch() is Some ==> after.first_batch() == self.first_batch()
        &&& (out is None && after.inner() == self.inner()) || self.inner().issues(
            n,
            after.inner(),
            out,
        )
    }

    fn batch(&mut self, n: usize) -> (out: Option<S::Batch>) {
        if self.first_batch.is_none() {
            self.first_batch = Some(now());
        }
        let elapsed = match &self.first_batch {
            Some(at) => elapsed_since(at),
            None => vstd::pervasive::unreached(),
        };
        self.batch_after(n, &elapsed)
    }
}

/// The sum of a series of requested sizes.
pub open spec fn total(requests: Seq<usize>) -> nat
    decreases requests.len(),
{
    if requests.len() == 0 {
        0
    } else {
        requests[0] as nat + total(requests.skip(1))
    }
}

/// All that a series of requests hands out, in order, from a cursor on.
pub open spec fn issued<T: Step>(cursor: Option<T>, requests: Seq<usize>) -> Seq<T>
    decreases requests.len(),
{
    if requests.len() == 0 {
        Seq::empty()
    } else {
        match handed(cursor, requests[0]) {
            None => Seq::empty(),
            Some(b) => b + issued(advanced(cursor, requests[0]), requests.skip(1)),
        }
    }
}

/// Where the cursor stands after a series of requests.
pub open spec fn cursor_after<T: Step>(cursor: Option<T>, requests: Seq<usize>) -> Option<T>
    decreases requests.len(),
{
    if requests.len() == 0 {
        cursor
    } else {
        cursor_after(advanced(cursor, requests[0]), requests.skip(1))
    }
}

/// An exhausted space stays exhausted and hands out nothing more.
pub proof fn lemma_exhausted_stays<T: Step>(requests: Seq<usize>)
    ensures
        issued::<T>(None, requests) == Seq::<T>::empty(),
        cursor_after::<T>(None, requests) == None::<T>,
    decreases requests.len(),
{
    if requests.len() > 0 {
        lemma_exhausted_stays::<T>(requests.skip(1));
    }
}

/// Whatever sizes are requested of a space that starts at `start`, the batches
/// taken together are the values from `start` on, each once and in order, with
/// no gap: as many as were requested, or the whole rest of the domain where
/// more was requested. The space is exhausted exactly when the requests have
/// used up the domain.
pub proof fn lemma_batches_cover<T: Step>(start: T, requests: Seq<usize>)
    ensures
        issued(Some(start), requests) == span::<T>(
            start.index(),
            issued_count(start.index(), T::last(), total(requests)),
        ),
        cursor_after(Some(start), requests) is None <==> start.index() + total(requests)
            > T::last(),
        cursor_after(Some(start), requests) matches Some(c) ==> c.index() == start.index()
            + total(requests),
    decreases requests.len(),
{
    let c = start.index();
    start.index_in_domain();
    if requests.len() == 0 {
        assert(issued(Some(start), requests) =~= span::<T>(c, 0));
    } else {
        let rest = requests.skip(1);
        let k = issued_count(c, T::last(), requests[0] as nat);
        if c + k > T::last() {
            lemma_exhausted_stays::<T>(rest);
            assert(issued(Some(start), requests) =~= span::<T>(c, k));
        } else {
            let m = T::at(c + k);
            T::at_index(c + k);
            lemma_batches_cover::<T>(m, rest);
            let more = issued_count(c + k, T::last(), total(rest));
            assert(span::<T>(c, k) + span::<T>(c + k, more) =~= span::<T>(c, k + more));
        }
    }
}

/// No value occurs twice among consecutive values of a domain.
pub proof fn lemma_span_distinct<T: Step>(from: nat, count: nat, i: int, j: int)
    requires
        from + count <= T::last() + 1,
        0 <= i < j < count,
    ensures
        span::<T>(from, count)[i] != span::<T>(from, count)[j],
{
    T::at_index((from + i) as nat);
    T::at_index((from + j) as nat);
}

} // verus!
