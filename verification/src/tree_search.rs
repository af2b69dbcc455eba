//! The tree search, as the steps of one worker: withdraw a slice of pending
//! candidates from the shared queue, visit each and collect its successors,
//! and deposit the successors.

use crate::fast_deque::{chunks_of, given, left, taken, FastDeque};
use vstd::prelude::*;

verus! {

/// A tree of candidates, given by its roots and by the successors of each
/// candidate. Nothing keeps a candidate from being reached twice.
pub trait TreeSpace: Sync {
    type Candidate: Send;

    /// The root candidates, as `initial` supplies them. (A vector, not a
    /// sequence, so that an implementation outside verified code can state
    /// it too.)
    spec fn roots(&self) -> Vec<Self::Candidate>;

    /// Supplies the root candidates.
    fn initial(&self) -> (r: Vec<Self::Candidate>)
        ensures
            r@ == self.roots()@,
    ;

    /// The successors of a candidate, as `following` supplies them.
    spec fn successors(&self, candidate: Self::Candidate) -> Vec<Self::Candidate>;

    /// Supplies the successors of a candidate.
    fn following(&self, candidate: Self::Candidate) -> (r: Vec<Self::Candidate>)
        ensures
            r@ == self.successors(candidate)@,
    ;

    /// Visits a candidate, for whatever the problem wants done with it.
    fn each(&self, candidate: &Self::Candidate);
}

/// The number of candidates a worker withdraws at a time.
pub const SLICE: usize = 1024;

/// The successors of each of `candidates`, in the order of the candidates.
pub open spec fn successors_of<S: TreeSpace>(space: &S, candidates: Seq<S::Candidate>) -> Seq<
    S::Candidate,
>
    decreases candidates.len(),
{
    if candidates.len() == 0 {
        Seq::empty()
    } else {
        successors_of(space, candidates.drop_last()) + space.successors(candidates.last())@
    }
}

/// Visits every candidate of a withdrawn slice, chunk after chunk, and
/// returns the successors of all of them.
pub fn expand<S: TreeSpace>(space: &S, work: Vec<Vec<S::Candidate>>) -> (r: Vec<S::Candidate>)
    ensures
        r@ == successors_of(space, chunks_of(work@).flatten()),
{
    let ghost chunks = chunks_of(work@);
    let mut new_items: Vec<S::Candidate> = Vec::new();
    for chunk in outer: work
        invariant
            chunks_of(outer.seq()) == chunks,
            new_items@ == successors_of(space, chunks.take(outer.index() as int).flatten()),
    {
        let ghost done = chunks.take(outer.index() as int).flatten();
        let ghost items = chunk@;
        for candidate in inner: chunk
            invariant
                inner.seq() == items,
                new_items@ == successors_of(space, done + items.take(inner.index() as int)),
        {
            proof {
                let j = inner.index() as int;
                let upto = done + items.take(j + 1);
                assert(upto.drop_last() =~= done + items.take(j));
            }
            space.each(&candidate);
            let mut found = space.following(candidate);
            new_items.append(&mut found);
        }
        proof {
            let i = outer.index() as int;
            assert(items.take(items.len() as int) =~= items);
            assert(chunks.take(i + 1) =~= chunks.take(i).push(items));
            chunks.take(i).lemma_flatten_push(items);
        }
    }
    assert(chunks.take(chunks.len() as int) =~= chunks);
    new_items
}

/// What a worker gets when it asks the shared queue for work.
pub enum Withdrawal<C> {
    /// A slice of candidates to visit; the worker owes the queue a deposit.
    Work(Vec<Vec<C>>),
    /// Nothing for now, but another worker may still deposit: ask again.
    Idle,
    /// Nothing, and nobody is left who could deposit: the search is over.
    Finished,
}

/// The queue of pending candidates that the workers share, together with the
/// number of workers that have withdrawn work and not yet deposited its
/// successors.
pub struct Pending<C> {
    queue: FastDeque<C>,
    busy: usize,
}

impl<C> Pending<C> {
    /// The queue.
    pub closed spec fn queue(self) -> FastDeque<C> {
        self.queue
    }

    /// The number of workers that owe a deposit.
    pub closed spec fn busy(self) -> nat {
        self.busy as nat
    }

    /// A queue that no worker has withdrawn from yet.
    pub fn new(queue: FastDeque<C>) -> (r: Self)
        ensures
            r.queue() == queue,
            r.busy() == 0,
    {
        Pending { queue, busy: 0 }
    }

    /// Withdraws up to `amount` candidates for a worker. Where the slice
    /// holds a candidate, the worker is counted as busy. Where it holds none,
    /// the search is over if no worker is busy and no item is left in the
    /// queue; else the worker is to ask again.
    pub fn withdraw(&mut self, amount: usize) -> (r: Withdrawal<C>)
        requires
            old(self).busy() < usize::MAX,
        ensures
            final(self).queue().suggested() == old(self).queue().suggested(),
            final(self).queue()@ == left(
                old(self).queue()@,
                old(self).queue().suggested() as nat,
                amount as nat,
            ),
            match r {
                Withdrawal::Work(work) => {
                    &&& chunks_of(work@) == taken(
                        old(self).queue()@,
                        old(self).queue().suggested() as nat,
                        amount as nat,
                    )
                    &&& 0 < chunks_of(work@).flatten().len() <= amount
                    &&& final(self).busy() == old(self).busy() + 1
                },
                Withdrawal::Idle => {
                    &&& taken(
                        old(self).queue()@,
                        old(self).queue().suggested() as nat,
                        amount as nat,
                    ).flatten().len() == 0
                    &&& old(self).busy() > 0 || final(self).queue().items().len() > 0
                    &&& final(self).busy() == old(self).busy()
                },
                Withdrawal::Finished => {
                    &&& taken(
                        old(self).queue()@,
                        old(self).queue().suggested() as nat,
                        amount as nat,
                    ).flatten().len() == 0
                    &&& old(self).busy() == 0
                    &&& final(self).queue().items().len() == 0
                    &&& final(self).busy() == 0
                },
            },
    {
        let work = self.queue.split_off(amount);
        if count(&work) > 0 {
            self.busy = self.busy + 1;
            Withdrawal::Work(work)
        } else if self.busy == 0 && self.queue.is_empty() {
            Withdrawal::Finished
        } else {
            Withdrawal::Idle
        }
    }

    /// Deposits the successors that a busy worker has collected; the worker
    /// is busy no more.
    pub fn deposit(&mut self, new_items: Vec<C>)
        requires
            old(self).busy() > 0,
        ensures
            final(self).queue().suggested() == old(self).queue().suggested(),
            final(self).queue()@ == given(
                old(self).queue()@,
                old(self).queue().suggested() as nat,
                new_items@,
            ),
            final(self).busy() == old(self).busy() - 1,
    {
        self.queue.give(new_items);
        self.busy = self.busy - 1;
    }

    /// The number of workers that owe a deposit.
    pub fn busy_workers(&self) -> (r: usize)
        ensures
            r == self.busy(),
    {
        self.busy
    }

    /// The queue, to look at.
    pub fn pending(&self) -> (r: &FastDeque<C>)
        ensures
            *r == self.queue(),
    {
        &self.queue
    }
}

/// The number of items in a withdrawn slice.
fn count<T>(work: &Vec<Vec<T>>) -> (r: usize)
    requires
        chunks_of(work@).flatten().len() <= usize::MAX,
    ensures
        r == chunks_of(work@).flatten().len(),
{
    let ghost chunks = chunks_of(work@);
    let mut total: usize = 0;
    let mut i: usize = 0;
    while i < work.len()
        invariant
            i <= work@.len(),
            chunks == chunks_of(work@),
            total == chunks.take(i as int).flatten().len(),
            chunks.flatten().len() <= usize::MAX,
        decreases work@.len() - i,
    {
        proof {
            assert(chunks.take(i + 1) =~= chunks.take(i as int).push(chunks[i as int]));
            chunks.take(i as int).lemma_flatten_push(chunks[i as int]);
            assert(chunks =~= chunks.take(i + 1) + chunks.skip(i + 1));
            vstd::seq_lib::lemma_flatten_concat(chunks.take(i + 1), chunks.skip(i + 1));
        }
        total = total + work[i].len();
        i += 1;
    }
    assert(chunks.take(i as int) =~= chunks);
    total
}

/// The number of threads of the pool that the search runs on, as
/// `rayon::current_num_threads` reports it. The number depends on the machine
/// and on how the pool was set up.
#[verifier::external_body]
fn pool_threads() -> usize {
    rayon::current_num_threads()
}

/// The queue at the start of a search by `threads` workers: the root
/// candidates, deposited into an empty queue that suggests one chunk per
/// worker.
pub fn seeded<S: TreeSpace>(space: &S, threads: usize) -> (queue: FastDeque<S::Candidate>)
    ensures
        queue.suggested() == threads,
        queue@ == given(Seq::<Seq<S::Candidate>>::empty(), threads as nat, space.roots()@),
{
    let mut undone = FastDeque::new(threads);
    undone.give(space.initial());
    undone
}

/// The number of workers for a search on the current thread pool, and the
/// queue they start from.
pub fn prepare<S: TreeSpace>(space: &S) -> (r: (usize, Pending<S::Candidate>))
    ensures
        r.1.busy() == 0,
        r.1.queue().suggested() == r.0,
        r.1.queue()@ == given(Seq::<Seq<S::Candidate>>::empty(), r.0 as nat, space.roots()@),
{
    let threads = pool_threads();
    (threads, Pending::new(seeded(space, threads)))
}

} // verus!
