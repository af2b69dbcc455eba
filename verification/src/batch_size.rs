//! The batch size controller: a per-worker feedback loop that grows or shrinks
//! the requested batch size so that one batch takes about a target time.

use crate::clock::{as_nanos, elapsed_since, nanos, now};
use std::time::{Duration, Instant};
use vstd::prelude::*;

verus! {

/// The size of the first batch a worker asks for.
pub const SEED_SIZE: usize = 100;

/// A size grown by one hundredth, rounded down, and held at the largest
/// representable size.
pub open spec fn grown(size: usize) -> usize {
    if size * 101 / 100 > usize::MAX {
        usize::MAX
    } else {
        (size * 101 / 100) as usize
    }
}

/// A size shrunk by one hundredth, rounded down.
pub open spec fn shrunk(size: usize) -> usize {
    (size * 99 / 100) as usize
}

/// A size raised to 1 where it is 0, so that every batch makes progress.
pub open spec fn floored(size: usize) -> usize {
    if size < 1 {
        1
    } else {
        size
    }
}

/// The size to ask for next: the seed size for the first batch; after that the
/// last size, grown where the last batch took less than the target time,
/// shrunk where it took more, kept where it took exactly that; never under 1.
pub open spec fn size_after(last: Option<usize>, elapsed: nat, target: nat) -> usize {
    match last {
        None => floored(SEED_SIZE),
        Some(size) => floored(
            if elapsed < target {
                grown(size)
            } else if elapsed == target {
                size
            } else {
                shrunk(size)
            },
        ),
    }
}

/// Computes the size to ask for next from the size of the last batch, if there
/// was one, the time it took and the target time, both in nanoseconds.
pub fn next_size(last: Option<usize>, elapsed: u128, target: u128) -> (r: usize)
    ensures
        r == size_after(last, elapsed as nat, target as nat),
        r >= 1,
{
    let size: usize = match last {
        None => SEED_SIZE,
        Some(size) => {
            if elapsed < target {
                let wide: u128 = (size as u128) * 101 / 100;
                if wide > usize::MAX as u128 {
                    usize::MAX
                } else {
                    wide as usize
                }
            } else if elapsed == target {
                size
            } else {
                ((size as u128) * 99 / 100) as usize
            }
        },
    };
    if size < 1 {
        1
    } else {
        size
    }
}

/// The controller of one worker: the target time for a batch, and when the
/// last batch was asked for and how large it was.
pub struct BatchSizeOptimizer {
    target: Duration,
    last_batch: Option<(Instant, usize)>,
}

impl BatchSizeOptimizer {
    /// The target time for one batch.
    pub closed spec fn target(&self) -> Duration {
        self.target
    }

    /// The size of the last batch asked for, if any was.
    pub closed spec fn last_size(&self) -> Option<usize> {
        match self.last_batch {
            None => None,
            Some((_, size)) => Some(size),
        }
    }

    /// A controller that has not yet asked for a batch.
    pub fn new(target: Duration) -> (r: Self)
        ensures
            r.target() == target,
            r.last_size() is None,
    {
        BatchSizeOptimizer { target, last_batch: None }
    }

    /// The size of the next batch, from how long ago the last one was asked
    /// for. The clock decides which way the size moves; whatever it reads, the
    /// result is the size that follows the last one for some elapsed time, so
    /// one of three.
    pub fn next_batch(&mut self) -> (r: usize)
        ensures
            final(self).target() == old(self).target(),
            final(self).last_size() == Some(r),
            r >= 1,
            match old(self).last_size() {
                None => r == SEED_SIZE,
                Some(size) => r == floored(grown(size)) || r == floored(size) || r == floored(
                    shrunk(size),
                ),
            },
            exists|elapsed: nat| r == #[trigger] size_after(
                old(self).last_size(),
                elapsed,
                nanos(old(self).target()),
            ),
    {
        let target: u128 = as_nanos(&self.target);
        let elapsed: u128 = match &self.last_batch {
            None => 0,
            Some((at, _)) => {
                let since = elapsed_since(at);
                as_nanos(&since)
            },
        };
        let last: Option<usize> = match &self.last_batch {
            None => None,
            Some((_, size)) => Some(*size),
        };
        let batch_size = next_size(last, elapsed, target);
        self.last_batch = Some((now(), batch_size));
        assert(batch_size == size_after(
            old(self).last_size(),
            elapsed as nat,
            nanos(old(self).target()),
        ));
        batch_size
    }
}

/// The size of the batch with number `k`, counted from 0, when every batch so
/// far took less than the target time.
pub open spec fn size_when_fast(k: nat) -> usize
    decreases k,
{
    if k == 0 {
        size_after(None, 0, 1)
    } else {
        size_after(Some(size_when_fast((k - 1) as nat)), 0, 1)
    }
}

/// While every batch takes less than the target time, the size never falls
/// under the seed size, and until it has reached the largest representable
/// size each size is larger than the one before, by at most one hundredth.
pub proof fn lemma_fast_batches_grow(k: nat)
    ensures
        size_when_fast(k) >= SEED_SIZE,
        size_when_fast(k) < usize::MAX ==> size_when_fast(k) < size_when_fast(k + 1),
        size_when_fast(k + 1) <= size_when_fast(k) * 101 / 100,
    decreases k,
{
    if k > 0 {
        lemma_fast_batches_grow((k - 1) as nat);
    }
    assert(size_when_fast(k + 1) == size_after(Some(size_when_fast(k)), 0, 1));
}

} // verus!
