//! The capability a candidate type needs for a space to enumerate it: a
//! position in a bounded, totally ordered domain, and checked movement along it.

use vstd::prelude::*;

verus! {

/// A value of a discrete domain whose members are numbered `0..=last()`.
pub trait Step: Copy + Sized {
    /// The position of this value, counted from the first value of the domain.
    spec fn index(self) -> nat;

    /// The position of the last value of the domain.
    spec fn last() -> nat;

    /// The value at a position.
    spec fn at(i: nat) -> Self;

    /// No value lies beyond the last one.
    proof fn index_in_domain(self)
        ensures
            self.index() <= Self::last(),
    ;

    /// `at` and `index` are inverse to each other on the domain.
    proof fn at_index(i: nat)
        requires
            i <= Self::last(),
        ensures
            Self::at(i).index() == i,
    ;

    /// A value is the one at its own position.
    proof fn index_at(self)
        ensures
            Self::at(self.index()) == self,
    ;

    /// The value `n` positions further on, or `None` where the domain ends
    /// before that.
    fn add_usize(&self, n: usize) -> (r: Option<Self>)
        ensures
            match r {
                Some(m) => m.index() == self.index() + n,
                None => self.index() + n > Self::last(),
            },
    ;

    /// The number of steps from `start` up to `end` (zero where `end` does not
    /// lie after `start`), or `None` where that number does not fit.
    fn steps_between(start: &Self, end: &Self) -> (r: Option<usize>)
        ensures
            match r {
                Some(k) => k == (if start.index() <= end.index() {
                    end.index() - start.index()
                } else {
                    0
                }),
                None => end.index() - start.index() > usize::MAX,
            },
    ;
}

impl Step for usize {
    open spec fn index(self) -> nat {
        self as nat
    }

    open spec fn last() -> nat {
        usize::MAX as nat
    }

    open spec fn at(i: nat) -> Self {
        i as usize
    }

    proof fn index_in_domain(self) {
    }

    proof fn at_index(i: nat) {
    }

    proof fn index_at(self) {
    }

    fn add_usize(&self, n: usize) -> (r: Option<Self>) {
        if n > usize::MAX - *self {
            None
        } else {
            Some(*self + n)
        }
    }

    fn steps_between(start: &Self, end: &Self) -> (r: Option<usize>) {
        if *start <= *end {
            Some(*end - *start)
        } else {
            Some(0)
        }
    }
}

impl Step for u8 {
    open spec fn index(self) -> nat {
        self as nat
    }

    open spec fn last() -> nat {
        u8::MAX as nat
    }

    open spec fn at(i: nat) -> Self {
        i as u8
    }

    proof fn index_in_domain(self) {
    }

    proof fn at_index(i: nat) {
    }

    proof fn index_at(self) {
    }

    fn add_usize(&self, n: usize) -> (r: Option<Self>) {
        if n > (u8::MAX - *self) as usize {
            None
        } else {
            Some(*self + n as u8)
        }
    }

    fn steps_between(start: &Self, end: &Self) -> (r: Option<usize>) {
        if *start <= *end {
            Some((*end - *start) as usize)
        } else {
            Some(0)
        }
    }
}

impl Step for u32 {
    open spec fn index(self) -> nat {
        self as nat
    }

    open spec fn last() -> nat {
        u32::MAX as nat
    }

    open spec fn at(i: nat) -> Self {
        i as u32
    }

    proof fn index_in_domain(self) {
    }

    proof fn at_index(i: nat) {
    }

    proof fn index_at(self) {
    }

    fn add_usize(&self, n: usize) -> (r: Option<Self>) {
        if n > (u32::MAX - *self) as usize {
            None
        } else {
            Some(*self + n as u32)
        }
    }

    fn steps_between(start: &Self, end: &Self) -> (r: Option<usize>) {
        if *start <= *end {
            Some((*end - *start) as usize)
        } else {
            Some(0)
        }
    }
}

impl Step for u64 {
    open spec fn index(self) -> nat {
        self as nat
    }

    open spec fn last() -> nat {
        u64::MAX as nat
    }

    open spec fn at(i: nat) -> Self {
        i as u64
    }

    proof fn index_in_domain(self) {
    }

    proof fn at_index(i: nat) {
    }

    proof fn index_at(self) {
    }

    fn add_usize(&self, n: usize) -> (r: Option<Self>) {
        if n as u64 > u64::MAX - *self {
            None
        } else {
            Some(*self + n as u64)
        }
    }

    fn steps_between(start: &Self, end: &Self) -> (r: Option<usize>) {
        if *start <= *end {
            let d: u64 = *end - *start;
            if d > usize::MAX as u64 {
                None
            } else {
                Some(d as usize)
            }
        } else {
            Some(0)
        }
    }
}

impl Step for u16 {
    open spec fn index(self) -> nat {
        self as nat
    }

    open spec fn last() -> nat {
        u16::MAX as nat
    }

    open spec fn at(i: nat) -> Self {
        i as u16
    }

    proof fn index_in_domain(self) {
    }

    proof fn at_index(i: nat) {
    }

    proof fn index_at(self) {
    }

    fn add_usize(&self, n: usize) -> (r: Option<Self>) {
        if n > (u16::MAX - *self) as usize {
            None
        } else {
            Some(*self + n as u16)
        }
    }

    fn steps_between(start: &Self, end: &Self) -> (r: Option<usize>) {
        if *start <= *end {
            Some((*end - *start) as usize)
        } else {
            Some(0)
        }
    }
}

impl Step for u128 {
    open spec fn index(self) -> nat {
        self as nat
    }

    open spec fn last() -> nat {
        u128::MAX as nat
    }

    open spec fn at(i: nat) -> Self {
        i as u128
    }

    proof fn index_in_domain(self) {
    }

    proof fn at_index(i: nat) {
    }

    proof fn index_at(self) {
    }

    fn add_usize(&self, n: usize) -> (r: Option<Self>) {
        if n as u128 > u128::MAX - *self {
            None
        } else {
            Some(*self + n as u128)
        }
    }

    fn steps_between(start: &Self, end: &Self) -> (r: Option<usize>) {
        if *start <= *end {
            let d: u128 = *end - *start;
            if d > usize::MAX as u128 {
                None
            } else {
                Some(d as usize)
            }
        } else {
            Some(0)
        }
    }
}

} // verus!
