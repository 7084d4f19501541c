//! The arithmetic that tensor elements must offer.

use vstd::prelude::*;

verus! {

/// A numeric element type. Each executable operation is tied to a
/// specification function of the same meaning, so that contracts over tensors
/// can speak of element values exactly.
///
/// Nothing is asked of the arithmetic itself: sums need not be associative
/// and a quotient by zero is whatever the type makes of it. An
/// implementation for a machine float gives each specification function the
/// body of its executable twin.
pub trait Scalar: Copy {
    /// The scalar that stands for the count `n`.
    spec fn of_count(n: usize) -> Self;

    /// `self + rhs`.
    spec fn sum(self, rhs: Self) -> Self;

    /// `self - rhs`.
    spec fn difference(self, rhs: Self) -> Self;

    /// `self * rhs`.
    spec fn product(self, rhs: Self) -> Self;

    /// `self / rhs`.
    spec fn quotient(self, rhs: Self) -> Self;

    /// `self > rhs`.
    spec fn exceeds(self, rhs: Self) -> bool;

    /// The scalar that stands for the count `n`.
    fn from_count(n: usize) -> (r: Self)
        ensures
            r == Self::of_count(n),
    ;

    /// `self + rhs`.
    fn add(self, rhs: Self) -> (r: Self)
        ensures
            r == self.sum(rhs),
    ;

    /// `self - rhs`.
    fn sub(self, rhs: Self) -> (r: Self)
        ensures
            r == self.difference(rhs),
    ;

    /// `self * rhs`.
    fn mul(self, rhs: Self) -> (r: Self)
        ensures
            r == self.product(rhs),
    ;

    /// `self / rhs`.
    fn div(self, rhs: Self) -> (r: Self)
        ensures
            r == self.quotient(rhs),
    ;

    /// `self > rhs`.
    fn gt(self, rhs: Self) -> (r: bool)
        ensures
            r == self.exceeds(rhs),
    ;
}

/// Two's-complement 64-bit integers: exact arithmetic that wraps on overflow.
/// Division truncates toward zero and gives 0 where the quotient is undefined
/// or does not fit. Counts beyond the largest value saturate.
impl Scalar for i64 {
    open spec fn of_count(n: usize) -> Self {
        if n <= i64::MAX {
            n as i64
        } else {
            i64::MAX
        }
    }

    open spec fn sum(self, rhs: Self) -> Self {
        self.wrapping_add(rhs)
    }

    open spec fn difference(self, rhs: Self) -> Self {
        self.wrapping_sub(rhs)
    }

    open spec fn product(self, rhs: Self) -> Self {
        self.wrapping_mul(rhs)
    }

    open spec fn quotient(self, rhs: Self) -> Self {
        match self.checked_div(rhs) {
            Some(q) => q,
            None => 0,
        }
    }

    open spec fn exceeds(self, rhs: Self) -> bool {
        self > rhs
    }

    fn from_count(n: usize) -> (r: Self) {
        let wide: u64 = n as u64;
        if wide > 0x7fff_ffff_ffff_ffff {
            i64::MAX
        } else {
            wide as i64
        }
    }

    fn add(self, rhs: Self) -> (r: Self) {
        self.wrapping_add(rhs)
    }

    fn sub(self, rhs: Self) -> (r: Self) {
        self.wrapping_sub(rhs)
    }

    fn mul(self, rhs: Self) -> (r: Self) {
        self.wrapping_mul(rhs)
    }

    fn div(self, rhs: Self) -> (r: Self) {
        match self.checked_div(rhs) {
            Some(q) => q,
            None => 0,
        }
    }

    fn gt(self, rhs: Self) -> (r: bool) {
        self > rhs
    }
}

} // verus!
