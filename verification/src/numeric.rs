//! The scalar arithmetic that scales, interpolators and curve generators are
//! written against.
//!
//! The geometry of this library does not depend on one fixed number type: a
//! caller may drive it with machine integers, fixed-point values or any other
//! type that offers the handful of operations below. Each executable
//! operation is tied to a spec-level twin, so every contract in the crate can
//! state exactly which arithmetic expression a coordinate is, while staying
//! agnostic about how the instantiating type evaluates it.

use vstd::prelude::*;

verus! {

/// The arithmetic a scalar type must offer: addition, subtraction,
/// multiplication, division, an order test, rounding, small-integer
/// injection and an integer ratio.
///
/// Every executable method promises to return exactly its spec twin, so code
/// that is generic over `Numeric` can carry precise contracts.
pub trait Numeric: Sized + Copy {
    /// What `plus` returns.
    spec fn plus_spec(self, other: Self) -> Self;

    /// What `minus` returns.
    spec fn minus_spec(self, other: Self) -> Self;

    /// What `times` returns.
    spec fn times_spec(self, other: Self) -> Self;

    /// What `over` returns.
    spec fn over_spec(self, other: Self) -> Self;

    /// What `lt` returns.
    spec fn lt_spec(self, other: Self) -> bool;

    /// What `rounded` returns.
    spec fn rounded_spec(self) -> Self;

    /// What `of_int` returns.
    spec fn of_int_spec(n: i64) -> Self;

    /// What `ratio` returns.
    spec fn ratio_spec(num: i64, den: i64) -> Self;

    /// Addition.
    fn plus(self, other: Self) -> (r: Self)
        ensures
            r == self.plus_spec(other),
    ;

    /// Subtraction.
    fn minus(self, other: Self) -> (r: Self)
        ensures
            r == self.minus_spec(other),
    ;

    /// Multiplication.
    fn times(self, other: Self) -> (r: Self)
        ensures
            r == self.times_spec(other),
    ;

    /// Division.
    fn over(self, other: Self) -> (r: Self)
        ensures
            r == self.over_spec(other),
    ;

    /// Strict order test, `self < other`.
    fn lt(self, other: Self) -> (r: bool)
        ensures
            r == self.lt_spec(other),
    ;

    /// Rounding to the nearest whole value.
    fn rounded(self) -> (r: Self)
        ensures
            r == self.rounded_spec(),
    ;

    /// The scalar standing for the integer `n`.
    fn of_int(n: i64) -> (r: Self)
        ensures
            r == Self::of_int_spec(n),
    ;

    /// The scalar standing for the fraction `num / den`.
    fn ratio(num: i64, den: i64) -> (r: Self)
        ensures
            r == Self::ratio_spec(num, den),
    ;
}

/// Exact integer arithmetic: addition, subtraction and multiplication wrap on
/// overflow, division truncates toward zero and is total (division by zero
/// yields zero), and rounding is the identity.
impl Numeric for i64 {
    open spec fn plus_spec(self, other: Self) -> Self {
        self.wrapping_add(other)
    }

    open spec fn minus_spec(self, other: Self) -> Self {
        self.wrapping_sub(other)
    }

    open spec fn times_spec(self, other: Self) -> Self {
        self.wrapping_mul(other)
    }

    open spec fn over_spec(self, other: Self) -> Self {
        match self.checked_div(other) {
            Some(q) => q,
            None => if other == 0 {
                0
            } else {
                i64::MIN
            },
        }
    }

    open spec fn lt_spec(self, other: Self) -> bool {
        self < other
    }

    open spec fn rounded_spec(self) -> Self {
        self
    }

    open spec fn of_int_spec(n: i64) -> Self {
        n
    }

    open spec fn ratio_spec(num: i64, den: i64) -> Self {
        Self::over_spec(num, den)
    }

    fn plus(self, other: Self) -> (r: Self)
        ensures
            r == self.plus_spec(other),
    {
        self.wrapping_add(other)
    }

    fn minus(self, other: Self) -> (r: Self)
        ensures
            r == self.minus_spec(other),
    {
        self.wrapping_sub(other)
    }

    fn times(self, other: Self) -> (r: Self)
        ensures
            r == self.times_spec(other),
    {
        self.wrapping_mul(other)
    }

    fn over(self, other: Self) -> (r: Self)
        ensures
            r == self.over_spec(other),
    {
        match self.checked_div(other) {
            Some(q) => q,
            None => if other == 0 {
                0
            } else {
                i64::MIN
            },
        }
    }

    fn lt(self, other: Self) -> (r: bool)
        ensures
            r == self.lt_spec(other),
    {
        self < other
    }

    fn rounded(self) -> (r: Self)
        ensures
            r == self.rounded_spec(),
    {
        self
    }

    fn of_int(n: i64) -> (r: Self)
        ensures
            r == Self::of_int_spec(n),
    {
        n
    }

    fn ratio(num: i64, den: i64) -> (r: Self)
        ensures
            r == Self::ratio_spec(num, den),
    {
        Self::over(num, den)
    }
}

} // verus!
