//! Exact rational arithmetic over 64-bit integers, kept in lowest terms.
//!
//! A [`Ratio`] is a numerator over a denominator in canonical form: the
//! denominator is positive and shares no factor with the numerator, and
//! zero is `0/1`. Values are made by reducing a pair of integers, and every
//! operation reduces its result again, so two values are equal exactly if
//! they stand for the same rational number.
//!
//! # Failure
//!
//! Arithmetic is checked. The raw result of an operation is formed in
//! 128-bit integers, where it cannot overflow, and reduced. If the reduced
//! result cannot be held in two `i64` parts the operation returns
//! [`RatioError::Overflow`]; it never returns a wrapped or saturated value.
//! A zero denominator and a division by zero are errors as well. No
//! function of this library panics.
//!
//! # Contracts
//!
//! The view of a `Ratio` is a [`Fraction`] of unbounded integers, and the
//! module [`fraction`] defines the canonical form and the raw result of each
//! operation on such fractions. The contract of an operation equates its
//! outcome with [`Ratio::checked`] of the reduced raw result, which fixes
//! both the value returned and the inputs on which an error is returned.
//!
//! To prove what a call returns on given numbers, show that the expected
//! fraction is canonical and has the value of the raw result, and call
//! [`fraction::lemma_canonical_characterized`]. For `Ratio::new(6, 8)` that
//! is `gcd(3, 4) == 1` and `3 * 8 == 6 * 4`.
//!
//! In verified code, write `a.neg()` for the negation of a value: the
//! verifier does not take the prefix operator on a type that is not an
//! integer.

use vstd::prelude::*;

pub mod arith;
pub mod consts;
pub mod fraction;
pub mod number;
pub mod order;
pub mod power;
pub mod ratio;

pub use fraction::Fraction;
pub use ratio::{canonicalize, Ratio, RatioError};

verus! {

/// A rational number in canonical form.
///
/// Every implementor guarantees that the fraction it stands for has a
/// positive denominator that shares no factor with the numerator.
pub trait Rational: View<V = Fraction> {
    /// The numerator of the canonical form.
    fn num(&self) -> (n: i64)
        ensures
            n == self@.num,
            self@.is_canonical(),
    ;

    /// The denominator of the canonical form. It is positive.
    fn den(&self) -> (d: i64)
        ensures
            d == self@.den,
            self@.is_canonical(),
    ;
}

} // verus!
