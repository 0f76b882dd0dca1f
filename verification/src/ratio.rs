//! Rational values and the canonicalizer that makes them.

use crate::fraction::{
    lemma_canonical_bounds, lemma_canonical_decides_value, lemma_canonical_fixed,
    lemma_canonical_is_canonical, lemma_canonical_parts, lemma_canonical_same_value,
    lemma_canonical_unique, Fraction,
};
use crate::number::{gcd_u128, lemma_gcd_units, magnitude};
use crate::Rational;
use vstd::math::abs;
use vstd::prelude::*;
use vstd::std_specs::convert::FromSpecImpl;

verus! {

/// Why an operation has no result.
#[derive(Clone, Copy, Debug, PartialEq, Eq, Hash, Structural)]
pub enum RatioError {
    /// A value was to be made with the denominator zero.
    ZeroDenominator,
    /// A division by zero, a remainder by zero, or a negative power of zero.
    ZeroDivisor,
    /// The exact result cannot be held in two `i64` parts.
    Overflow,
}

/// A rational number, held as a numerator over a positive denominator in
/// lowest terms.
#[derive(Clone, Copy, Debug, PartialEq, Eq, Hash, Structural)]
pub struct Ratio {
    num: i64,
    den: i64,
}

impl View for Ratio {
    type V = Fraction;

    closed spec fn view(&self) -> Fraction {
        Fraction { num: self.num as int, den: self.den as int }
    }
}

impl Ratio {
    #[verifier::type_invariant]
    spec fn in_canonical_form(self) -> bool {
        self@.is_canonical()
    }

    /// The value whose parts are those of `f`, for an `f` that fits.
    pub closed spec fn of(f: Fraction) -> Ratio {
        Ratio { num: f.num as i64, den: f.den as i64 }
    }

    /// The outcome of an operation whose exact result is `f`: the value
    /// that stands for `f` if it fits, an overflow if it does not.
    pub open spec fn checked(f: Fraction) -> Result<Ratio, RatioError> {
        if f.fits() {
            Ok(Ratio::of(f))
        } else {
            Err(RatioError::Overflow)
        }
    }

    /// The outcome of reducing `f` to canonical form.
    pub open spec fn reduced(f: Fraction) -> Result<Ratio, RatioError> {
        if f.den == 0 {
            Err(RatioError::ZeroDenominator)
        } else {
            Ratio::checked(f.canonical())
        }
    }

    /// A value's fraction fits, and the value is the one that stands for it.
    pub proof fn lemma_of_view(self)
        ensures
            self@.fits(),
            Ratio::of(self@) == self,
    {
    }

    /// The value that stands for a fraction that fits has that fraction as its view.
    pub proof fn lemma_view_of(f: Fraction)
        requires
            f.fits(),
        ensures
            Ratio::of(f)@ == f,
    {
    }

    /// Whatever reducing yields is in canonical form: it is the canonical
    /// form of the given fraction, and it has the value of that fraction.
    /// Reducing yields a value exactly if the denominator is not zero and
    /// the canonical form fits.
    pub proof fn lemma_reduced_canonical(f: Fraction)
        ensures
            Ratio::reduced(f) is Ok <==> f.den != 0 && f.canonical().fits(),
            Ratio::reduced(f) matches Ok(v) ==> v@ == f.canonical(),
            Ratio::reduced(f) matches Ok(v) ==> v@.is_canonical(),
            Ratio::reduced(f) matches Ok(v) ==> v@.same_value(f),
    {
        if f.den != 0 {
            lemma_canonical_is_canonical(f);
            lemma_canonical_same_value(f);
        }
    }

    /// Reducing the parts of a value gives the value back.
    pub proof fn lemma_reduced_fixed(self)
        requires
            self@.is_canonical(),
        ensures
            Ratio::reduced(self@) == Ok::<Ratio, RatioError>(self),
    {
        lemma_canonical_fixed(self@);
    }

    /// Two fractions reduce to the same value exactly if they stand for
    /// the same rational number.
    pub proof fn lemma_reduced_equal(f: Fraction, g: Fraction)
        requires
            Ratio::reduced(f) is Ok,
            Ratio::reduced(g) is Ok,
        ensures
            Ratio::reduced(f) == Ratio::reduced(g) <==> f.same_value(g),
    {
        lemma_canonical_decides_value(f, g);
    }

    /// Values are equal exactly if they stand for the same rational number.
    pub proof fn lemma_eq_same_value(self, other: Ratio)
        requires
            self@.is_canonical(),
            other@.is_canonical(),
        ensures
            self == other <==> self@.same_value(other@),
    {
        if self@.same_value(other@) {
            lemma_canonical_unique(self@, other@);
        }
    }

    /// Equality of values is reflexive, symmetric and transitive.
    pub proof fn lemma_eq_equivalence(a: Ratio, b: Ratio, c: Ratio)
        ensures
            a == a,
            a == b ==> b == a,
            a == b && b == c ==> a == c,
    {
    }

    /// The value of `num / den` in canonical form.
    ///
    /// Fails with `ZeroDenominator` if `den` is zero, and with `Overflow`
    /// if the canonical form does not fit, which can only happen where
    /// `num` or `den` is `i64::MIN`. A pair that is canonical already is
    /// returned as it stands.
    pub fn new(num: i64, den: i64) -> (r: Result<Ratio, RatioError>)
        ensures
            r == Ratio::reduced((Fraction { num: num as int, den: den as int })),
            r matches Ok(v) ==> v@ == (Fraction { num: num as int, den: den as int }).canonical(),
            r matches Ok(v) ==> v@.is_canonical(),
            den != 0 && num != i64::MIN && den != i64::MIN ==> r is Ok,
            (Fraction { num: num as int, den: den as int }).is_canonical() ==> (r matches Ok(v)
                && v@ == (Fraction { num: num as int, den: den as int })),
    {
        proof {
            let f = Fraction { num: num as int, den: den as int };
            if den != 0 {
                lemma_canonical_bounds(f);
            }
            if f.is_canonical() {
                lemma_canonical_fixed(f);
            }
        }
        canonicalize(num as i128, den as i128)
    }
}

impl Rational for Ratio {
    fn num(&self) -> (n: i64) {
        proof {
            use_type_invariant(self);
        }
        self.num
    }

    fn den(&self) -> (d: i64) {
        proof {
            use_type_invariant(self);
        }
        self.den
    }
}

impl Default for Ratio {
    /// Zero, which is `0/1`.
    fn default() -> (r: Ratio)
        ensures
            r@ == Fraction::whole(0),
            r@.is_canonical(),
    {
        proof {
            lemma_gcd_units(0);
        }
        Ratio { num: 0, den: 1 }
    }
}

impl From<i64> for Ratio {
    /// The integer `i` as a rational, which is `i/1`.
    fn from(i: i64) -> (r: Ratio)
        ensures
            r@ == Fraction::whole(i as int),
            r@.is_canonical(),
    {
        proof {
            lemma_gcd_units(abs(i as int));
        }
        Ratio { num: i, den: 1 }
    }
}

impl FromSpecImpl<i64> for Ratio {
    open spec fn obeys_from_spec() -> bool {
        true
    }

    open spec fn from_spec(i: i64) -> Ratio {
        Ratio::of(Fraction::whole(i as int))
    }
}

/// Reduces `num / den` to canonical form.
///
/// A zero numerator gives `0/1` whatever the denominator. Otherwise both
/// magnitudes are divided by their greatest common divisor, and the
/// numerator is negative exactly if the signs of `num` and `den` differ.
///
/// Fails with `ZeroDenominator` if `den` is zero, and with `Overflow` if
/// the canonical form does not fit in two `i64` parts.
pub fn canonicalize(num: i128, den: i128) -> (r: Result<Ratio, RatioError>)
    ensures
        r == Ratio::reduced((Fraction { num: num as int, den: den as int })),
        r matches Ok(v) ==> v@ == (Fraction { num: num as int, den: den as int }).canonical(),
        r matches Ok(v) ==> v@.is_canonical(),
{
    if den == 0 {
        return Err(RatioError::ZeroDenominator);
    }
    if num == 0 {
        proof {
            lemma_gcd_units(0);
        }
        return Ok(Ratio { num: 0, den: 1 });
    }
    proof {
        let f = Fraction { num: num as int, den: den as int };
        lemma_canonical_parts(f);
        lemma_canonical_is_canonical(f);
    }
    let n_mag: u128 = magnitude(num);
    let d_mag: u128 = magnitude(den);
    let g: u128 = gcd_u128(n_mag, d_mag);
    let n: u128 = n_mag / g;
    let d: u128 = d_mag / g;
    let negative: bool = (num < 0) != (den < 0);
    let limit: u128 = 0x8000_0000_0000_0000u128;
    if d >= limit {
        Err(RatioError::Overflow)
    } else if negative {
        if n > limit {
            Err(RatioError::Overflow)
        } else if n == limit {
            Ok(Ratio { num: i64::MIN, den: d as i64 })
        } else {
            Ok(Ratio { num: -(n as i64), den: d as i64 })
        }
    } else {
        if n >= limit {
            Err(RatioError::Overflow)
        } else {
            Ok(Ratio { num: n as i64, den: d as i64 })
        }
    }
}

} // verus!
