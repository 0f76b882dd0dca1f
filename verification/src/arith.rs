//! Arithmetic on rational values.
//!
//! Every operation forms the raw fraction that the model names (for `+`,
//! `Fraction::sum`) in 128-bit integers, where it cannot overflow, and hands
//! it to the canonicalizer. The result is the exact one whenever that fits.
//! An integer operand `i` stands for `i/1`.

use crate::fraction::{lemma_canonical_fixed, Fraction};
use crate::number::{gcd, gcd_u128, lemma_gcd_bound, lemma_gcd_units, magnitude};
use crate::ratio::{canonicalize, Ratio, RatioError};
use crate::Rational;
use vstd::math::abs;
use vstd::prelude::*;
use vstd::std_specs::ops::{
    AddSpecImpl, DivSpecImpl, MulSpecImpl, NegSpecImpl, RemSpecImpl, SubSpecImpl,
};

verus! {

/// The product of a numerator and a denominator, in 128 bits.
pub(crate) fn scaled(n: i64, d: i64) -> (p: i128)
    requires
        d > 0,
    ensures
        p == n * d,
        -0x3fff_ffff_ffff_ffff_8000_0000_0000_0000 <= p,
        p <= 0x3fff_ffff_ffff_ffff_8000_0000_0000_0000,
        p > 0 <==> n > 0,
        p < 0 <==> n < 0,
{
    assert({
        &&& -0x3fff_ffff_ffff_ffff_8000_0000_0000_0000 <= n * d
        &&& n * d <= 0x3fff_ffff_ffff_ffff_8000_0000_0000_0000
        &&& (n * d > 0 <==> n > 0)
        &&& (n * d < 0 <==> n < 0)
    }) by (nonlinear_arith)
        requires
            -0x8000_0000_0000_0000 <= n <= 0x7fff_ffff_ffff_ffff,
            0 < d <= 0x7fff_ffff_ffff_ffff,
    ;
    (n as i128) * (d as i128)
}

/// The product of two numerators, in 128 bits.
fn multiplied(a: i64, b: i64) -> (p: i128)
    ensures
        p == a * b,
{
    assert(-0x4000_0000_0000_0000_0000_0000_0000_0000 <= a * b
        <= 0x4000_0000_0000_0000_0000_0000_0000_0000) by (nonlinear_arith)
        requires
            -0x8000_0000_0000_0000 <= a <= 0x7fff_ffff_ffff_ffff,
            -0x8000_0000_0000_0000 <= b <= 0x7fff_ffff_ffff_ffff,
    ;
    (a as i128) * (b as i128)
}

impl core::ops::Add<Ratio> for Ratio {
    type Output = Result<Ratio, RatioError>;

    /// `self + rhs`.
    fn add(self, rhs: Ratio) -> (r: Result<Ratio, RatioError>)
        ensures
            r == Ratio::checked(self@.sum(rhs@).canonical()),
            r matches Ok(v) ==> v@ == self@.sum(rhs@).canonical(),
            r matches Ok(v) ==> v@.is_canonical(),
    {
        let num: i128 = scaled(self.num(), rhs.den()) + scaled(rhs.num(), self.den());
        let den: i128 = scaled(self.den(), rhs.den());
        canonicalize(num, den)
    }
}

impl AddSpecImpl<Ratio> for Ratio {
    open spec fn obeys_add_spec() -> bool {
        true
    }

    open spec fn add_req(self, rhs: Ratio) -> bool {
        true
    }

    open spec fn add_spec(self, rhs: Ratio) -> Result<Ratio, RatioError> {
        Ratio::checked(self@.sum(rhs@).canonical())
    }
}

impl core::ops::Sub<Ratio> for Ratio {
    type Output = Result<Ratio, RatioError>;

    /// `self - rhs`.
    fn sub(self, rhs: Ratio) -> (r: Result<Ratio, RatioError>)
        ensures
            r == Ratio::checked(self@.difference(rhs@).canonical()),
            r matches Ok(v) ==> v@ == self@.difference(rhs@).canonical(),
            r matches Ok(v) ==> v@.is_canonical(),
    {
        let num: i128 = scaled(self.num(), rhs.den()) - scaled(rhs.num(), self.den());
        let den: i128 = scaled(self.den(), rhs.den());
        canonicalize(num, den)
    }
}

impl SubSpecImpl<Ratio> for Ratio {
    open spec fn obeys_sub_spec() -> bool {
        true
    }

    open spec fn sub_req(self, rhs: Ratio) -> bool {
        true
    }

    open spec fn sub_spec(self, rhs: Ratio) -> Result<Ratio, RatioError> {
        Ratio::checked(self@.difference(rhs@).canonical())
    }
}

impl core::ops::Mul<Ratio> for Ratio {
    type Output = Result<Ratio, RatioError>;

    /// `self * rhs`.
    fn mul(self, rhs: Ratio) -> (r: Result<Ratio, RatioError>)
        ensures
            r == Ratio::checked(self@.product(rhs@).canonical()),
            r matches Ok(v) ==> v@ == self@.product(rhs@).canonical(),
            r matches Ok(v) ==> v@.is_canonical(),
    {
        let num: i128 = multiplied(self.num(), rhs.num());
        let den: i128 = scaled(self.den(), rhs.den());
        canonicalize(num, den)
    }
}

impl MulSpecImpl<Ratio> for Ratio {
    open spec fn obeys_mul_spec() -> bool {
        true
    }

    open spec fn mul_req(self, rhs: Ratio) -> bool {
        true
    }

    open spec fn mul_spec(self, rhs: Ratio) -> Result<Ratio, RatioError> {
        Ratio::checked(self@.product(rhs@).canonical())
    }
}

impl core::ops::Div<Ratio> for Ratio {
    type Output = Result<Ratio, RatioError>;

    /// `self / rhs`. Fails with `ZeroDivisor` if `rhs` is zero.
    fn div(self, rhs: Ratio) -> (r: Result<Ratio, RatioError>)
        ensures
            r == (if rhs@.num == 0 {
                Err(RatioError::ZeroDivisor)
            } else {
                Ratio::checked(self@.quotient(rhs@).canonical())
            }),
            r matches Ok(v) ==> v@ == self@.quotient(rhs@).canonical(),
            r matches Ok(v) ==> v@.is_canonical(),
    {
        if rhs.num() == 0 {
            return Err(RatioError::ZeroDivisor);
        }
        let num: i128 = scaled(self.num(), rhs.den());
        let den: i128 = scaled(rhs.num(), self.den());
        assert(self@.den * rhs@.num == rhs@.num * self@.den) by (nonlinear_arith);
        canonicalize(num, den)
    }
}

impl DivSpecImpl<Ratio> for Ratio {
    open spec fn obeys_div_spec() -> bool {
        true
    }

    open spec fn div_req(self, rhs: Ratio) -> bool {
        true
    }

    open spec fn div_spec(self, rhs: Ratio) -> Result<Ratio, RatioError> {
        if rhs@.num == 0 {
            Err(RatioError::ZeroDivisor)
        } else {
            Ratio::checked(self@.quotient(rhs@).canonical())
        }
    }
}

impl core::ops::Rem<Ratio> for Ratio {
    type Output = Result<Ratio, RatioError>;

    /// The remainder of `self / rhs`, with the sign of `self`.
    /// Fails with `ZeroDivisor` if `rhs` is zero.
    fn rem(self, rhs: Ratio) -> (r: Result<Ratio, RatioError>)
        ensures
            r == (if rhs@.num == 0 {
                Err(RatioError::ZeroDivisor)
            } else {
                Ratio::checked(self@.remainder(rhs@).canonical())
            }),
            r matches Ok(v) ==> v@ == self@.remainder(rhs@).canonical(),
            r matches Ok(v) ==> v@.is_canonical(),
    {
        if rhs.num() == 0 {
            return Err(RatioError::ZeroDivisor);
        }
        let a: i128 = scaled(self.num(), rhs.den());
        let b: i128 = scaled(rhs.num(), self.den());
        let m: u128 = magnitude(a) % magnitude(b);
        let num: i128 = if a < 0 {
            -(m as i128)
        } else {
            m as i128
        };
        let den: i128 = scaled(self.den(), rhs.den());
        canonicalize(num, den)
    }
}

impl RemSpecImpl<Ratio> for Ratio {
    open spec fn obeys_rem_spec() -> bool {
        true
    }

    open spec fn rem_req(self, rhs: Ratio) -> bool {
        true
    }

    open spec fn rem_spec(self, rhs: Ratio) -> Result<Ratio, RatioError> {
        if rhs@.num == 0 {
            Err(RatioError::ZeroDivisor)
        } else {
            Ratio::checked(self@.remainder(rhs@).canonical())
        }
    }
}

impl core::ops::Neg for Ratio {
    type Output = Result<Ratio, RatioError>;

    /// `-self`. The denominator stays, and the result needs no reduction.
    /// It overflows only for the numerator `i64::MIN`.
    fn neg(self) -> (r: Result<Ratio, RatioError>)
        ensures
            r == Ratio::checked(self@.negation()),
            r matches Ok(v) ==> v@ == self@.negation(),
            r matches Ok(v) ==> v@.is_canonical(),
    {
        let num: i128 = -(self.num() as i128);
        let den: i128 = self.den() as i128;
        proof {
            lemma_canonical_fixed(self@.negation());
        }
        canonicalize(num, den)
    }
}

impl NegSpecImpl for Ratio {
    open spec fn obeys_neg_spec() -> bool {
        true
    }

    open spec fn neg_req(self) -> bool {
        true
    }

    open spec fn neg_spec(self) -> Result<Ratio, RatioError> {
        Ratio::checked(self@.negation())
    }
}

/// Negating twice gives the value back. Every value has a negation but
/// those with the numerator `i64::MIN`.
pub proof fn lemma_neg_involution(v: Ratio)
    requires
        v@.is_canonical(),
    ensures
        v@.negation().is_canonical(),
        v@.negation().negation() == v@,
        Ratio::checked(v@.negation()) is Ok <==> v@.num != i64::MIN,
        Ratio::checked(v@.negation()) matches Ok(w) ==> (Ratio::checked(w@.negation()) matches Ok(u)
            && u == v),
{
    v.lemma_of_view();
    if v@.num != i64::MIN {
        Ratio::lemma_view_of(v@.negation());
    }
}

/// With the integer `i` for the second operand, the raw results are
/// `(n + d * i) / d`, `(n - d * i) / d`, `(n * i) / d` and `n / (d * i)`.
pub proof fn lemma_whole_operand(f: Fraction, i: int)
    ensures
        f.sum(Fraction::whole(i)) == (Fraction { num: f.num + f.den * i, den: f.den }),
        f.difference(Fraction::whole(i)) == (Fraction { num: f.num - f.den * i, den: f.den }),
        f.product(Fraction::whole(i)) == (Fraction { num: f.num * i, den: f.den }),
        f.quotient(Fraction::whole(i)) == (Fraction { num: f.num, den: f.den * i }),
{
    assert(i * f.den == f.den * i) by (nonlinear_arith);
}

/// The greatest common divisor of two integers, taken as rationals, is
/// their greatest common divisor as integers.
pub proof fn lemma_common_divisor_of_wholes(a: int, b: int)
    ensures
        Fraction::whole(a).common_divisor(Fraction::whole(b)) == Fraction::whole(
            gcd(abs(a), abs(b)) as int,
        ),
        Fraction::whole(a).common_divisor(Fraction::whole(b)).canonical() == Fraction::whole(
            gcd(abs(a), abs(b)) as int,
        ),
{
    let g = Fraction::whole(gcd(abs(a), abs(b)) as int);
    lemma_gcd_units(abs(g.num));
    lemma_canonical_fixed(g);
}

impl Ratio {
    /// The greatest common divisor of `self` and `other`: over the common
    /// denominator, the greatest common divisor of the numerators. It is
    /// never negative, and for two integers it is their greatest common
    /// divisor.
    pub fn gcd(self, other: Ratio) -> (r: Result<Ratio, RatioError>)
        ensures
            r == Ratio::checked(self@.common_divisor(other@).canonical()),
            r matches Ok(v) ==> v@ == self@.common_divisor(other@).canonical(),
            r matches Ok(v) ==> v@.is_canonical(),
    {
        let a: u128 = magnitude(scaled(self.num(), other.den()));
        let b: u128 = magnitude(scaled(other.num(), self.den()));
        let g: u128 = gcd_u128(a, b);
        proof {
            lemma_gcd_bound(a as nat, b as nat);
        }
        let den: i128 = scaled(self.den(), other.den());
        canonicalize(g as i128, den)
    }

    /// The greatest common divisor of `self` and the integer `i`.
    pub fn gcd_int(self, i: i64) -> (r: Result<Ratio, RatioError>)
        ensures
            r == Ratio::checked(self@.common_divisor(Fraction::whole(i as int)).canonical()),
            r matches Ok(v) ==> v@ == self@.common_divisor(Fraction::whole(i as int)).canonical(),
            r matches Ok(v) ==> v@.is_canonical(),
    {
        self.gcd(Ratio::from(i))
    }
}

impl core::ops::Add<i64> for Ratio {
    type Output = Result<Ratio, RatioError>;

    /// `self + rhs`.
    fn add(self, rhs: i64) -> (r: Result<Ratio, RatioError>)
        ensures
            r == Ratio::checked(self@.sum(Fraction::whole(rhs as int)).canonical()),
            r matches Ok(v) ==> v@ == self@.sum(Fraction::whole(rhs as int)).canonical(),
            r matches Ok(v) ==> v@.is_canonical(),
    {
        self + Ratio::from(rhs)
    }
}

impl AddSpecImpl<i64> for Ratio {
    open spec fn obeys_add_spec() -> bool {
        true
    }

    open spec fn add_req(self, rhs: i64) -> bool {
        true
    }

    open spec fn add_spec(self, rhs: i64) -> Result<Ratio, RatioError> {
        Ratio::checked(self@.sum(Fraction::whole(rhs as int)).canonical())
    }
}

impl core::ops::Sub<i64> for Ratio {
    type Output = Result<Ratio, RatioError>;

    /// `self - rhs`.
    fn sub(self, rhs: i64) -> (r: Result<Ratio, RatioError>)
        ensures
            r == Ratio::checked(self@.difference(Fraction::whole(rhs as int)).canonical()),
            r matches Ok(v) ==> v@ == self@.difference(Fraction::whole(rhs as int)).canonical(),
            r matches Ok(v) ==> v@.is_canonical(),
    {
        self - Ratio::from(rhs)
    }
}

impl SubSpecImpl<i64> for Ratio {
    open spec fn obeys_sub_spec() -> bool {
        true
    }

    open spec fn sub_req(self, rhs: i64) -> bool {
        true
    }

    open spec fn sub_spec(self, rhs: i64) -> Result<Ratio, RatioError> {
        Ratio::checked(self@.difference(Fraction::whole(rhs as int)).canonical())
    }
}

impl core::ops::Mul<i64> for Ratio {
    type Output = Result<Ratio, RatioError>;

    /// `self * rhs`.
    fn mul(self, rhs: i64) -> (r: Result<Ratio, RatioError>)
        ensures
            r == Ratio::checked(self@.product(Fraction::whole(rhs as int)).canonical()),
            r matches Ok(v) ==> v@ == self@.product(Fraction::whole(rhs as int)).canonical(),
            r matches Ok(v) ==> v@.is_canonical(),
    {
        self * Ratio::from(rhs)
    }
}

impl MulSpecImpl<i64> for Ratio {
    open spec fn obeys_mul_spec() -> bool {
        true
    }

    open spec fn mul_req(self, rhs: i64) -> bool {
        true
    }

    open spec fn mul_spec(self, rhs: i64) -> Result<Ratio, RatioError> {
        Ratio::checked(self@.product(Fraction::whole(rhs as int)).canonical())
    }
}

impl core::ops::Div<i64> for Ratio {
    type Output = Result<Ratio, RatioError>;

    /// `self / rhs`. Fails with `ZeroDivisor` if `rhs` is zero.
    fn div(self, rhs: i64) -> (r: Result<Ratio, RatioError>)
        ensures
            r == (if rhs == 0 {
                Err(RatioError::ZeroDivisor)
            } else {
                Ratio::checked(self@.quotient(Fraction::whole(rhs as int)).canonical())
            }),
            r matches Ok(v) ==> v@ == self@.quotient(Fraction::whole(rhs as int)).canonical(),
            r matches Ok(v) ==> v@.is_canonical(),
    {
        self / Ratio::from(rhs)
    }
}

impl DivSpecImpl<i64> for Ratio {
    open spec fn obeys_div_spec() -> bool {
        true
    }

    open spec fn div_req(self, rhs: i64) -> bool {
        true
    }

    open spec fn div_spec(self, rhs: i64) -> Result<Ratio, RatioError> {
        if rhs == 0 {
            Err(RatioError::ZeroDivisor)
        } else {
            Ratio::checked(self@.quotient(Fraction::whole(rhs as int)).canonical())
        }
    }
}

impl core::ops::Rem<i64> for Ratio {
    type Output = Result<Ratio, RatioError>;

    /// The remainder of `self / rhs`, with the sign of `self`.
    /// Fails with `ZeroDivisor` if `rhs` is zero.
    fn rem(self, rhs: i64) -> (r: Result<Ratio, RatioError>)
        ensures
            r == (if rhs == 0 {
                Err(RatioError::ZeroDivisor)
            } else {
                Ratio::checked(self@.remainder(Fraction::whole(rhs as int)).canonical())
            }),
            r matches Ok(v) ==> v@ == self@.remainder(Fraction::whole(rhs as int)).canonical(),
            r matches Ok(v) ==> v@.is_canonical(),
    {
        self % Ratio::from(rhs)
    }
}

impl RemSpecImpl<i64> for Ratio {
    open spec fn obeys_rem_spec() -> bool {
        true
    }

    open spec fn rem_req(self, rhs: i64) -> bool {
        true
    }

    open spec fn rem_spec(self, rhs: i64) -> Result<Ratio, RatioError> {
        if rhs == 0 {
            Err(RatioError::ZeroDivisor)
        } else {
            Ratio::checked(self@.remainder(Fraction::whole(rhs as int)).canonical())
        }
    }
}

} // verus!
