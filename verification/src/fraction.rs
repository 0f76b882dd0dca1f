//! The mathematical model of the library: fractions of unbounded integers.
//!
//! A `Fraction` is any numerator over any denominator. The canonical form of
//! a fraction with a nonzero denominator is the one fraction of the same
//! value whose denominator is positive and shares no factor with the
//! numerator. The arithmetic of this module works on raw fractions and does
//! not reduce them; contracts reduce the raw result with `canonical`.

use crate::number::{
    coprime, gcd, lemma_coprime_divides_product, lemma_divides_antisymmetric,
    lemma_gcd_quotients_coprime, lemma_gcd_symmetric, lemma_gcd_units,
    lemma_magnitude_of_product, lemma_multiple_divides,
};
use vstd::arithmetic::power::pow;
use vstd::math::abs;
use vstd::prelude::*;

verus! {

/// A numerator over a denominator, not necessarily in lowest terms.
pub struct Fraction {
    pub num: int,
    pub den: int,
}

/// The remainder of the division that rounds toward zero. It has the sign of `a`.
pub open spec fn truncated_rem(a: int, b: int) -> int {
    if a >= 0 {
        a % (abs(b) as int)
    } else {
        -((-a) % (abs(b) as int))
    }
}

impl Fraction {
    /// The integer `i` as a fraction.
    pub open spec fn whole(i: int) -> Fraction {
        Fraction { num: i, den: 1 }
    }

    /// The denominator is positive and shares no factor with the numerator.
    /// The only canonical fraction of value zero is `0/1`.
    pub open spec fn is_canonical(self) -> bool {
        self.den > 0 && coprime(abs(self.num), abs(self.den))
    }

    /// The canonical form of a fraction whose denominator is not zero:
    /// both parts divided by their greatest common divisor, and the sign of
    /// the denominator moved to the numerator.
    pub open spec fn canonical(self) -> Fraction {
        if self.num == 0 {
            Fraction { num: 0, den: 1 }
        } else {
            let g = gcd(abs(self.num), abs(self.den)) as int;
            let n = self.num / g;
            let d = (abs(self.den) as int) / g;
            Fraction { num: if self.den < 0 { -n } else { n }, den: d }
        }
    }

    /// The two fractions stand for the same rational number
    /// (for fractions whose denominators are not zero).
    pub open spec fn same_value(self, other: Fraction) -> bool {
        self.num * other.den == other.num * self.den
    }

    /// For positive denominators, the sign of this number is the sign of
    /// `self - other`.
    pub open spec fn cross(self, other: Fraction) -> int {
        self.num * other.den - other.num * self.den
    }

    /// Both parts can be held in an `i64`.
    pub open spec fn fits(self) -> bool {
        &&& i64::MIN <= self.num <= i64::MAX
        &&& i64::MIN <= self.den <= i64::MAX
    }

    /// `self + other`, not reduced.
    pub open spec fn sum(self, other: Fraction) -> Fraction {
        Fraction { num: self.num * other.den + other.num * self.den, den: self.den * other.den }
    }

    /// `self - other`, not reduced.
    pub open spec fn difference(self, other: Fraction) -> Fraction {
        Fraction { num: self.num * other.den - other.num * self.den, den: self.den * other.den }
    }

    /// `self * other`, not reduced.
    pub open spec fn product(self, other: Fraction) -> Fraction {
        Fraction { num: self.num * other.num, den: self.den * other.den }
    }

    /// `self / other`, not reduced. The denominator is zero if `other` is zero.
    pub open spec fn quotient(self, other: Fraction) -> Fraction {
        Fraction { num: self.num * other.den, den: self.den * other.num }
    }

    /// The remainder of `self` divided by `other`, not reduced: over the
    /// common denominator, the remainder of the numerators, with the sign
    /// of `self`.
    pub open spec fn remainder(self, other: Fraction) -> Fraction {
        Fraction {
            num: truncated_rem(self.num * other.den, other.num * self.den),
            den: self.den * other.den,
        }
    }

    /// `-self`.
    pub open spec fn negation(self) -> Fraction {
        Fraction { num: -self.num, den: self.den }
    }

    /// `self` to the power `k`, not reduced. For a negative `k` it is the
    /// reciprocal to the power `-k`, whose denominator is zero if `self`
    /// is zero.
    pub open spec fn power(self, k: int) -> Fraction {
        if k >= 0 {
            Fraction { num: pow(self.num, k as nat), den: pow(self.den, k as nat) }
        } else {
            Fraction { num: pow(self.den, (-k) as nat), den: pow(self.num, (-k) as nat) }
        }
    }

    /// The greatest common divisor of two fractions, not reduced: over the
    /// common denominator, the greatest common divisor of the numerators.
    pub open spec fn common_divisor(self, other: Fraction) -> Fraction {
        Fraction {
            num: gcd(abs(self.num * other.den), abs(other.num * self.den)) as int,
            den: self.den * other.den,
        }
    }
}

/// Every fraction has the same value as itself.
pub proof fn lemma_same_value_reflexive(f: Fraction)
    ensures
        f.same_value(f),
{
}

/// Having the same value is symmetric.
pub proof fn lemma_same_value_symmetric(f: Fraction, g: Fraction)
    ensures
        f.same_value(g) <==> g.same_value(f),
{
}

/// Having the same value is transitive.
pub proof fn lemma_same_value_transitive(f: Fraction, g: Fraction, h: Fraction)
    requires
        g.den != 0,
        f.same_value(g),
        g.same_value(h),
    ensures
        f.same_value(h),
{
    // Both sides times g.den are equal, and g.den is not zero.
    assert(g.den * (f.num * h.den) == g.den * (h.num * f.den)) by (nonlinear_arith)
        requires
            f.num * g.den == g.num * f.den,
            g.num * h.den == h.num * g.den,
    ;
    assert(f.num * h.den == h.num * f.den) by (nonlinear_arith)
        requires
            g.den != 0,
            g.den * (f.num * h.den) == g.den * (h.num * f.den),
    ;
}

/// The parts of the canonical form of a fraction that is not zero.
///
/// With `g` for the greatest common divisor of the magnitudes of the given
/// parts: the given parts are `g` times the canonical ones, up to the sign
/// of the given denominator. So the canonical magnitudes are the given ones
/// divided by `g`, and the canonical numerator is negative exactly if the
/// given signs differ.
pub proof fn lemma_canonical_parts(f: Fraction)
    requires
        f.num != 0,
        f.den != 0,
    ensures
        gcd(abs(f.num), abs(f.den)) > 0,
        abs(f.den) == gcd(abs(f.num), abs(f.den)) * f.canonical().den,
        f.den > 0 ==> f.num == gcd(abs(f.num), abs(f.den)) * f.canonical().num,
        f.den < 0 ==> f.num == -(gcd(abs(f.num), abs(f.den)) * f.canonical().num),
        f.canonical().den == abs(f.den) / gcd(abs(f.num), abs(f.den)),
        abs(f.canonical().num) == abs(f.num) / gcd(abs(f.num), abs(f.den)),
        f.canonical().num != 0,
        f.canonical().num < 0 <==> (f.num < 0) != (f.den < 0),
{
    let g = gcd(abs(f.num), abs(f.den));
    lemma_gcd_quotients_coprime(abs(f.num), abs(f.den));
    let k = abs(f.num) / g;
    assert(k > 0) by (nonlinear_arith)
        requires
            abs(f.num) > 0,
            abs(f.num) == g * k,
    ;
    // The numerator is g * k or g * (-k), so its quotient by g is k or -k.
    let q: int = if f.num > 0 { k as int } else { -k };
    assert(f.num == g * q) by (nonlinear_arith)
        requires
            abs(f.num) == g * k,
            q == k && f.num == abs(f.num) || q == -k && f.num == -abs(f.num),
    ;
    lemma_multiple_divides(g as int, q);
    assert(g * (-q) == -(g * q)) by (nonlinear_arith);
}

/// The canonical form is canonical.
pub proof fn lemma_canonical_is_canonical(f: Fraction)
    requires
        f.den != 0,
    ensures
        f.canonical().is_canonical(),
{
    if f.num == 0 {
        lemma_gcd_units(0);
    } else {
        let g = gcd(abs(f.num), abs(f.den));
        lemma_canonical_parts(f);
        lemma_gcd_quotients_coprime(abs(f.num), abs(f.den));
        let d = f.canonical().den;
        assert(d > 0) by (nonlinear_arith)
            requires
                abs(f.den) > 0,
                g > 0,
                abs(f.den) == g * d,
        ;
    }
}

/// Reducing does not make a part larger in magnitude.
pub proof fn lemma_canonical_bounds(f: Fraction)
    requires
        f.den != 0,
    ensures
        abs(f.canonical().num) <= abs(f.num),
        0 < f.canonical().den <= abs(f.den),
{
    if f.num != 0 {
        let g = gcd(abs(f.num), abs(f.den));
        let c = f.canonical();
        lemma_canonical_parts(f);
        lemma_canonical_is_canonical(f);
        lemma_gcd_quotients_coprime(abs(f.num), abs(f.den));
        let k = abs(f.num) / g;
        assert(k <= abs(f.num) && c.den <= abs(f.den)) by (nonlinear_arith)
            requires
                g > 0,
                k >= 0,
                c.den > 0,
                abs(f.num) == g * k,
                abs(f.den) == g * c.den,
        ;
    }
}

/// The canonical form has the value of the fraction it was made from.
pub proof fn lemma_canonical_same_value(f: Fraction)
    requires
        f.den != 0,
    ensures
        f.canonical().same_value(f),
{
    if f.num != 0 {
        let g = gcd(abs(f.num), abs(f.den)) as int;
        let c = f.canonical();
        lemma_canonical_parts(f);
        if f.den > 0 {
            assert(c.num * f.den == f.num * c.den) by (nonlinear_arith)
                requires
                    f.num == g * c.num,
                    f.den == g * c.den,
            ;
        } else {
            assert(c.num * f.den == f.num * c.den) by (nonlinear_arith)
                requires
                    f.num == -(g * c.num),
                    f.den == -(g * c.den),
            ;
        }
    }
}

/// A canonical fraction is its own canonical form.
pub proof fn lemma_canonical_fixed(f: Fraction)
    requires
        f.is_canonical(),
    ensures
        f.canonical() == f,
{
    lemma_gcd_units(abs(f.den));
}

/// Reducing twice is reducing once.
pub proof fn lemma_canonical_idempotent(f: Fraction)
    requires
        f.den != 0,
    ensures
        f.canonical().canonical() == f.canonical(),
{
    lemma_canonical_is_canonical(f);
    lemma_canonical_fixed(f.canonical());
}

/// Canonical fractions of the same value are the same fraction.
pub proof fn lemma_canonical_unique(f: Fraction, g: Fraction)
    requires
        f.is_canonical(),
        g.is_canonical(),
        f.same_value(g),
    ensures
        f == g,
{
    lemma_magnitude_of_product(f.num, g.den);
    lemma_magnitude_of_product(g.num, f.den);
    let fd = f.den as nat;
    let gd = g.den as nat;
    // Each denominator divides the product of the other with a numerator
    // that it is coprime to, so each divides the other.
    lemma_multiple_divides(f.den, abs(g.num) as int);
    lemma_multiple_divides(g.den, abs(f.num) as int);
    lemma_gcd_symmetric(abs(f.num), fd);
    lemma_gcd_symmetric(abs(g.num), gd);
    assert(abs(f.num) * gd == fd * abs(g.num)) by (nonlinear_arith)
        requires
            abs(f.num) * g.den == abs(g.num) * f.den,
            gd == g.den,
            fd == f.den,
    ;
    assert(abs(g.num) * fd == gd * abs(f.num)) by (nonlinear_arith)
        requires
            abs(f.num) * g.den == abs(g.num) * f.den,
            gd == g.den,
            fd == f.den,
    ;
    lemma_coprime_divides_product(fd, abs(f.num), gd);
    lemma_coprime_divides_product(gd, abs(g.num), fd);
    lemma_divides_antisymmetric(fd, gd);
    assert(f.num == g.num) by (nonlinear_arith)
        requires
            f.num * g.den == g.num * f.den,
            f.den == g.den,
            f.den > 0,
    ;
}

/// Two fractions have the same canonical form exactly if they have the same value.
pub proof fn lemma_canonical_decides_value(f: Fraction, g: Fraction)
    requires
        f.den != 0,
        g.den != 0,
    ensures
        f.canonical() == g.canonical() <==> f.same_value(g),
{
    let cf = f.canonical();
    let cg = g.canonical();
    lemma_canonical_same_value(f);
    lemma_canonical_same_value(g);
    lemma_canonical_is_canonical(f);
    lemma_canonical_is_canonical(g);
    lemma_same_value_symmetric(cf, f);
    lemma_same_value_symmetric(cg, g);
    if f.same_value(g) {
        lemma_same_value_transitive(cf, f, g);
        lemma_same_value_transitive(cf, g, cg);
        lemma_canonical_unique(cf, cg);
    }
    if cf == cg {
        lemma_same_value_transitive(f, cf, g);
    }
}

/// The canonical form of `f` is the one canonical fraction of the value of `f`.
pub proof fn lemma_canonical_characterized(f: Fraction, c: Fraction)
    requires
        f.den != 0,
        c.is_canonical(),
        c.same_value(f),
    ensures
        f.canonical() == c,
{
    lemma_canonical_fixed(c);
    lemma_canonical_decides_value(c, f);
}

} // verus!
