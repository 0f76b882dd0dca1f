//! The order of rational values.
//!
//! Two values compare as the rational numbers they stand for. Because
//! denominators are positive, `a` is below `b` exactly if the numerator of
//! `a` times the denominator of `b` is below the numerator of `b` times the
//! denominator of `a`; no division is needed.

use crate::arith::scaled;
use crate::fraction::{lemma_canonical_unique, Fraction};
use crate::ratio::Ratio;
use crate::Rational;
use core::cmp::Ordering;
use vstd::prelude::*;
use vstd::std_specs::cmp::PartialOrdSpecImpl;

verus! {

/// Where `x` stands relative to zero.
pub open spec fn sign_of(x: int) -> Ordering {
    if x < 0 {
        Ordering::Less
    } else if x == 0 {
        Ordering::Equal
    } else {
        Ordering::Greater
    }
}

impl Ratio {
    /// How `self` compares with `other`: the sign of `self - other`.
    pub open spec fn compare(self, other: Ratio) -> Ordering {
        sign_of(self@.cross(other@))
    }

    /// Compares two values as rational numbers.
    pub fn cmp(&self, other: &Ratio) -> (o: Ordering)
        ensures
            o == self.compare(*other),
    {
        let left: i128 = scaled(self.num(), other.den());
        let right: i128 = scaled(other.num(), self.den());
        if left < right {
            Ordering::Less
        } else if left == right {
            Ordering::Equal
        } else {
            Ordering::Greater
        }
    }
}

impl PartialOrd for Ratio {
    /// Compares two values as rational numbers. The result is never `None`.
    fn partial_cmp(&self, other: &Ratio) -> (o: Option<Ordering>)
        ensures
            o == Some(self.compare(*other)),
    {
        Some(self.cmp(other))
    }
}

impl PartialOrdSpecImpl for Ratio {
    open spec fn obeys_partial_cmp_spec() -> bool {
        true
    }

    open spec fn partial_cmp_spec(&self, other: &Ratio) -> Option<Ordering> {
        Some(self.compare(*other))
    }
}

/// Two values compare as equal exactly if they are equal.
pub proof fn lemma_compare_equal(a: Ratio, b: Ratio)
    requires
        a@.is_canonical(),
        b@.is_canonical(),
    ensures
        a.compare(b) == Ordering::Equal <==> a == b,
{
    a.lemma_of_view();
    b.lemma_of_view();
    if a.compare(b) == Ordering::Equal {
        lemma_canonical_unique(a@, b@);
    }
}

/// Swapping the operands reverses the outcome.
pub proof fn lemma_compare_reverse(a: Ratio, b: Ratio)
    ensures
        a.compare(b) == Ordering::Less <==> b.compare(a) == Ordering::Greater,
        a.compare(b) == Ordering::Equal <==> b.compare(a) == Ordering::Equal,
        a.compare(b) == Ordering::Greater <==> b.compare(a) == Ordering::Less,
{
}

/// The order is transitive: from `a <= b` and `b <= c` follows `a <= c`,
/// and `a < c` if either of the two is strict.
pub proof fn lemma_compare_transitive(a: Ratio, b: Ratio, c: Ratio)
    requires
        a@.is_canonical(),
        b@.is_canonical(),
        c@.is_canonical(),
        a.compare(b) != Ordering::Greater,
        b.compare(c) != Ordering::Greater,
    ensures
        a.compare(c) != Ordering::Greater,
        a.compare(b) == Ordering::Less || b.compare(c) == Ordering::Less ==> a.compare(c)
            == Ordering::Less,
{
    lemma_cross_transitive(a@, b@, c@);
}

/// For positive denominators, `f <= g` and `g <= h` give `f <= h`, strictly
/// if either of the two is strict.
pub proof fn lemma_cross_transitive(f: Fraction, g: Fraction, h: Fraction)
    requires
        f.den > 0,
        g.den > 0,
        h.den > 0,
        f.cross(g) <= 0,
        g.cross(h) <= 0,
    ensures
        f.cross(h) <= 0,
        f.cross(g) < 0 || g.cross(h) < 0 ==> f.cross(h) < 0,
{
    // g.den * (f - h) == h.den * (f - g) + f.den * (g - h), crosswise.
    assert(g.den * f.cross(h) == h.den * f.cross(g) + f.den * g.cross(h)) by (nonlinear_arith)
        requires
            f.cross(h) == f.num * h.den - h.num * f.den,
            f.cross(g) == f.num * g.den - g.num * f.den,
            g.cross(h) == g.num * h.den - h.num * g.den,
    ;
    let x = f.cross(h);
    let y = f.cross(g);
    let z = g.cross(h);
    assert(x <= 0 && (y < 0 || z < 0 ==> x < 0)) by (nonlinear_arith)
        requires
            g.den * x == h.den * y + f.den * z,
            f.den > 0,
            g.den > 0,
            h.den > 0,
            y <= 0,
            z <= 0,
    ;
}

} // verus!
