//! Integer powers of rational values.

use crate::fraction::{lemma_canonical_fixed, lemma_canonical_parts, Fraction};
use crate::number::{
    lemma_coprime_powers, lemma_gcd_symmetric, lemma_gcd_units, lemma_magnitude_of_product,
};
use crate::ratio::{canonicalize, Ratio, RatioError};
use crate::Rational;
use vstd::arithmetic::power::{
    lemma0_pow, lemma1_pow, lemma_pow0, lemma_pow_increases, lemma_pow_positive, pow,
};
use vstd::math::abs;
use vstd::prelude::*;

verus! {

/// A power is the base times the next lower power.
proof fn lemma_pow_step(b: int, e: nat)
    ensures
        pow(b, e + 1) == pow(b, e) * b,
{
    reveal(pow);
    assert(b * pow(b, e) == pow(b, e) * b) by (nonlinear_arith);
}

/// The magnitude of a power is the power of the magnitude.
pub proof fn lemma_pow_magnitude(b: int, e: nat)
    ensures
        abs(pow(b, e)) == pow(abs(b) as int, e),
    decreases e,
{
    if e == 0 {
        lemma_pow0(b);
        lemma_pow0(abs(b) as int);
    } else {
        lemma_pow_magnitude(b, (e - 1) as nat);
        lemma_pow_step(b, (e - 1) as nat);
        lemma_pow_step(abs(b) as int, (e - 1) as nat);
        lemma_magnitude_of_product(pow(b, (e - 1) as nat), b);
    }
}

/// The powers of -1 alternate between 1 and -1.
pub proof fn lemma_pow_minus_one(e: nat)
    ensures
        pow(-1, e) == if e % 2 == 0 { 1int } else { -1int },
    decreases e,
{
    if e == 0 {
        lemma_pow0(-1);
    } else {
        lemma_pow_minus_one((e - 1) as nat);
        lemma_pow_step(-1, (e - 1) as nat);
    }
}

/// A nonnegative power of a canonical fraction is canonical as it stands.
pub proof fn lemma_power_is_canonical(f: Fraction, k: int)
    requires
        f.is_canonical(),
        k >= 0,
    ensures
        f.power(k).is_canonical(),
        f.power(k).canonical() == f.power(k),
{
    lemma_coprime_powers(abs(f.num), f.den as nat, k as nat, k as nat);
    lemma_pow_magnitude(f.num, k as nat);
    lemma_pow_positive(f.den, k as nat);
    lemma_canonical_fixed(f.power(k));
}

/// The canonical form of a power of a canonical fraction that is not zero:
/// its parts are the powers of the parts, up to order and sign, because
/// powers of coprime numbers are coprime.
proof fn lemma_power_parts(f: Fraction, k: int)
    requires
        f.is_canonical(),
        f.num != 0,
    ensures
        k >= 0 ==> abs(f.power(k).canonical().num) == pow(abs(f.num) as int, k as nat),
        k >= 0 ==> f.power(k).canonical().den == pow(f.den, k as nat),
        k < 0 ==> abs(f.power(k).canonical().num) == pow(f.den, (-k) as nat),
        k < 0 ==> f.power(k).canonical().den == pow(abs(f.num) as int, (-k) as nat),
{
    let e: nat = if k >= 0 { k as nat } else { (-k) as nat };
    let n = abs(f.num);
    let d = f.den as nat;
    lemma_coprime_powers(n, d, e, e);
    lemma_pow_magnitude(f.num, e);
    lemma_pow_magnitude(f.den, e);
    lemma_pow_increases(n, 0, e);
    lemma_pow_increases(d, 0, e);
    lemma_pow0(n as int);
    lemma_pow0(d as int);
    let pn = pow(n as int, e) as nat;
    let pd = pow(d as int, e) as nat;
    lemma_gcd_symmetric(pn, pd);
    lemma_canonical_parts(f.power(k));
}

impl Ratio {
    /// `self` to the power `k`. A negative `k` gives the reciprocal to the
    /// power `-k`.
    ///
    /// Fails with `ZeroDivisor` for a negative power of zero, and with
    /// `Overflow` if the exact result does not fit.
    pub fn powi(self, k: i64) -> (r: Result<Ratio, RatioError>)
        ensures
            r == (if k < 0 && self@.num == 0 {
                Err(RatioError::ZeroDivisor)
            } else {
                Ratio::checked(self@.power(k as int).canonical())
            }),
            r matches Ok(v) ==> v@ == self@.power(k as int).canonical(),
            r matches Ok(v) ==> v@.is_canonical(),
    {
        let n: i64 = self.num();
        let d: i64 = self.den();
        if k < 0 && n == 0 {
            return Err(RatioError::ZeroDivisor);
        }
        let e: u64 = if k >= 0 {
            k as u64
        } else if k == i64::MIN {
            0x8000_0000_0000_0000u64
        } else {
            (-k) as u64
        };
        if d == 1 && -1 <= n && n <= 1 {
            // The powers of 0, 1 and -1 are known without multiplying.
            let value: i128 = if e == 0 {
                1
            } else if n == -1 && e % 2 == 1 {
                -1
            } else if n == -1 {
                1
            } else {
                n as i128
            };
            proof {
                lemma_pow0(n as int);
                lemma1_pow(e as nat);
                lemma_pow_minus_one(e as nat);
                if e > 0 {
                    lemma0_pow(e as nat);
                }
            }
            return if k >= 0 {
                canonicalize(value, 1)
            } else {
                canonicalize(1, value)
            };
        }
        let limit: i128 = 0x8000_0000_0000_0000i128;
        let mut pn: i128 = 1;
        let mut pd: i128 = 1;
        let mut j: u64 = 0;
        proof {
            // Zero has the denominator 1, so it took the branch above.
            lemma_gcd_units(d as nat);
            lemma_pow0(n as int);
            lemma_pow0(d as int);
        }
        while j < e
            invariant
                j <= e,
                n != 0,
                self@.is_canonical(),
                n == self@.num,
                d == self@.den,
                e == if k >= 0 { k as int } else { -(k as int) },
                limit == 0x8000_0000_0000_0000i128,
                pn == pow(n as int, j as nat),
                pd == pow(d as int, j as nat),
                -limit <= pn <= limit,
                0 < pd <= limit,
            decreases e - j,
        {
            proof {
                lemma_pow_step(n as int, j as nat);
                lemma_pow_step(d as int, j as nat);
                assert(-0x4000_0000_0000_0000_0000_0000_0000_0000 <= pn * n
                    <= 0x4000_0000_0000_0000_0000_0000_0000_0000) by (nonlinear_arith)
                    requires
                        -0x8000_0000_0000_0000 <= pn <= 0x8000_0000_0000_0000,
                        -0x8000_0000_0000_0000 <= n <= 0x8000_0000_0000_0000,
                ;
                assert(0 < pd * d <= 0x4000_0000_0000_0000_0000_0000_0000_0000) by (nonlinear_arith)
                    requires
                        0 < pd <= 0x8000_0000_0000_0000,
                        0 < d <= 0x8000_0000_0000_0000,
                ;
            }
            pn = pn * (n as i128);
            pd = pd * (d as i128);
            j = j + 1;
            if pn > limit || pn < -limit || pd > limit {
                proof {
                    // A later power is no smaller in magnitude, and the
                    // canonical form of the result holds both final powers.
                    lemma_pow_magnitude(n as int, j as nat);
                    lemma_pow_increases(abs(n as int), j as nat, e as nat);
                    lemma_pow_increases(d as nat, j as nat, e as nat);
                    lemma_power_parts(self@, k as int);
                }
                return Err(RatioError::Overflow);
            }
        }
        proof {
            lemma_pow_magnitude(n as int, e as nat);
            lemma_pow_increases(abs(n as int), 0, e as nat);
            lemma_pow0(abs(n as int) as int);
        }
        if k >= 0 {
            canonicalize(pn, pd)
        } else {
            canonicalize(pd, pn)
        }
    }
}

} // verus!
