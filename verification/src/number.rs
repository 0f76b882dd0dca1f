//! Divisibility and greatest common divisors of natural numbers.
//!
//! `gcd` is defined by Euclid's recursion, which is what the executable
//! `gcd_u128` runs. The lemmas of this module show that the recursion yields
//! the greatest common divisor in the usual sense: it divides both arguments,
//! every common divisor divides it, and none is larger.

use vstd::arithmetic::div_mod::{
    lemma_div_multiples_vanish, lemma_fundamental_div_mod, lemma_mod_multiples_basic,
};
use vstd::arithmetic::power::{lemma_pow0, pow};
use vstd::math::abs;
use vstd::prelude::*;

verus! {

/// `d` divides `n`: some integer multiple of `d` equals `n`. Zero divides only zero.
pub open spec fn divides(d: int, n: int) -> bool {
    if d == 0 {
        n == 0
    } else {
        n % d == 0
    }
}

/// The greatest common divisor of `a` and `b`, with `gcd(0, 0) == 0`.
pub open spec fn gcd(a: nat, b: nat) -> nat
    decreases b,
{
    if b == 0 {
        a
    } else {
        gcd(b, a % b)
    }
}

/// `a` and `b` have no common divisor but 1.
pub open spec fn coprime(a: nat, b: nat) -> bool {
    gcd(a, b) == 1
}

/// A number that `d` divides is `d` times the quotient.
pub proof fn lemma_divides_quotient(d: int, n: int)
    requires
        d >= 0,
        divides(d, n),
    ensures
        n == d * (n / d),
{
    if d > 0 {
        lemma_fundamental_div_mod(n, d);
    }
}

/// Every multiple of `d` is divisible by `d`, and dividing it by `d` gives the factor back.
pub proof fn lemma_multiple_divides(d: int, k: int)
    requires
        d >= 0,
    ensures
        divides(d, d * k),
        d > 0 ==> (d * k) / d == k,
{
    if d > 0 {
        lemma_mod_multiples_basic(k, d);
        lemma_div_multiples_vanish(k, d);
        assert(k * d == d * k) by (nonlinear_arith);
    }
}

/// Divisibility is transitive.
pub proof fn lemma_divides_transitive(a: int, b: int, c: int)
    requires
        a >= 0,
        b >= 0,
        divides(a, b),
        divides(b, c),
    ensures
        divides(a, c),
{
    lemma_divides_quotient(a, b);
    lemma_divides_quotient(b, c);
    let k = b / a;
    let j = c / b;
    assert(c == a * (k * j)) by (nonlinear_arith)
        requires
            b == a * k,
            c == b * j,
    ;
    lemma_multiple_divides(a, k * j);
}

/// Two natural numbers that divide each other are equal.
pub proof fn lemma_divides_antisymmetric(a: nat, b: nat)
    requires
        divides(a as int, b as int),
        divides(b as int, a as int),
    ensures
        a == b,
{
    lemma_divides_quotient(a as int, b as int);
    lemma_divides_quotient(b as int, a as int);
    let k = (b as int) / (a as int);
    let j = (a as int) / (b as int);
    if a > 0 {
        assert(a == b) by (nonlinear_arith)
            requires
                a > 0,
                b >= 0,
                b == a * k,
                a == b * j,
        ;
    }
}

/// A positive number is at least as large as each of its divisors.
pub proof fn lemma_divisor_bound(d: nat, n: nat)
    requires
        n > 0,
        divides(d as int, n as int),
    ensures
        0 < d <= n,
{
    lemma_divides_quotient(d as int, n as int);
    let k = (n as int) / (d as int);
    assert(0 < d <= n) by (nonlinear_arith)
        requires
            n > 0,
            d >= 0,
            n == d * k,
    ;
}

/// Only 1 divides 1.
pub proof fn lemma_divides_one(d: nat)
    requires
        divides(d as int, 1),
    ensures
        d == 1,
{
    lemma_divisor_bound(d, 1);
}

/// The greatest common divisor is positive unless both arguments are zero.
pub proof fn lemma_gcd_positive(a: nat, b: nat)
    requires
        a > 0 || b > 0,
    ensures
        gcd(a, b) > 0,
    decreases b,
{
    if b > 0 {
        lemma_gcd_positive(b, a % b);
    }
}

/// The greatest common divisor divides both arguments.
pub proof fn lemma_gcd_divides(a: nat, b: nat)
    ensures
        divides(gcd(a, b) as int, a as int),
        divides(gcd(a, b) as int, b as int),
    decreases b,
{
    let g = gcd(a, b) as int;
    if b == 0 {
        lemma_multiple_divides(g, 1);
        lemma_multiple_divides(g, 0);
    } else {
        let r = a % b;
        lemma_gcd_divides(b, r);
        lemma_divides_quotient(g, b as int);
        lemma_divides_quotient(g, r as int);
        lemma_fundamental_div_mod(a as int, b as int);
        let q = (a as int) / (b as int);
        let kb = (b as int) / g;
        let kr = (r as int) / g;
        assert(a == g * (kb * q + kr)) by (nonlinear_arith)
            requires
                a == b * q + r,
                b == g * kb,
                r == g * kr,
        ;
        lemma_multiple_divides(g, kb * q + kr);
    }
}

/// Every common divisor of the arguments divides their greatest common divisor.
pub proof fn lemma_gcd_greatest(a: nat, b: nat, d: nat)
    requires
        divides(d as int, a as int),
        divides(d as int, b as int),
    ensures
        divides(d as int, gcd(a, b) as int),
    decreases b,
{
    if b > 0 {
        let r = a % b;
        lemma_divides_quotient(d as int, a as int);
        lemma_divides_quotient(d as int, b as int);
        lemma_fundamental_div_mod(a as int, b as int);
        let q = (a as int) / (b as int);
        let ka = (a as int) / (d as int);
        let kb = (b as int) / (d as int);
        assert(r == d * (ka - kb * q)) by (nonlinear_arith)
            requires
                a == b * q + r,
                a == d * ka,
                b == d * kb,
        ;
        lemma_multiple_divides(d as int, ka - kb * q);
        lemma_gcd_greatest(b, r, d);
    }
}

/// No common divisor of two numbers, not both zero, is larger than their
/// greatest common divisor.
pub proof fn lemma_gcd_largest(a: nat, b: nat, d: nat)
    requires
        a > 0 || b > 0,
        divides(d as int, a as int),
        divides(d as int, b as int),
    ensures
        d <= gcd(a, b),
{
    lemma_gcd_positive(a, b);
    lemma_gcd_greatest(a, b, d);
    lemma_divisor_bound(d, gcd(a, b));
}

/// The greatest common divisor is no larger than the larger argument.
pub proof fn lemma_gcd_bound(a: nat, b: nat)
    ensures
        gcd(a, b) <= a || gcd(a, b) <= b,
{
    lemma_gcd_divides(a, b);
    if a > 0 {
        lemma_divisor_bound(gcd(a, b), a);
    } else if b > 0 {
        lemma_divisor_bound(gcd(a, b), b);
    }
}

/// The greatest common divisor does not depend on the order of the arguments.
pub proof fn lemma_gcd_symmetric(a: nat, b: nat)
    ensures
        gcd(a, b) == gcd(b, a),
{
    lemma_gcd_divides(a, b);
    lemma_gcd_divides(b, a);
    lemma_gcd_greatest(a, b, gcd(b, a));
    lemma_gcd_greatest(b, a, gcd(a, b));
    lemma_divides_antisymmetric(gcd(a, b), gcd(b, a));
}

/// The greatest common divisor of a number and 1 is 1; that of a number and 0 is the number.
pub proof fn lemma_gcd_units(a: nat)
    ensures
        gcd(a, 1) == 1,
        gcd(1, a) == 1,
        gcd(a, 0) == a,
        gcd(0, a) == a,
{
    reveal_with_fuel(gcd, 3);
    lemma_gcd_symmetric(1, a);
    lemma_gcd_symmetric(0, a);
}

/// Bezout's identity: the greatest common divisor is an integer combination
/// of the arguments. The coefficients are returned.
pub proof fn lemma_bezout(a: nat, b: nat) -> (c: (int, int))
    ensures
        a * c.0 + b * c.1 == gcd(a, b),
    decreases b,
{
    if b == 0 {
        (1, 0)
    } else {
        let r = a % b;
        let (x, y) = lemma_bezout(b, r);
        lemma_fundamental_div_mod(a as int, b as int);
        let q = (a as int) / (b as int);
        let g = gcd(a, b);
        assert(a * y + b * (x - q * y) == g) by (nonlinear_arith)
            requires
                b * x + r * y == g,
                a == b * q + r,
        ;
        (y, x - q * y)
    }
}

/// Euclid's lemma: a number that divides a product and is coprime to one
/// factor divides the other factor.
pub proof fn lemma_coprime_divides_product(a: nat, b: nat, c: nat)
    requires
        coprime(a, b),
        divides(a as int, (b * c) as int),
    ensures
        divides(a as int, c as int),
{
    let (x, y) = lemma_bezout(a, b);
    lemma_divides_quotient(a as int, (b * c) as int);
    let k = ((b * c) as int) / (a as int);
    assert(c == a * (x * c + k * y)) by (nonlinear_arith)
        requires
            a * x + b * y == 1,
            b * c == a * k,
    ;
    lemma_multiple_divides(a as int, x * c + k * y);
}

/// Dividing two numbers by their greatest common divisor leaves coprime quotients.
pub proof fn lemma_gcd_quotients_coprime(a: nat, b: nat)
    requires
        a > 0 || b > 0,
    ensures
        gcd(a, b) > 0,
        a == gcd(a, b) * (a / gcd(a, b)),
        b == gcd(a, b) * (b / gcd(a, b)),
        coprime(a / gcd(a, b), b / gcd(a, b)),
{
    let g = gcd(a, b);
    lemma_gcd_positive(a, b);
    lemma_gcd_divides(a, b);
    lemma_divides_quotient(g as int, a as int);
    lemma_divides_quotient(g as int, b as int);
    let qa = a / g;
    let qb = b / g;
    let h = gcd(qa, qb);
    lemma_gcd_divides(qa, qb);
    lemma_divides_quotient(h as int, qa as int);
    lemma_divides_quotient(h as int, qb as int);
    let s = (qa as int) / (h as int);
    let t = (qb as int) / (h as int);
    assert(a == (g * h) * s) by (nonlinear_arith)
        requires
            a == g * qa,
            qa == h * s,
    ;
    assert(b == (g * h) * t) by (nonlinear_arith)
        requires
            b == g * qb,
            qb == h * t,
    ;
    lemma_multiple_divides((g * h) as int, s);
    lemma_multiple_divides((g * h) as int, t);
    lemma_gcd_greatest(a, b, g * h);
    lemma_divides_quotient((g * h) as int, g as int);
    let u = (g as int) / ((g * h) as int);
    assert(h == 1) by (nonlinear_arith)
        requires
            g > 0,
            h >= 0,
            g == (g * h) * u,
    ;
}

/// A product of two numbers coprime to `c` is coprime to `c`.
pub proof fn lemma_coprime_product(a: nat, b: nat, c: nat)
    requires
        coprime(a, c),
        coprime(b, c),
    ensures
        coprime(a * b, c),
{
    let h = gcd(a * b, c);
    lemma_gcd_divides(a * b, c);
    // Whatever divides both h and a divides both a and c, hence is 1.
    let e = gcd(h, a);
    lemma_gcd_divides(h, a);
    lemma_divides_transitive(e as int, h as int, c as int);
    lemma_gcd_greatest(a, c, e);
    lemma_divides_one(e);
    // So h, which divides a * b, divides b; it divides c too, hence is 1.
    lemma_coprime_divides_product(h, a, b);
    lemma_gcd_greatest(b, c, h);
    lemma_divides_one(h);
}

/// A power of a natural number is a natural number, and is the base times the next lower power.
pub proof fn lemma_pow_unfold(b: nat, e: nat)
    ensures
        pow(b as int, e) >= 0,
        e > 0 ==> pow(b as int, e) == b * pow(b as int, (e - 1) as nat),
    decreases e,
{
    reveal(pow);
    if e > 0 {
        lemma_pow_unfold(b, (e - 1) as nat);
        let p = pow(b as int, (e - 1) as nat);
        assert(b * p >= 0) by (nonlinear_arith)
            requires
                b >= 0,
                p >= 0,
        ;
    }
}

/// Every power of a number coprime to `a` is coprime to `a`.
pub proof fn lemma_coprime_power(a: nat, b: nat, e: nat)
    requires
        coprime(a, b),
    ensures
        pow(b as int, e) >= 0,
        coprime(a, pow(b as int, e) as nat),
    decreases e,
{
    lemma_pow_unfold(b, e);
    if e > 0 {
        let q = pow(b as int, (e - 1) as nat) as nat;
        lemma_coprime_power(a, b, (e - 1) as nat);
        lemma_gcd_symmetric(a, b);
        lemma_gcd_symmetric(a, q);
        lemma_coprime_product(b, q, a);
        lemma_gcd_symmetric(b * q, a);
    } else {
        lemma_pow0(b as int);
        lemma_gcd_units(a);
    }
}

/// Powers of coprime numbers are coprime.
pub proof fn lemma_coprime_powers(a: nat, b: nat, i: nat, j: nat)
    requires
        coprime(a, b),
    ensures
        pow(a as int, i) >= 0,
        pow(b as int, j) >= 0,
        coprime(pow(a as int, i) as nat, pow(b as int, j) as nat),
{
    lemma_coprime_power(a, b, j);
    let q = pow(b as int, j) as nat;
    lemma_gcd_symmetric(a, q);
    lemma_coprime_power(q, a, i);
    lemma_gcd_symmetric(q, pow(a as int, i) as nat);
}

/// The magnitude of a product is the product of the magnitudes.
pub proof fn lemma_magnitude_of_product(a: int, b: int)
    ensures
        abs(a * b) == abs(a) * abs(b),
{
    assert(abs(a * b) == abs(a) * abs(b)) by (nonlinear_arith);
}

/// The magnitude of `x`, which always fits in a `u128`.
pub fn magnitude(x: i128) -> (m: u128)
    ensures
        m == abs(x as int),
{
    if x >= 0 {
        x as u128
    } else if x == i128::MIN {
        0x8000_0000_0000_0000_0000_0000_0000_0000u128
    } else {
        (-x) as u128
    }
}

/// Computes the greatest common divisor by repeated remainders.
pub fn gcd_u128(a: u128, b: u128) -> (g: u128)
    ensures
        g == gcd(a as nat, b as nat),
{
    let mut x: u128 = a;
    let mut y: u128 = b;
    while y != 0
        invariant
            gcd(x as nat, y as nat) == gcd(a as nat, b as nat),
        decreases y,
    {
        let r: u128 = x % y;
        x = y;
        y = r;
    }
    x
}

} // verus!
