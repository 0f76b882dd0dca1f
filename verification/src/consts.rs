//! The decimal multipliers of the metric system, each as a rational value.
//!
//! | Prefix  | Symbol | Value |
//! |---------|--------|-------|
//! | `exa`   | `E`    | 10^18 |
//! | `peta`  | `P`    | 10^15 |
//! | `tera`  | `T`    | 10^12 |
//! | `giga`  | `G`    | 10^9  |
//! | `mega`  | `M`    | 10^6  |
//! | `kilo`  | `k`    | 10^3  |
//! | `hecta` | `h`    | 10^2  |
//! | `deca`  | `da`   | 10^1  |
//! | `deci`  | `d`    | 10^-1 |
//! | `centi` | `c`    | 10^-2 |
//! | `milli` | `m`    | 10^-3 |
//! | `micro` | `u`    | 10^-6 |
//! | `nano`  | `n`    | 10^-9 |
//! | `pico`  | `p`    | 10^-12 |
//! | `femto` | `f`    | 10^-15 |
//! | `atto`  | `a`    | 10^-18 |

use crate::fraction::Fraction;
use crate::number::lemma_gcd_units;
use crate::ratio::Ratio;
use vstd::prelude::*;

verus! {

/// One over the positive integer `den`.
fn one_over(den: i64) -> (r: Ratio)
    requires
        den > 0,
    ensures
        r@ == (Fraction { num: 1, den: den as int }),
{
    proof {
        lemma_gcd_units(den as nat);
    }
    Ratio::new(1, den).unwrap()
}

/// 10^18
pub fn exa() -> (r: Ratio)
    ensures
        r@ == Fraction::whole(1_000_000_000_000_000_000),
{
    Ratio::from(1_000_000_000_000_000_000)
}

/// 10^15
pub fn peta() -> (r: Ratio)
    ensures
        r@ == Fraction::whole(1_000_000_000_000_000),
{
    Ratio::from(1_000_000_000_000_000)
}

/// 10^12
pub fn tera() -> (r: Ratio)
    ensures
        r@ == Fraction::whole(1_000_000_000_000),
{
    Ratio::from(1_000_000_000_000)
}

/// 10^9
pub fn giga() -> (r: Ratio)
    ensures
        r@ == Fraction::whole(1_000_000_000),
{
    Ratio::from(1_000_000_000)
}

/// 10^6
pub fn mega() -> (r: Ratio)
    ensures
        r@ == Fraction::whole(1_000_000),
{
    Ratio::from(1_000_000)
}

/// 10^3
pub fn kilo() -> (r: Ratio)
    ensures
        r@ == Fraction::whole(1_000),
{
    Ratio::from(1_000)
}

/// 10^2
pub fn hecta() -> (r: Ratio)
    ensures
        r@ == Fraction::whole(100),
{
    Ratio::from(100)
}

/// 10^1
pub fn deca() -> (r: Ratio)
    ensures
        r@ == Fraction::whole(10),
{
    Ratio::from(10)
}

/// 10^-1
pub fn deci() -> (r: Ratio)
    ensures
        r@ == (Fraction { num: 1, den: 10 }),
{
    one_over(10)
}

/// 10^-2
pub fn centi() -> (r: Ratio)
    ensures
        r@ == (Fraction { num: 1, den: 100 }),
{
    one_over(100)
}

/// 10^-3
pub fn milli() -> (r: Ratio)
    ensures
        r@ == (Fraction { num: 1, den: 1_000 }),
{
    one_over(1_000)
}

/// 10^-6
pub fn micro() -> (r: Ratio)
    ensures
        r@ == (Fraction { num: 1, den: 1_000_000 }),
{
    one_over(1_000_000)
}

/// 10^-9
pub fn nano() -> (r: Ratio)
    ensures
        r@ == (Fraction { num: 1, den: 1_000_000_000 }),
{
    one_over(1_000_000_000)
}

/// 10^-12
pub fn pico() -> (r: Ratio)
    ensures
        r@ == (Fraction { num: 1, den: 1_000_000_000_000 }),
{
    one_over(1_000_000_000_000)
}

/// 10^-15
pub fn femto() -> (r: Ratio)
    ensures
        r@ == (Fraction { num: 1, den: 1_000_000_000_000_000 }),
{
    one_over(1_000_000_000_000_000)
}

/// 10^-18
pub fn atto() -> (r: Ratio)
    ensures
        r@ == (Fraction { num: 1, den: 1_000_000_000_000_000_000 }),
{
    one_over(1_000_000_000_000_000_000)
}

} // verus!
