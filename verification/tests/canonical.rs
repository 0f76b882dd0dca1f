use ratio::consts;
use ratio::number::{gcd_u128, magnitude};
use ratio::{canonicalize, Ratio, RatioError, Rational};

fn rat(num: i64, den: i64) -> Ratio {
    Ratio::new(num, den).unwrap()
}

fn parts(r: Ratio) -> (i64, i64) {
    (r.num(), r.den())
}

#[test]
fn every_value_is_in_canonical_form() {
    for n in -30i64..=30 {
        for d in -30i64..=30 {
            if d == 0 {
                continue;
            }
            let v = rat(n, d);
            assert!(v.den() > 0);
            assert_eq!(gcd_u128(v.num().unsigned_abs() as u128, v.den() as u128), 1);
            assert_eq!(v.num() as i128 * d as i128, n as i128 * v.den() as i128);
        }
    }
}

#[test]
fn reduction_gives_lowest_terms() {
    assert_eq!(parts(rat(6, 8)), (3, 4));
    assert_eq!(parts(rat(3, 4)), (3, 4));
    assert_eq!(parts(rat(-6, 8)), (-3, 4));
    assert_eq!(parts(rat(3, -4)), (-3, 4));
    assert_eq!(parts(rat(-6, -8)), (3, 4));
    assert_eq!(rat(6, 8), rat(3, 4));
    assert_eq!(rat(-6, 8), rat(3, -4));
    assert_eq!(parts(rat(7, 1)), (7, 1));
    assert_eq!(parts(rat(14, -7)), (-2, 1));
}

#[test]
fn zero_is_always_zero_over_one() {
    assert_eq!(parts(rat(0, 5)), (0, 1));
    assert_eq!(parts(rat(0, -7)), (0, 1));
    assert_eq!(parts(rat(0, 1)), (0, 1));
    assert_eq!(parts(rat(0, i64::MIN)), (0, 1));
    assert_eq!(rat(0, 5), rat(0, -7));
    assert_eq!(rat(0, -7), rat(0, 1));
    assert_eq!(Ratio::default(), rat(0, 1));
}

#[test]
fn reducing_twice_is_reducing_once() {
    for n in -20i64..=20 {
        for d in -20i64..=20 {
            if d == 0 {
                continue;
            }
            let v = rat(n, d);
            assert_eq!(Ratio::new(v.num(), v.den()), Ok(v));
            assert_eq!(canonicalize(v.num() as i128, v.den() as i128), Ok(v));
        }
    }
}

#[test]
fn equality_is_equality_of_value() {
    for n in -6i64..=6 {
        for d in 1i64..=6 {
            let v = rat(n, d);
            assert_eq!(v, v);
            for k in [-3i64, -1, 2, 5] {
                let w = rat(n * k, d * k);
                assert_eq!(v, w);
                assert_eq!(w, v);
                let x = rat(n * k * 7, d * k * 7);
                assert_eq!(w, x);
                assert_eq!(v, x);
            }
        }
    }
    assert_ne!(rat(1, 2), rat(1, 3));
    assert_ne!(rat(1, 2), rat(-1, 2));
    assert_ne!(rat(1, 2), rat(2, 1));
}

#[test]
fn a_zero_denominator_is_refused() {
    assert_eq!(Ratio::new(1, 0), Err(RatioError::ZeroDenominator));
    assert_eq!(Ratio::new(0, 0), Err(RatioError::ZeroDenominator));
    assert_eq!(Ratio::new(i64::MIN, 0), Err(RatioError::ZeroDenominator));
    assert_eq!(canonicalize(5, 0), Err(RatioError::ZeroDenominator));
    assert_eq!(canonicalize(i128::MIN, 0), Err(RatioError::ZeroDenominator));
}

#[test]
fn the_least_integer_cannot_change_sign_or_stand_below() {
    assert_eq!(Ratio::new(i64::MIN, -1), Err(RatioError::Overflow));
    assert_eq!(Ratio::new(1, i64::MIN), Err(RatioError::Overflow));
    assert_eq!(Ratio::new(-1, i64::MIN), Err(RatioError::Overflow));
    assert_eq!(Ratio::new(3, i64::MIN), Err(RatioError::Overflow));
    assert_eq!(parts(rat(i64::MIN, 1)), (i64::MIN, 1));
    assert_eq!(parts(rat(i64::MIN, 2)), (i64::MIN / 2, 1));
    assert_eq!(parts(rat(i64::MIN, -2)), (1 << 62, 1));
    assert_eq!(parts(rat(2, i64::MIN)), (-1, 1 << 62));
    assert_eq!(parts(rat(i64::MIN, i64::MIN)), (1, 1));
    assert_eq!(parts(rat(i64::MAX, i64::MIN + 1)), (-1, 1));
    assert_eq!(parts(rat(i64::MAX, i64::MAX)), (1, 1));
    assert_eq!(parts(rat(i64::MAX, 1)), (i64::MAX, 1));
    assert_eq!(parts(rat(1, i64::MAX)), (1, i64::MAX));
}

#[test]
fn wide_pairs_reduce_when_the_result_fits() {
    let two_to_100: i128 = 1 << 100;
    assert_eq!(canonicalize(3 * two_to_100, 4 * two_to_100), Ok(rat(3, 4)));
    assert_eq!(canonicalize(-3 * two_to_100, 6 * two_to_100), Ok(rat(-1, 2)));
    assert_eq!(canonicalize(two_to_100, 1), Err(RatioError::Overflow));
    assert_eq!(canonicalize(1, two_to_100), Err(RatioError::Overflow));
    assert_eq!(canonicalize(i128::MIN, i128::MIN), Ok(rat(1, 1)));
    assert_eq!(canonicalize(i128::MIN, 1 << 64), Ok(rat(i64::MIN, 1)));
    assert_eq!(canonicalize(i128::MIN, -(1 << 64)), Err(RatioError::Overflow));
    assert_eq!(canonicalize(i128::MAX, i128::MAX), Ok(rat(1, 1)));
    assert_eq!(canonicalize(1 << 63, 1), Err(RatioError::Overflow));
    assert_eq!(canonicalize(-(1 << 63), 1), Ok(rat(i64::MIN, 1)));
    assert_eq!(canonicalize(1 << 63, -1), Ok(rat(i64::MIN, 1)));
    assert_eq!(canonicalize(1, 1 << 63), Err(RatioError::Overflow));
}

#[test]
fn integers_become_values_over_one() {
    assert_eq!(parts(Ratio::from(5)), (5, 1));
    assert_eq!(parts(Ratio::from(-5)), (-5, 1));
    assert_eq!(parts(Ratio::from(0)), (0, 1));
    assert_eq!(parts(Ratio::from(i64::MIN)), (i64::MIN, 1));
    assert_eq!(parts(Ratio::from(i64::MAX)), (i64::MAX, 1));
    assert_eq!(Ratio::from(3), rat(6, 2));
}

#[test]
fn gcd_of_naturals() {
    assert_eq!(gcd_u128(0, 0), 0);
    assert_eq!(gcd_u128(0, 9), 9);
    assert_eq!(gcd_u128(9, 0), 9);
    assert_eq!(gcd_u128(1, 9), 1);
    assert_eq!(gcd_u128(12, 18), 6);
    assert_eq!(gcd_u128(18, 12), 6);
    assert_eq!(gcd_u128(17, 5), 1);
    assert_eq!(gcd_u128(u128::MAX, u128::MAX), u128::MAX);
    assert_eq!(gcd_u128(1 << 127, 1 << 64), 1 << 64);
    assert_eq!(gcd_u128(600_851_475_143, 6857 * 1471), 6857 * 1471);
}

#[test]
fn magnitude_of_integers() {
    assert_eq!(magnitude(0), 0);
    assert_eq!(magnitude(5), 5);
    assert_eq!(magnitude(-5), 5);
    assert_eq!(magnitude(i128::MAX), i128::MAX as u128);
    assert_eq!(magnitude(i128::MIN), 1u128 << 127);
    assert_eq!(magnitude(i128::MIN + 1), i128::MAX as u128);
}

#[test]
fn decimal_multipliers() {
    let ten = rat(10, 1);
    assert_eq!(parts(consts::exa()), (1_000_000_000_000_000_000, 1));
    assert_eq!(parts(consts::peta()), (1_000_000_000_000_000, 1));
    assert_eq!(parts(consts::tera()), (1_000_000_000_000, 1));
    assert_eq!(parts(consts::giga()), (1_000_000_000, 1));
    assert_eq!(parts(consts::mega()), (1_000_000, 1));
    assert_eq!(parts(consts::kilo()), (1_000, 1));
    assert_eq!(parts(consts::hecta()), (100, 1));
    assert_eq!(parts(consts::deca()), (10, 1));
    assert_eq!(parts(consts::deci()), (1, 10));
    assert_eq!(parts(consts::centi()), (1, 100));
    assert_eq!(parts(consts::milli()), (1, 1_000));
    assert_eq!(parts(consts::micro()), (1, 1_000_000));
    assert_eq!(parts(consts::nano()), (1, 1_000_000_000));
    assert_eq!(parts(consts::pico()), (1, 1_000_000_000_000));
    assert_eq!(parts(consts::femto()), (1, 1_000_000_000_000_000));
    assert_eq!(parts(consts::atto()), (1, 1_000_000_000_000_000_000));
    assert_eq!(ten.powi(18), Ok(consts::exa()));
    assert_eq!(ten.powi(-18), Ok(consts::atto()));
    assert_eq!(consts::kilo() * consts::milli(), Ok(rat(1, 1)));
    assert_eq!(consts::mega() / consts::kilo(), Ok(consts::kilo()));
}
