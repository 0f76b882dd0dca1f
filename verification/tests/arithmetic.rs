use ratio::{Ratio, RatioError, Rational};

fn rat(num: i64, den: i64) -> Ratio {
    Ratio::new(num, den).unwrap()
}

#[test]
fn reduce() {
    assert_eq!(rat(1, 3), rat(3, 9));
    assert_eq!(rat(1, 1), rat(2, 2));

    assert_eq!(rat(-1, -1), rat(1, 1));
    assert_eq!(rat(-1, 1), rat(1, -1));
}

#[test]
fn neg() {
    assert_eq!(-rat(1, 2), Ok(rat(-1, 2)));
    assert_eq!(-rat(1, -2), Ok(rat(1, 2)));
    assert_eq!(-rat(-1, 2), Ok(rat(1, 2)));
    assert_eq!(-rat(-1, -2), Ok(rat(-1, 2)));
}

#[test]
fn cmp() {
    assert!(rat(2, 3) > rat(3, 5));
    assert!(rat(-1, -2) > rat(1, -2));
}

#[test]
fn add() {
    assert_eq!(rat(1, 3) + rat(1, 2), Ok(rat(5, 6)));
    assert_eq!(rat(3, 5) + rat(2, 3), Ok(rat(19, 15)));
    assert_eq!(rat(3, 4) + rat(3, 4), Ok(rat(3, 2)));

    assert_eq!(rat(2, 3) + 2, Ok(rat(8, 3)));
}

#[test]
fn sub() {
    assert_eq!(rat(1, 2) - rat(1, 3), Ok(rat(1, 6)));

    assert_eq!(rat(2, 3) - 2, Ok(rat(-4, 3)));
}

#[test]
fn mul() {
    assert_eq!(rat(1, 2) * rat(1, 3), Ok(rat(1, 6)));
    assert_eq!(rat(4, 5) * rat(2, 3), Ok(rat(8, 15)));
    assert_eq!(rat(2, 3) * rat(3, 2), Ok(rat(1, 1)));

    assert_eq!(rat(2, 3) * 2, Ok(rat(4, 3)));
}

#[test]
fn div() {
    assert_eq!(rat(1, 2) / rat(1, 3), Ok(rat(3, 2)));
    assert_eq!(rat(4, 5) / rat(2, 3), Ok(rat(6, 5)));

    assert_eq!(rat(2, 3) / 2, Ok(rat(1, 3)));
}

#[test]
fn rem() {
    assert_eq!(rat(9, 8) % rat(3, 16), Ok(rat(0, 1)));
    assert_eq!(rat(3, 8) % rat(1, 4), Ok(rat(1, 8)));
}

#[test]
fn gcd() {
    assert_eq!(rat(9, 8).gcd(rat(3, 16)), Ok(rat(3, 16)));
    assert_eq!(rat(3, 7).gcd(rat(12, 22)), Ok(rat(3, 77)));
    assert_eq!(rat(13, 6).gcd(rat(3, 4)), Ok(rat(1, 12)));
}

#[test]
fn sum_has_exact_parts() {
    let r = (rat(1, 3) + rat(1, 2)).unwrap();
    assert_eq!((r.num(), r.den()), (5, 6));
    let r = (rat(1, 6) + rat(1, 3)).unwrap();
    assert_eq!((r.num(), r.den()), (1, 2));
    let r = (rat(1, 2) + rat(-1, 2)).unwrap();
    assert_eq!((r.num(), r.den()), (0, 1));
}

#[test]
fn difference_has_exact_parts() {
    let r = (rat(1, 3) - rat(1, 2)).unwrap();
    assert_eq!((r.num(), r.den()), (-1, 6));
    let r = (rat(5, 4) - rat(1, 4)).unwrap();
    assert_eq!((r.num(), r.den()), (1, 1));
}

#[test]
fn product_has_exact_parts() {
    let r = (rat(-2, 3) * rat(3, 4)).unwrap();
    assert_eq!((r.num(), r.den()), (-1, 2));
    let r = (rat(0, 5) * rat(7, 9)).unwrap();
    assert_eq!((r.num(), r.den()), (0, 1));
}

#[test]
fn quotient_has_exact_parts() {
    let r = (rat(1, 2) / rat(-3, 4)).unwrap();
    assert_eq!((r.num(), r.den()), (-2, 3));
    let r = (rat(0, 1) / rat(5, 7)).unwrap();
    assert_eq!((r.num(), r.den()), (0, 1));
}

#[test]
fn remainder_has_the_sign_of_the_dividend() {
    assert_eq!(rat(7, 2) % rat(1, 1), Ok(rat(1, 2)));
    assert_eq!(rat(-7, 2) % rat(1, 1), Ok(rat(-1, 2)));
    assert_eq!(rat(7, 2) % rat(-1, 1), Ok(rat(1, 2)));
    assert_eq!(rat(-7, 2) % rat(-1, 1), Ok(rat(-1, 2)));
    assert_eq!(rat(-3, 8) % rat(1, 4), Ok(rat(-1, 8)));
    assert_eq!(rat(1, 8) % rat(1, 4), Ok(rat(1, 8)));
}

#[test]
fn gcd_of_integers_is_the_integer_gcd() {
    assert_eq!(rat(12, 1).gcd(rat(18, 1)), Ok(rat(6, 1)));
    assert_eq!(rat(-12, 1).gcd(rat(18, 1)), Ok(rat(6, 1)));
    assert_eq!(rat(0, 1).gcd(rat(5, 3)), Ok(rat(5, 3)));
    assert_eq!(rat(0, 1).gcd(rat(0, 1)), Ok(rat(0, 1)));
    assert_eq!(rat(-1, 2).gcd(rat(-1, 3)), Ok(rat(1, 6)));
}

#[test]
fn negation_is_an_involution() {
    for n in -12i64..=12 {
        for d in 1i64..=12 {
            let v = rat(n, d);
            let w = (-v).unwrap();
            assert_eq!(w.num(), -v.num());
            assert_eq!(w.den(), v.den());
            assert_eq!(-w, Ok(v));
        }
    }
}

#[test]
fn negation_of_the_least_numerator_overflows() {
    let v = rat(i64::MIN, 1);
    assert_eq!(-v, Err(RatioError::Overflow));
    let w = rat(i64::MIN + 1, 1);
    assert_eq!(-w, Ok(rat(i64::MAX, 1)));
}

#[test]
fn division_by_zero_is_refused() {
    let zero = rat(0, 1);
    assert_eq!(rat(1, 2) / zero, Err(RatioError::ZeroDivisor));
    assert_eq!(zero / zero, Err(RatioError::ZeroDivisor));
    assert_eq!(rat(1, 2) % zero, Err(RatioError::ZeroDivisor));
    assert_eq!(rat(1, 2) / 0, Err(RatioError::ZeroDivisor));
    assert_eq!(rat(1, 2) % 0, Err(RatioError::ZeroDivisor));
}

#[test]
fn results_that_do_not_fit_overflow() {
    let big = rat(i64::MAX, 1);
    assert_eq!(big + rat(1, 1), Err(RatioError::Overflow));
    assert_eq!(big * rat(2, 1), Err(RatioError::Overflow));
    assert_eq!(rat(1, i64::MAX) / rat(2, 1), Err(RatioError::Overflow));
    assert_eq!(rat(1, i64::MAX) - rat(1, i64::MAX - 1), Err(RatioError::Overflow));
    assert_eq!(rat(i64::MIN, 1) - rat(1, 1), Err(RatioError::Overflow));
    assert_eq!(rat(1, i64::MAX).gcd(rat(1, 2)), Err(RatioError::Overflow));
}

#[test]
fn large_operands_with_a_small_result_do_not_overflow() {
    let big = rat(i64::MAX, 1);
    assert_eq!(big - big, Ok(rat(0, 1)));
    assert_eq!(big / big, Ok(rat(1, 1)));
    assert_eq!(big * rat(1, i64::MAX), Ok(rat(1, 1)));
    assert_eq!(rat(i64::MAX, 2) + rat(i64::MAX, 2), Ok(big));
    assert_eq!(rat(i64::MIN, 3) * rat(3, 2), Ok(rat(i64::MIN / 2, 1)));
    assert_eq!(rat(i64::MIN, 1) + rat(i64::MAX, 1), Ok(rat(-1, 1)));
    assert_eq!(rat(i64::MIN, 1) / rat(i64::MIN, 1), Ok(rat(1, 1)));
    assert_eq!(rat(i64::MIN, 1) % rat(i64::MAX, 1), Ok(rat(-1, 1)));
}
