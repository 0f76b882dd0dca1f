use ratio::{Ratio, RatioError, Rational};

fn rat(num: i64, den: i64) -> Ratio {
    Ratio::new(num, den).unwrap()
}

#[test]
fn integer_operands_have_exact_results() {
    assert_eq!(rat(2, 3) + 2, Ok(rat(8, 3)));
    assert_eq!(rat(2, 3) - 2, Ok(rat(-4, 3)));
    assert_eq!(rat(2, 3) * 3, Ok(rat(2, 1)));
    assert_eq!(rat(2, 3) / 4, Ok(rat(1, 6)));
    assert_eq!(rat(2, 3) / -4, Ok(rat(-1, 6)));
    assert_eq!(rat(7, 2) % 3, Ok(rat(1, 2)));
    assert_eq!(rat(-7, 2) % 3, Ok(rat(-1, 2)));
    assert_eq!(rat(9, 2).gcd_int(6), Ok(rat(3, 2)));
    assert_eq!(rat(9, 2).gcd_int(0), Ok(rat(9, 2)));
    let r = (rat(1, 4) + -1).unwrap();
    assert_eq!((r.num(), r.den()), (-3, 4));
}

#[test]
fn an_integer_operand_stands_for_itself_over_one() {
    for n in -6i64..=6 {
        for d in 1i64..=6 {
            let v = rat(n, d);
            for i in [-5i64, -2, -1, 0, 1, 3, 4] {
                let w = rat(i, 1);
                assert_eq!(v + i, v + w);
                assert_eq!(v - i, v - w);
                assert_eq!(v * i, v * w);
                assert_eq!(v / i, v / w);
                assert_eq!(v % i, v % w);
                assert_eq!(v.gcd_int(i), v.gcd(w));
            }
        }
    }
}

#[test]
fn integer_operands_at_the_limits() {
    assert_eq!(rat(0, 1) + i64::MIN, Ok(rat(i64::MIN, 1)));
    assert_eq!(rat(-1, 1) + i64::MIN, Err(RatioError::Overflow));
    assert_eq!(rat(-1, 1) - i64::MIN, Ok(rat(i64::MAX, 1)));
    assert_eq!(rat(0, 1) - i64::MIN, Err(RatioError::Overflow));
    assert_eq!(rat(1, 2) * i64::MIN, Ok(rat(i64::MIN / 2, 1)));
    assert_eq!(rat(1, 1) / i64::MIN, Err(RatioError::Overflow));
    assert_eq!(rat(2, 1) / i64::MIN, Ok(rat(-1, 1 << 62)));
    assert_eq!(rat(i64::MIN, 1).gcd_int(i64::MIN), Err(RatioError::Overflow));
    assert_eq!(rat(i64::MIN, 1).gcd_int(2), Ok(rat(2, 1)));
}
