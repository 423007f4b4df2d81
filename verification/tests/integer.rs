use safe_bigmath::parsing::{ParseError, ParseReason};
use safe_bigmath::SafeInt;

fn big(text: &str) -> SafeInt {
    text.parse::<SafeInt>().unwrap()
}

fn ten_pow(e: u32) -> SafeInt {
    SafeInt::from(10).pow(e)
}

#[test]
fn test_int() {
    let a = SafeInt::from(10);
    let b = SafeInt::from(20);
    let c = a.clone() + b.clone();
    let d = a.clone() + c.clone();
    assert_eq!(c, 30);
    assert!(d > a);
    assert!(a < d);
    assert!(a < b);
}

#[test]
fn from_native_integers() {
    assert_eq!(SafeInt::from_i64(-7).to_string(), "-7");
    assert_eq!(SafeInt::from_u64(u64::MAX).to_string(), "18446744073709551615");
    assert_eq!(
        SafeInt::from_i128(i128::MIN).to_string(),
        "-170141183460469231731687303715884105728"
    );
    assert_eq!(
        SafeInt::from_u128(u128::MAX).to_string(),
        "340282366920938463463374607431768211455"
    );
    assert_eq!(SafeInt::zero().to_string(), "0");
    assert_eq!(SafeInt::default(), SafeInt::zero());
}

#[test]
fn to_native_integers() {
    assert_eq!(SafeInt::from_i128(i128::MIN).to_i128(), Some(i128::MIN));
    assert_eq!(SafeInt::from_i128(i128::MAX).to_i128(), Some(i128::MAX));
    assert_eq!(SafeInt::from_i64(-5).to_i128(), Some(-5));
    let above = SafeInt::from_i128(i128::MAX).add(&SafeInt::from(1));
    assert_eq!(above.to_i128(), None);
    let below = SafeInt::from_i128(i128::MIN).sub(&SafeInt::from(1));
    assert_eq!(below.to_i128(), None);
    assert_eq!(SafeInt::from_u128(u128::MAX).to_i128(), None);
    assert_eq!(ten_pow(50).to_i128(), None);
}

#[test]
fn addition_crosses_the_inline_threshold() {
    let limit = SafeInt::from(2).pow(120);
    let just_below = limit.sub(&SafeInt::from(1));
    assert!(just_below.magnitude().is_inline());
    assert!(!limit.magnitude().is_inline());
    let sum = just_below.add(&SafeInt::from(1));
    assert!(!sum.magnitude().is_inline());
    assert_eq!(sum, limit);
    assert_eq!(sum.to_string(), "1329227995784915872903807060280344576");
    let back = sum.sub(&SafeInt::from(1));
    assert!(back.magnitude().is_inline());
    assert_eq!(back.to_string(), "1329227995784915872903807060280344575");
}

#[test]
fn large_addition_and_subtraction() {
    let a = ten_pow(40);
    let b = ten_pow(39);
    assert_eq!(a.add(&b).to_string(), "11000000000000000000000000000000000000000");
    assert_eq!(a.sub(&b).to_string(), "9000000000000000000000000000000000000000");
    assert_eq!(b.sub(&a).to_string(), "-9000000000000000000000000000000000000000");
    assert_eq!(a.sub(&a), SafeInt::zero());
    assert!(!a.sub(&a).is_negative());
    assert_eq!(a.neg().add(&b.neg()).to_string(), "-11000000000000000000000000000000000000000");
    assert_eq!(a.neg().add(&a), 0);
}

#[test]
fn large_multiplication() {
    let a = ten_pow(40);
    let b = big("123456789012345678901234567890");
    assert_eq!(
        a.mul(&b).to_string(),
        "1234567890123456789012345678900000000000000000000000000000000000000000"
    );
    assert_eq!(
        a.neg().mul(&b).to_string(),
        "-1234567890123456789012345678900000000000000000000000000000000000000000"
    );
    assert_eq!(a.neg().mul(&b.neg()), a.mul(&b));
    assert_eq!(a.mul(&SafeInt::zero()), 0);
    assert!(!a.neg().mul(&SafeInt::zero()).is_negative());
    let c = SafeInt::from_u64(u64::MAX);
    assert_eq!(c.mul(&c).to_string(), "340282366920938463426481119284349108225");
    let d = SafeInt::from_u128(1u128 << 64);
    assert_eq!(d.mul(&d).to_string(), "340282366920938463463374607431768211456");
}

#[test]
fn division_truncates_toward_zero() {
    let seven = SafeInt::from(7);
    let two = SafeInt::from(2);
    assert_eq!(seven.div(&two).unwrap(), 3);
    assert_eq!(seven.rem(&two).unwrap(), 1);
    assert_eq!(seven.neg().div(&two).unwrap(), -3);
    assert_eq!(seven.neg().rem(&two).unwrap(), -1);
    assert_eq!(seven.div(&two.neg()).unwrap(), -3);
    assert_eq!(seven.rem(&two.neg()).unwrap(), 1);
    assert_eq!(seven.neg().div(&two.neg()).unwrap(), 3);
    assert_eq!(seven.neg().rem(&two.neg()).unwrap(), -1);
}

#[test]
fn large_division_and_remainder() {
    let a = ten_pow(40).add(&SafeInt::from(7));
    let b = ten_pow(38);
    assert_eq!(a.div(&b).unwrap(), 100);
    assert_eq!(a.rem(&b).unwrap(), 7);
    assert_eq!(a.neg().div(&b).unwrap(), -100);
    assert_eq!(a.neg().rem(&b).unwrap(), -7);
    assert_eq!(b.div(&a).unwrap(), 0);
    assert_eq!(b.rem(&a).unwrap(), b);
}

#[test]
fn division_by_zero_is_absent() {
    let zero = SafeInt::zero();
    assert!(SafeInt::from(5).div(&zero).is_none());
    assert!(SafeInt::from(5).rem(&zero).is_none());
    assert!(ten_pow(60).div(&zero).is_none());
    assert!(ten_pow(60).rem(&zero).is_none());
    assert!(zero.div(&zero).is_none());
    assert!((SafeInt::from(5) / SafeInt::zero()).is_none());
    assert!((SafeInt::from(5) % SafeInt::zero()).is_none());
}

#[test]
fn powers() {
    assert_eq!(SafeInt::from(2).pow(10), 1024);
    assert_eq!(SafeInt::from(-2).pow(3), -8);
    assert_eq!(SafeInt::from(-2).pow(4), 16);
    assert_eq!(SafeInt::from(0).pow(0), 1);
    assert_eq!(SafeInt::from(0).pow(5), 0);
    assert_eq!(SafeInt::from(7).pow(0), 1);
    assert_eq!(
        SafeInt::from(2).pow(130).to_string(),
        "1361129467683753853853498429727072845824"
    );
    assert_eq!(
        SafeInt::from(-10).pow(41).to_string(),
        "-100000000000000000000000000000000000000000"
    );
}

#[test]
fn sign_and_parity() {
    let a = ten_pow(40).add(&SafeInt::from(1));
    assert!(a.is_odd());
    assert!(!a.is_even());
    assert!(a.is_positive());
    assert!(!a.is_negative());
    assert!(a.neg().is_negative());
    assert!(a.neg().is_odd());
    assert!(ten_pow(40).is_even());
    assert!(SafeInt::from(-3).is_odd());
    assert!(SafeInt::from(-4).is_even());
    assert!(SafeInt::zero().is_zero());
    assert!(SafeInt::zero().is_even());
    assert!(!SafeInt::zero().is_positive());
    assert!(!SafeInt::zero().is_negative());
    assert_eq!(a.neg().abs(), a);
    assert_eq!(SafeInt::from(-9).abs(), 9);
}

#[test]
fn negative_zero_does_not_exist() {
    let zero = SafeInt::zero().neg();
    assert!(!zero.is_negative());
    assert_eq!(zero, SafeInt::zero());
    assert_eq!(zero.to_string(), "0");
    let built = SafeInt::from_parts(true, safe_bigmath::HeapInt::zero());
    assert!(!built.is_negative());
    assert_eq!(built, 0);
}

#[test]
fn ordering_by_sign_then_magnitude() {
    let big_pos = ten_pow(40);
    let big_neg = ten_pow(40).neg();
    let bigger_neg = ten_pow(41).neg();
    let small = SafeInt::from(3);
    assert!(big_neg < small);
    assert!(small < big_pos);
    assert!(bigger_neg < big_neg);
    assert!(big_neg.less_than(&small));
    assert!(big_pos.greater_than(&small));
    assert!(!big_pos.less_than(&big_pos));
    assert!(big_pos.equals(&ten_pow(40)));
    assert!(!big_pos.equals(&big_neg));
    assert!(big_pos >= ten_pow(40));
    assert!(big_pos <= ten_pow(40));
    assert!(SafeInt::from(-1) < SafeInt::from(0));
    assert!(ten_pow(40) < ten_pow(40).add(&SafeInt::from(1)));
}

#[test]
fn comparison_with_native_is_symmetric() {
    let values = [
        SafeInt::from(-5),
        SafeInt::from(0),
        SafeInt::from(5),
        ten_pow(45),
        ten_pow(45).neg(),
    ];
    let natives: [i128; 5] = [-5, 0, 5, i128::MAX, i128::MIN];
    for v in values.iter() {
        for n in natives.iter() {
            assert_eq!(v.less_than_native(*n), SafeInt::native_greater_than(*n, v));
            assert_eq!(v.greater_than_native(*n), SafeInt::native_less_than(*n, v));
            assert_eq!(v.equals_native(*n), SafeInt::native_equals(*n, v));
        }
    }
    assert!(SafeInt::from(5).equals_native(5));
    assert!(SafeInt::from(4).less_than_native(5));
    assert!(ten_pow(45).greater_than_native(i128::MAX));
    assert!(SafeInt::native_less_than(i128::MAX, &ten_pow(45)));
}

#[test]
fn additive_identity_and_associativity() {
    let a = ten_pow(40);
    let b = SafeInt::from(-123456789);
    let c = SafeInt::from(2).pow(125).neg();
    let zero = SafeInt::zero();
    assert_eq!(a.add(&zero), a);
    assert_eq!(zero.add(&a), a);
    assert_eq!(b.add(&zero), b);
    assert_eq!(a.add(&b).add(&c), a.add(&b.add(&c)));
    assert_eq!(c.add(&a).add(&b), c.add(&a.add(&b)));
}

#[test]
fn assigning_operations() {
    let mut a = SafeInt::from(10);
    a.add_assign(&SafeInt::from(5));
    assert_eq!(a, 15);
    a.sub_assign(&SafeInt::from(20));
    assert_eq!(a, -5);
    a.mul_assign(&SafeInt::from(-6));
    assert_eq!(a, 30);
    a.neg_assign();
    assert_eq!(a, -30);
    assert!(a.rem_assign(&SafeInt::from(7)));
    assert_eq!(a, -2);
    assert!(!a.rem_assign(&SafeInt::zero()));
    assert_eq!(a, -2);
    assert!(!a.div_assign(&SafeInt::zero()));
    assert_eq!(a, -2);
    assert!(a.div_assign(&SafeInt::from(2)));
    assert_eq!(a, -1);
}

#[test]
fn operators_on_owned_values() {
    let a = SafeInt::from(6);
    let b = SafeInt::from(-4);
    assert_eq!(a.clone() + b.clone(), 2);
    assert_eq!(a.clone() - b.clone(), 10);
    assert_eq!(a.clone() * b.clone(), -24);
    assert_eq!((a.clone() / b.clone()).unwrap(), -1);
    assert_eq!((a.clone() % b.clone()).unwrap(), 2);
    assert_eq!(-a, -6);
}

#[test]
fn integer_text() {
    assert_eq!(SafeInt::from(1234567890).to_text(), b"1234567890".to_vec());
    assert_eq!(SafeInt::from(-42).to_string(), "-42");
    assert_eq!(big("-000123").to_string(), "-123");
    assert_eq!(
        big("98765432109876543210987654321098765432109876543210").to_string(),
        "98765432109876543210987654321098765432109876543210"
    );
}

#[test]
fn operators_against_native_integers() {
    let values = [SafeInt::from(-5), SafeInt::from(0), SafeInt::from(5), ten_pow(45), ten_pow(45).neg()];
    let natives: [i64; 5] = [-5, 0, 5, i64::MAX, i64::MIN];
    for v in values.iter() {
        for n in natives.iter() {
            assert_eq!(*v < *n, *n > *v);
            assert_eq!(*v > *n, *n < *v);
            assert_eq!(*v <= *n, *n >= *v);
            assert_eq!(*v == *n, *n == *v);
        }
    }
    assert!(SafeInt::from(4) < 5);
    assert!(5 > SafeInt::from(4));
    assert!(5 == SafeInt::from(5));
    assert!(ten_pow(45) > i64::MAX);
    assert!(i64::MAX < ten_pow(45));
    assert!(i64::MIN > ten_pow(45).neg());
}

#[test]
fn integer_literals() {
    assert_eq!(big("0"), 0);
    assert_eq!(big("-0"), 0);
    assert!(!big("-0").is_negative());
    assert_eq!(big("+17"), 17);
    assert_eq!(big("-17"), -17);
    assert_eq!(big("0017"), 17);
    assert_eq!(big("100000000000000000000000000000000000000000"), ten_pow(41));
    assert_eq!(SafeInt::parse(b"-42"), Ok(SafeInt::from(-42)));
    assert_eq!(SafeInt::from_str("42"), Ok(SafeInt::from(42)));
    let err = |text: &str| text.parse::<SafeInt>().err().unwrap();
    assert_eq!(err(""), ParseError { position: 0, reason: ParseReason::ExpectedDigit });
    assert_eq!(err("-"), ParseError { position: 1, reason: ParseReason::ExpectedDigit });
    assert_eq!(err("x1"), ParseError { position: 0, reason: ParseReason::ExpectedDigit });
    assert_eq!(err("12.5"), ParseError { position: 2, reason: ParseReason::UnexpectedCharacter });
    assert_eq!(err("12 "), ParseError { position: 2, reason: ParseReason::UnexpectedCharacter });
    assert_eq!(err("1e5"), ParseError { position: 1, reason: ParseReason::UnexpectedCharacter });
}

#[test]
fn integer_text_parses_back() {
    let samples = [
        SafeInt::from(0),
        SafeInt::from(-1),
        SafeInt::from(i64::MIN),
        ten_pow(60),
        SafeInt::from(-7).pow(99),
    ];
    for v in samples.iter() {
        assert_eq!(&big(&v.to_string()), v);
    }
}
