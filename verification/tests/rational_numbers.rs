use std::cmp::Ordering;

use fractal_tiles::rational::{gcd, RationalNumber};

#[test]
fn test_ggt_01() {
    let denom = 12;
    let num = 2;
    let expected = 2;

    let actual = gcd(denom, num);

    assert_eq!(actual, expected);
}

#[test]
fn test_add_01() {
    let a = RationalNumber { num: 2, denom: 3 };
    let b = RationalNumber { num: 4, denom: 5 };

    let expected = RationalNumber { num: 22, denom: 15 };
    let actual = a.add(&b);

    assert_eq!(actual, expected);
}

#[test]
fn test_add_02() {
    let a = RationalNumber { num: -2, denom: 3 };
    let b = RationalNumber { num: 4, denom: 5 };

    let expected = RationalNumber { num: 2, denom: 15 };
    let actual = a.add(&b);

    assert_eq!(actual, expected);
}

#[test]
fn test_add_03() {
    let a = RationalNumber { num: -2, denom: 3 };
    let b = RationalNumber { num: -4, denom: 3 };

    let expected = RationalNumber { num: -2, denom: 1 };
    let actual = a.add(&b);

    assert_eq!(actual, expected);
}

#[test]
fn test_mul_01() {
    let a = RationalNumber { num: 2, denom: 3 };
    let b = RationalNumber { num: 4, denom: 5 };

    let expected = RationalNumber { num: 8, denom: 15 };
    let actual = a.mul(&b);

    assert_eq!(actual, expected);
}

#[test]
fn test_mul_02() {
    let a = RationalNumber { num: 2, denom: -3 };
    let b = RationalNumber { num: 4, denom: 5 };

    let expected = RationalNumber { num: 8, denom: -15 };
    let actual = a.mul(&b);

    assert_eq!(actual, expected);
}

#[test]
fn test_div_01() {
    let a = RationalNumber { num: 1, denom: 2 };
    let b = RationalNumber { num: 1, denom: 2 };

    let expected = RationalNumber { num: 1, denom: 4 };
    let actual = a.mul(&b);

    assert_eq!(actual, expected);
}

#[test]
fn test_powi_01() {
    let a = RationalNumber { num: 2, denom: -3 };

    let expected = RationalNumber { num: 4, denom: 9 };
    let actual = a.powi(2);

    assert_eq!(actual, expected);
}

#[test]
fn test_powi_02() {
    let a = RationalNumber { num: 2, denom: 4 };

    let expected = RationalNumber { num: 1, denom: 4 };
    let actual = a.powi(2);

    assert_eq!(actual, expected);
}

#[test]
fn test_eq_01() {
    let a = RationalNumber { num: 2, denom: 4 };
    let b = RationalNumber { num: 3, denom: 6 };

    let expected = true;
    let actual = a.equals(&b);

    assert_eq!(actual, expected);
}

#[test]
fn test_eq_02() {
    let a = RationalNumber { num: 3, denom: 4 };
    let b = RationalNumber { num: 3, denom: 6 };

    let expected = false;
    let actual = a.equals(&b);

    assert_eq!(actual, expected);
}

#[test]
fn test_ord_01() {
    let a = RationalNumber { num: 1, denom: 2 };
    let b = RationalNumber { num: 1, denom: 3 };

    let expected = true;
    let actual = a.compare(&b) == Ordering::Greater;

    assert_eq!(actual, expected);
}

#[test]
fn test_ord_02() {
    let a = RationalNumber { num: 1, denom: 3 };
    let b = RationalNumber { num: 2, denom: 6 };

    let expected = true;
    let actual = a.equals(&b);

    assert_eq!(actual, expected);
}

#[test]
fn test_ord_03() {
    let a = RationalNumber { num: -1, denom: 3 };
    let b = RationalNumber { num: 2, denom: 6 };

    let expected = true;
    let ord = a.compare(&b);
    let actual = ord == Ordering::Greater || ord == Ordering::Equal;

    assert_eq!(actual, expected);
}

#[test]
fn test_ord_04() {
    let a = RationalNumber { num: -1, denom: 3 };
    let b = RationalNumber { num: 1, denom: 6 };

    let expected = false;
    let actual = a.equals(&b);

    assert_eq!(actual, expected);
}

#[test]
fn test_ord_05() {
    let a = RationalNumber { num: 1, denom: 1 };
    let b = RationalNumber {
        num: 1_000_000,
        denom: 1_000_001,
    };

    let expected = false;
    let actual = a.equals(&b);

    assert_eq!(actual, expected);

    let expected = false;
    let actual = a.compare(&b) == Ordering::Less;

    assert_eq!(actual, expected);

    let expected = false;
    let ord = a.compare(&b);
    let actual = ord == Ordering::Less || ord == Ordering::Equal;

    assert_eq!(actual, expected);
}

#[test]
fn test_gcd_negative_pairs() {
    assert_eq!(gcd(-18, 9), 9);
    assert_eq!(gcd(8, -15), 1);
    assert_eq!(gcd(0, 7), 7);
    assert_eq!(gcd(7, 0), 7);
}

#[test]
fn test_sub_and_div() {
    let a = RationalNumber { num: 2, denom: 3 };
    let b = RationalNumber { num: 4, denom: 5 };

    let difference = a.sub(&b);
    assert_eq!(difference, RationalNumber { num: -2, denom: 15 });

    let quotient = a.div(&b);
    assert_eq!(quotient, RationalNumber { num: 5, denom: 6 });
}

#[test]
fn test_powi_zero_exponent() {
    let a = RationalNumber { num: 5, denom: -7 };

    let actual = a.powi(0);

    assert_eq!(actual, RationalNumber { num: 1, denom: 1 });
}
