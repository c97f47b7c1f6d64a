//! Exact rational arithmetic behaviour.

use brontes::Rat;

fn rat(num: i64, den: u64) -> Rat {
    Rat { num, den }
}

#[test]
fn addition_is_exact() {
    // 1/2 + 1/3 = 5/6
    let r = rat(1, 2).checked_add(&rat(1, 3)).unwrap();
    assert!(r.eq_value(&rat(5, 6)));
}

#[test]
fn subtraction_is_exact() {
    // 21/2 - 10 = 1/2
    let r = rat(21, 2).checked_sub(&rat(10, 1)).unwrap();
    assert!(r.eq_value(&rat(1, 2)));
}

#[test]
fn multiplication_is_exact() {
    // 2/3 * 9/4 = 3/2
    let r = rat(2, 3).checked_mul(&rat(9, 4)).unwrap();
    assert!(r.eq_value(&rat(3, 2)));
}

#[test]
fn long_chain_does_not_drift() {
    // (1/3 + 1/3 + 1/3) equals exactly one
    let third = rat(1, 3);
    let r = third
        .checked_add(&third)
        .unwrap()
        .checked_add(&third)
        .unwrap();
    assert!(r.eq_value(&rat(1, 1)));
}

#[test]
fn overflow_is_reported_never_rounded() {
    let big = rat(i64::MAX, 1);
    assert_eq!(big.checked_add(&big), None);
    assert_eq!(big.checked_mul(&rat(2, 1)), None);
}

#[test]
fn comparisons_are_value_comparisons() {
    assert!(rat(1, 2).eq_value(&rat(2, 4)));
    assert!(rat(1, 3).lt(&rat(1, 2)));
    assert!(rat(-1, 2).lt(&rat(0, 1)));
    assert!(rat(1, 2).le(&rat(2, 4)));
    assert!(!rat(1, 2).lt(&rat(2, 4)));
}

#[test]
fn constructors_validate_denominator() {
    assert!(Rat::new(1, 0).is_none());
    assert!(Rat::new(1, u64::MAX).is_none());
    assert!(Rat::new(7, 2).is_some());
    let z = Rat::zero();
    assert_eq!(z, rat(0, 1));
    assert_eq!(Rat::from_int(-3), rat(-3, 1));
}

#[test]
fn sign_checks() {
    assert!(rat(3, 7).is_pos());
    assert!(rat(-3, 7).is_neg());
    assert!(!rat(0, 7).is_pos());
    assert!(!rat(0, 7).is_neg());
}
