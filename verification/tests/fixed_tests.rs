//! Tests for the fixed-precision decimal representation, including a
//! cross-check of its values against the rust_decimal crate.

use bnbmarket_lmsr::fixed::UNIT;
use bnbmarket_lmsr::Decimal;

#[test]
fn construction_scales_as_documented() {
    assert_eq!(Decimal::new(10, 0).mantissa(), 10 * UNIT);
    assert_eq!(Decimal::new(15, 1).mantissa(), 15 * UNIT / 10);
    assert_eq!(Decimal::new(5, 2).mantissa(), 5 * UNIT / 100);
    assert_eq!(Decimal::new(-3, 0).mantissa(), -3 * UNIT);
    assert_eq!(Decimal::new(123_456_789_012, 12).mantissa(), 123_456_789_012);
    assert_eq!(Decimal::zero().mantissa(), 0);
    assert_eq!(Decimal::one().mantissa(), UNIT);
    assert!(Decimal::one().is_positive());
    assert!(!Decimal::zero().is_positive());
    assert_eq!(Decimal::from_int(7).mantissa(), 7 * UNIT);
}

#[test]
fn representation_matches_rust_decimal() {
    // The library's raw form is the value scaled to twelve fractional
    // digits, the same value rust_decimal reports at that scale.
    let ours = Decimal::new(15, 1);
    let mut theirs = rust_decimal::Decimal::new(15, 1);
    theirs.rescale(12);
    assert_eq!(ours.mantissa(), theirs.mantissa());
}
