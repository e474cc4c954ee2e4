use tardis_csv::decimal::{is_zero_decimal, parse_scaled_i64};
use tardis_csv::digits::pow10_u64;
use tardis_csv::model::{Price, Quantity};

fn b(s: &str) -> Vec<u8> {
    s.as_bytes().to_vec()
}

#[test]
fn parses_plain_integers() {
    assert_eq!(parse_scaled_i64(&b("0"), 0), Some(0));
    assert_eq!(parse_scaled_i64(&b("42"), 0), Some(42));
    assert_eq!(parse_scaled_i64(&b("42"), 2), Some(4200));
    assert_eq!(parse_scaled_i64(&b("-42"), 1), Some(-420));
    assert_eq!(parse_scaled_i64(&b("007"), 0), Some(7));
}

#[test]
fn parses_fractions_exactly() {
    assert_eq!(parse_scaled_i64(&b("4275.25"), 2), Some(427525));
    assert_eq!(parse_scaled_i64(&b("4275.25"), 4), Some(42752500));
    assert_eq!(parse_scaled_i64(&b("0.0001"), 2), Some(0));
    assert_eq!(parse_scaled_i64(&b("-1.5"), 1), Some(-15));
    assert_eq!(parse_scaled_i64(&b("12."), 0), Some(12));
}

#[test]
fn rounds_half_to_even() {
    // An exact half rounds to the even neighbour.
    assert_eq!(parse_scaled_i64(&b("1.5"), 0), Some(2));
    assert_eq!(parse_scaled_i64(&b("2.5"), 0), Some(2));
    assert_eq!(parse_scaled_i64(&b("1.25"), 1), Some(12));
    assert_eq!(parse_scaled_i64(&b("1.35"), 1), Some(14));
    assert_eq!(parse_scaled_i64(&b("4275.25"), 1), Some(42752));
    // A nonzero digit after the half tips it up.
    assert_eq!(parse_scaled_i64(&b("1.2501"), 1), Some(13));
    // Below the half rounds down, above rounds up.
    assert_eq!(parse_scaled_i64(&b("1.24"), 1), Some(12));
    assert_eq!(parse_scaled_i64(&b("1.26"), 1), Some(13));
    // The sign does not change the magnitude rounding.
    assert_eq!(parse_scaled_i64(&b("-1.5"), 0), Some(-2));
    assert_eq!(parse_scaled_i64(&b("-2.5"), 0), Some(-2));
}

#[test]
fn rerounding_at_same_precision_is_stable() {
    // Rounding "4275.246" at two digits gives 4275.25; parsing the rendering
    // of that value at the same precision gives the value back unchanged.
    assert_eq!(parse_scaled_i64(&b("4275.246"), 2), Some(427525));
    assert_eq!(parse_scaled_i64(&b("4275.25"), 2), Some(427525));
    assert_eq!(parse_scaled_i64(&b("-0.1"), 1), Some(-1));
    assert_eq!(parse_scaled_i64(&b("-0.1"), 9), Some(-100000000));
}

#[test]
fn rejects_what_is_no_decimal() {
    assert_eq!(parse_scaled_i64(&b(""), 2), None);
    assert_eq!(parse_scaled_i64(&b("abc"), 2), None);
    assert_eq!(parse_scaled_i64(&b("1.2.3"), 2), None);
    assert_eq!(parse_scaled_i64(&b(".5"), 2), None);
    assert_eq!(parse_scaled_i64(&b("-"), 2), None);
    assert_eq!(parse_scaled_i64(&b("--1"), 2), None);
    assert_eq!(parse_scaled_i64(&b("1e5"), 2), None);
    assert_eq!(parse_scaled_i64(&b("1 "), 2), None);
    assert_eq!(parse_scaled_i64(&b("+1"), 2), None);
}

#[test]
fn respects_the_i64_range() {
    assert_eq!(parse_scaled_i64(&b("9223372036854775807"), 0), Some(i64::MAX));
    assert_eq!(parse_scaled_i64(&b("9223372036854775808"), 0), None);
    assert_eq!(parse_scaled_i64(&b("-9223372036854775808"), 0), Some(i64::MIN));
    assert_eq!(parse_scaled_i64(&b("-9223372036854775809"), 0), None);
    assert_eq!(parse_scaled_i64(&b("-9223372036854775.808"), 3), Some(i64::MIN));
    assert_eq!(parse_scaled_i64(&b("99999999999999999999999999"), 0), None);
    assert_eq!(parse_scaled_i64(&b("9223372036854775807"), 1), None);
}

#[test]
fn price_and_quantity_constructors() {
    assert_eq!(Price::from_bytes(&b("1.5"), 1), Some(Price { raw: 15, precision: 1 }));
    assert_eq!(Price::from_bytes(&b("-1.5"), 1), Some(Price { raw: -15, precision: 1 }));
    assert_eq!(Price::from_bytes(&b("x"), 1), None);
    assert_eq!(Price::zero(3), Price { raw: 0, precision: 3 });
    assert_eq!(
        Quantity::from_bytes(&b("2.25"), 2),
        Ok(Quantity { raw: 225, precision: 2 })
    );
    assert!(Quantity::from_bytes(&b("-2.25"), 2).is_err());
    assert!(Quantity::from_bytes(&b("nan"), 2).is_err());
    assert_eq!(Quantity::from_bytes(&b("-0.0"), 2), Ok(Quantity { raw: 0, precision: 2 }));
}

#[test]
fn powers_of_ten() {
    assert_eq!(pow10_u64(0), 1);
    assert_eq!(pow10_u64(1), 10);
    assert_eq!(pow10_u64(9), 1_000_000_000);
}

#[test]
fn zero_literals() {
    for zero in ["0", "00", "0.", "0.0", "0.000", "-0", "-0.00"] {
        assert!(is_zero_decimal(&b(zero)), "{zero}");
    }
    for other in ["", "x", ".0", "0.0.0", "0.4", "0.001", "10", "-1", "0a", "0.0a", "1e0"] {
        assert!(!is_zero_decimal(&b(other)), "{other}");
    }
}
