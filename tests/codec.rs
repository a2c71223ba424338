use swap_core::uint::Uint256;
use swap_core::units::{format_amount, parse_amount, ParseError};

fn small(x: u64) -> Uint256 {
    Uint256 { limbs: [x, 0, 0, 0] }
}

#[test]
fn parse_whole_number_scales_by_decimals() {
    let v = parse_amount("100", 6).unwrap();
    assert_eq!(v.limbs, [100_000_000, 0, 0, 0]);
}

#[test]
fn parse_fraction_scales_by_decimals() {
    let v = parse_amount("1.5", 6).unwrap();
    assert_eq!(v.limbs, [1_500_000, 0, 0, 0]);
    let w = parse_amount(".25", 2).unwrap();
    assert_eq!(w.limbs, [25, 0, 0, 0]);
    let t = parse_amount("7.", 3).unwrap();
    assert_eq!(t.limbs, [7_000, 0, 0, 0]);
}

#[test]
fn parse_large_value_uses_upper_limbs() {
    // 2^64 at zero decimals
    let v = parse_amount("18446744073709551616", 0).unwrap();
    assert_eq!(v.limbs, [0, 1, 0, 0]);
}

#[test]
fn parse_rejects_empty_text() {
    assert_eq!(parse_amount("", 6).unwrap_err(), ParseError::Malformed);
}

#[test]
fn parse_rejects_malformed_text() {
    assert_eq!(parse_amount("abc", 6).unwrap_err(), ParseError::Malformed);
    assert_eq!(parse_amount("1.2.3", 6).unwrap_err(), ParseError::Malformed);
    assert_eq!(parse_amount(".", 6).unwrap_err(), ParseError::Malformed);
    assert_eq!(parse_amount("-1", 6).unwrap_err(), ParseError::Malformed);
    assert_eq!(parse_amount("1_000", 6).unwrap_err(), ParseError::Malformed);
}

#[test]
fn parse_rejects_overlong_fraction() {
    assert_eq!(parse_amount("1.1234567", 6).unwrap_err(), ParseError::TooManyFractionDigits);
    assert_eq!(parse_amount("1.5", 0).unwrap_err(), ParseError::TooManyFractionDigits);
}

#[test]
fn parse_rejects_unsupported_decimals() {
    assert_eq!(parse_amount("1", 78).unwrap_err(), ParseError::UnsupportedDecimals);
}

#[test]
fn parse_rejects_overflow() {
    assert!(parse_amount("1", 77).is_ok());
    assert_eq!(parse_amount("2", 77).unwrap_err(), ParseError::Overflow);
    let huge = format!("1{}", "0".repeat(78));
    assert_eq!(parse_amount(&huge, 0).unwrap_err(), ParseError::Overflow);
}

#[test]
fn format_drops_trailing_fraction_zeros() {
    assert_eq!(format_amount(small(100_000_000), 6).unwrap(), "100");
    assert_eq!(format_amount(small(1_500_000), 6).unwrap(), "1.5");
    assert_eq!(format_amount(small(500_000_000_000_000), 18).unwrap(), "0.0005");
}

#[test]
fn format_zero_and_zero_decimals() {
    assert_eq!(format_amount(small(0), 6).unwrap(), "0");
    assert_eq!(format_amount(small(5), 0).unwrap(), "5");
    assert_eq!(format_amount(small(120), 0).unwrap(), "120");
}

#[test]
fn format_rejects_unsupported_decimals() {
    assert_eq!(format_amount(small(5), 78), None);
}

#[test]
fn format_then_parse_round_trip_normalizes() {
    for (text, d, expect) in [
        ("0.50", 6, "0.5"),
        ("007", 2, "7"),
        (".5", 1, "0.5"),
        ("100", 6, "100"),
        ("12.345", 3, "12.345"),
        ("0", 18, "0"),
    ] {
        let v = parse_amount(text, d).unwrap();
        assert_eq!(format_amount(v, d).unwrap(), expect);
    }
}
