use payments_engine::domain::money::Money;

#[test]
fn bankers_round_half_even() {
    let v = Money::from_scaled_i128(1_23445, 5).unwrap(); // 1.23445 -> 1.2344
    assert_eq!(v.format(), "1.2344");
    let v = Money::from_scaled_i128(1_23455, 5).unwrap(); // 1.23455 -> 1.2346
    assert_eq!(v.format(), "1.2346");
    let v = Money::from_scaled_i128(-1_23445, 5).unwrap();
    assert_eq!(v.format(), "-1.2344");
    let v = Money::from_scaled_i128(-1_23455, 5).unwrap();
    assert_eq!(v.format(), "-1.2346");
}

#[test]
fn zero_and_minor_units() {
    assert_eq!(Money::zero(), Money(0));
    assert_eq!(Money::zero().as_minor(), 0);
    assert_eq!(Money(15_000).as_minor(), 15_000);
    assert_eq!(Money::SCALE, 10_000);
    assert_eq!(Money::TARGET_DECIMALS, 4);
}

#[test]
fn from_scaled_multiplies_up_to_four_places() {
    assert_eq!(Money::from_scaled_i128(100, 0), Some(Money(1_000_000)));
    assert_eq!(Money::from_scaled_i128(15, 1), Some(Money(15_000)));
    assert_eq!(Money::from_scaled_i128(-305, 2), Some(Money(-30_500)));
    assert_eq!(Money::from_scaled_i128(1_234, 3), Some(Money(12_340)));
    assert_eq!(Money::from_scaled_i128(12_345, 4), Some(Money(12_345)));
    assert_eq!(Money::from_scaled_i128(0, 2), Some(Money(0)));
}

#[test]
fn from_scaled_rounds_beyond_four_places() {
    // below half, above half
    assert_eq!(Money::from_scaled_i128(123_444, 5), Some(Money(12_344)));
    assert_eq!(Money::from_scaled_i128(123_446, 5), Some(Money(12_345)));
    assert_eq!(Money::from_scaled_i128(-123_444, 5), Some(Money(-12_344)));
    assert_eq!(Money::from_scaled_i128(-123_446, 5), Some(Money(-12_345)));
    // ties go to the even neighbour
    assert_eq!(Money::from_scaled_i128(5, 5), Some(Money(0)));
    assert_eq!(Money::from_scaled_i128(15, 5), Some(Money(2)));
    assert_eq!(Money::from_scaled_i128(-5, 5), Some(Money(0)));
    assert_eq!(Money::from_scaled_i128(-15, 5), Some(Money(-2)));
    // a tie needs every later digit to be zero
    assert_eq!(Money::from_scaled_i128(1_234_450, 6), Some(Money(12_344)));
    assert_eq!(Money::from_scaled_i128(1_234_451, 6), Some(Money(12_345)));
    assert_eq!(Money::from_scaled_i128(1_234_549, 6), Some(Money(12_345)));
    assert_eq!(Money::from_scaled_i128(1_234_550, 6), Some(Money(12_346)));
}

#[test]
fn from_scaled_detects_overflow() {
    let max = i64::MAX as i128;
    let min = i64::MIN as i128;
    assert_eq!(Money::from_scaled_i128(max, 4), Some(Money(i64::MAX)));
    assert_eq!(Money::from_scaled_i128(min, 4), Some(Money(i64::MIN)));
    assert_eq!(Money::from_scaled_i128(max + 1, 4), None);
    assert_eq!(Money::from_scaled_i128(min - 1, 4), None);
    assert_eq!(Money::from_scaled_i128(922_337_203_685_478, 0), None);
    assert_eq!(Money::from_scaled_i128(922_337_203_685_477, 0), Some(Money(9_223_372_036_854_770_000)));
    assert_eq!(Money::from_scaled_i128(i128::MAX, 0), None);
    assert_eq!(Money::from_scaled_i128(i128::MIN, 3), None);
    // rounding up past the largest amount
    assert_eq!(Money::from_scaled_i128(max * 10 + 5, 5), None);
    assert_eq!(Money::from_scaled_i128(max * 10 + 4, 5), Some(Money(i64::MAX)));
    // rounding down to the smallest amount: a tie next to an even number
    assert_eq!(Money::from_scaled_i128(min * 10 - 5, 5), Some(Money(i64::MIN)));
    assert_eq!(Money::from_scaled_i128(min * 10 - 6, 5), None);
}

#[test]
fn from_scaled_with_huge_scale() {
    assert_eq!(Money::from_scaled_i128(i128::MAX, 42), Some(Money(2)));
    assert_eq!(Money::from_scaled_i128(i128::MIN, 42), Some(Money(-2)));
    assert_eq!(Money::from_scaled_i128(i128::MAX, 43), Some(Money(0)));
    assert_eq!(Money::from_scaled_i128(i128::MIN, 43), Some(Money(0)));
    assert_eq!(Money::from_scaled_i128(i128::MAX, u32::MAX), Some(Money(0)));
    assert_eq!(Money::from_scaled_i128(1, 4_000), Some(Money(0)));
    // 10^38 fits in 128 bits; i128::MAX is about 1.7 * 10^38
    assert_eq!(Money::from_scaled_i128(i128::MAX, 38), Some(Money(17_014)));
    assert_eq!(Money::from_scaled_i128(i128::MIN, 38), Some(Money(-17_014)));
    assert_eq!(Money::from_scaled_i128(i128::MAX, 41), Some(Money(17)));
    assert_eq!(Money::from_scaled_i128(5 * 10i128.pow(37), 42), Some(Money(0)));
    assert_eq!(Money::from_scaled_i128(15 * 10i128.pow(37), 42), Some(Money(2)));
}

#[test]
fn parse_plain_amounts() {
    assert_eq!(Money::from_decimal_str("0"), Some(Money(0)));
    assert_eq!(Money::from_decimal_str("1"), Some(Money(10_000)));
    assert_eq!(Money::from_decimal_str("1.5"), Some(Money(15_000)));
    assert_eq!(Money::from_decimal_str("100.0003"), Some(Money(1_000_003)));
    assert_eq!(Money::from_decimal_str("-2.25"), Some(Money(-22_500)));
    assert_eq!(Money::from_decimal_str("0.0001"), Some(Money(1)));
    assert_eq!(Money::from_decimal_str("-0.0001"), Some(Money(-1)));
    assert_eq!(Money::from_decimal_str("-0"), Some(Money(0)));
    assert_eq!(Money::from_decimal_str("5."), Some(Money(50_000)));
    assert_eq!(Money::from_decimal_str("0007.1"), Some(Money(71_000)));
}

#[test]
fn parse_rejects_whitespace() {
    for text in [
        " 1", "1 ", "  1.5", "1.5 \t\n", "\t1", "1\n", "\u{a0}-1.5\u{3000}", "\u{a0}1", "1\u{3000}",
        "1 .5", "1. 5", "- 1.5", " -1.5", "-1.5 ", "1 5", " ",
    ] {
        assert_eq!(Money::from_decimal_str(text), None, "{:?}", text);
    }
    // the same amounts without the whitespace
    assert_eq!(Money::from_decimal_str("1"), Some(Money(10_000)));
    assert_eq!(Money::from_decimal_str("1.5"), Some(Money(15_000)));
    assert_eq!(Money::from_decimal_str("-1.5"), Some(Money(-15_000)));
}

#[test]
fn parse_rejects_malformed_text() {
    for text in [
        "", " ", "-", ".", "-.", ".5", "-.5", "1.2.3", "1..2", "abc", "1a", "a1", "1.2x", "+5",
        "--5", "1.-5", "1.+5", "1e3", "1,5", "0x10", "١٢",
    ] {
        assert_eq!(Money::from_decimal_str(text), None, "{:?}", text);
    }
}

#[test]
fn parse_rounds_half_to_even() {
    assert_eq!(Money::from_decimal_str("1.23445"), Some(Money(12_344)));
    assert_eq!(Money::from_decimal_str("1.23455"), Some(Money(12_346)));
    assert_eq!(Money::from_decimal_str("-1.23445"), Some(Money(-12_344)));
    assert_eq!(Money::from_decimal_str("-1.23455"), Some(Money(-12_346)));
    assert_eq!(Money::from_decimal_str("1.23444"), Some(Money(12_344)));
    assert_eq!(Money::from_decimal_str("1.23446"), Some(Money(12_345)));
    assert_eq!(Money::from_decimal_str("0.00005"), Some(Money(0)));
    assert_eq!(Money::from_decimal_str("0.00015"), Some(Money(2)));
    assert_eq!(Money::from_decimal_str("0.000050"), Some(Money(0)));
    assert_eq!(Money::from_decimal_str("0.000051"), Some(Money(1)));
    assert_eq!(Money::from_decimal_str("0.99995"), Some(Money(10_000)));
    assert_eq!(Money::from_decimal_str("0.99985"), Some(Money(9_998)));
}

#[test]
fn parse_takes_fractions_of_any_length() {
    let zeros = "0".repeat(200);
    assert_eq!(Money::from_decimal_str(&format!("1.{}", zeros)), Some(Money(10_000)));
    assert_eq!(Money::from_decimal_str(&format!("1.00005{}", zeros)), Some(Money(10_000)));
    assert_eq!(Money::from_decimal_str(&format!("1.00005{}1", zeros)), Some(Money(10_001)));
    assert_eq!(Money::from_decimal_str(&format!("1.00015{}", zeros)), Some(Money(10_002)));
    assert_eq!(Money::from_decimal_str(&format!("-1.00005{}1", zeros)), Some(Money(-10_001)));
    assert_eq!(Money::from_decimal_str(&format!("{}1.5", zeros)), Some(Money(15_000)));
    assert_eq!(Money::from_decimal_str(&format!("1.0000{}x", zeros)), None);
}

#[test]
fn parse_detects_overflow() {
    assert_eq!(Money::from_decimal_str("922337203685477.5807"), Some(Money(i64::MAX)));
    assert_eq!(Money::from_decimal_str("922337203685477.5808"), None);
    assert_eq!(Money::from_decimal_str("922337203685477.58074"), Some(Money(i64::MAX)));
    assert_eq!(Money::from_decimal_str("922337203685477.58075"), None);
    assert_eq!(Money::from_decimal_str("-922337203685477.5808"), Some(Money(i64::MIN)));
    assert_eq!(Money::from_decimal_str("-922337203685477.58085"), Some(Money(i64::MIN)));
    assert_eq!(Money::from_decimal_str("-922337203685477.58086"), None);
    assert_eq!(Money::from_decimal_str("-922337203685477.5809"), None);
    assert_eq!(Money::from_decimal_str("922337203685478"), None);
    assert_eq!(Money::from_decimal_str("1000000000000000"), None);
    assert_eq!(Money::from_decimal_str(&"9".repeat(100)), None);
    assert_eq!(Money::from_decimal_str(&format!("-{}.5", "9".repeat(100))), None);
}

#[test]
fn format_has_four_decimal_places() {
    assert_eq!(Money(0).format(), "0.0000");
    assert_eq!(Money(1).format(), "0.0001");
    assert_eq!(Money(-1).format(), "-0.0001");
    assert_eq!(Money(15_000).format(), "1.5000");
    assert_eq!(Money(-15_000).format(), "-1.5000");
    assert_eq!(Money(1_000_003).format(), "100.0003");
    assert_eq!(Money(10_000).format(), "1.0000");
    assert_eq!(Money(9_999).format(), "0.9999");
    assert_eq!(Money(100_100).format(), "10.0100");
    assert_eq!(Money(i64::MAX).format(), "922337203685477.5807");
    assert_eq!(Money(i64::MIN).format(), "-922337203685477.5808");
}

#[test]
fn parse_gives_back_what_format_wrote() {
    for minor in [
        0, 1, -1, 9, 10, 99, 100, 9_999, 10_000, 10_001, -9_999, -10_000, 12_344, 12_346, 1_000_003,
        123_456_789_012, -123_456_789_012, i64::MAX, i64::MAX - 1, i64::MIN, i64::MIN + 1,
    ] {
        let amount = Money(minor);
        assert_eq!(Money::from_decimal_str(&amount.format()), Some(amount));
    }
    let mut minor: i64 = -70_000;
    while minor <= 70_000 {
        let amount = Money(minor);
        assert_eq!(Money::from_decimal_str(&amount.format()), Some(amount));
        minor += 7;
    }
}

#[test]
fn checked_arithmetic() {
    assert_eq!(Money(15_000).checked_add(Money(5_003)), Some(Money(20_003)));
    assert_eq!(Money(15_000).checked_sub(Money(20_000)), Some(Money(-5_000)));
    assert_eq!(Money(i64::MAX).checked_add(Money(1)), None);
    assert_eq!(Money(i64::MIN).checked_sub(Money(1)), None);
    assert_eq!(Money(i64::MAX).checked_add(Money(0)), Some(Money(i64::MAX)));
    assert_eq!(Money(0).checked_sub(Money(i64::MIN)), None);
    assert_eq!(Money(-1).checked_sub(Money(i64::MIN)), Some(Money(i64::MAX)));
}

#[test]
fn comparison() {
    assert!(Money(1).less_than(Money(2)));
    assert!(!Money(2).less_than(Money(2)));
    assert!(!Money(3).less_than(Money(2)));
    assert!(Money(-3).less_than(Money(0)));
    assert_eq!(Money(5), Money(5));
    assert_ne!(Money(5), Money(6));
}
