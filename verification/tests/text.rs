use crypto_trading::fixed::{checked_div, checked_mul, floor_div, wide_mul, SCALE};
use crypto_trading::text::{
    amount_to_string, digit_of, digit_str, integer_to_string, natural_to_string, padded_to_string,
    parse_amount, trimmed_to_string,
};

#[test]
fn floor_div_rounds_towards_negative_infinity() {
    assert_eq!(floor_div(7, 2), 3);
    assert_eq!(floor_div(-7, 2), -4);
    assert_eq!(floor_div(-8, 2), -4);
    assert_eq!(floor_div(0, 5), 0);
    assert_eq!(floor_div(-1, 100_000_000), -1);
    assert_eq!(floor_div(i128::MIN, 1), i128::MIN);
}

#[test]
fn product_of_two_amounts_is_rounded_down() {
    assert_eq!(checked_mul(3 * SCALE, 2 * SCALE), Some(6 * SCALE));
    assert_eq!(checked_mul(150_000_000, 150_000_000), Some(225_000_000));
    assert_eq!(checked_mul(1, 1), Some(0));
    assert_eq!(checked_mul(-1, 1), Some(-1));
    assert_eq!(checked_mul(i64::MAX, SCALE), Some(i64::MAX));
    assert_eq!(checked_mul(i64::MAX, SCALE + 1), None);
    assert_eq!(checked_mul(i64::MIN, i64::MIN), None);
    assert_eq!(wide_mul(i64::MIN, i64::MIN), (1i128 << 126) / 100_000_000);
}

#[test]
fn quotient_of_two_amounts_is_rounded_down() {
    assert_eq!(checked_div(10_125 * SCALE, 5 * SCALE), Some(2_025 * SCALE));
    assert_eq!(checked_div(SCALE, 3 * SCALE), Some(33_333_333));
    assert_eq!(checked_div(-SCALE, 3 * SCALE), Some(-33_333_334));
    assert_eq!(checked_div(0, 1), Some(0));
    assert_eq!(checked_div(i64::MAX, 1), None);
    assert_eq!(checked_div(i64::MAX, SCALE), Some(i64::MAX));
}

#[test]
fn integers_are_written_in_decimal() {
    assert_eq!(integer_to_string(0), "0");
    assert_eq!(integer_to_string(7), "7");
    assert_eq!(integer_to_string(10), "10");
    assert_eq!(integer_to_string(1_600_000_000_123), "1600000000123");
    assert_eq!(integer_to_string(-42), "-42");
    assert_eq!(integer_to_string(i64::MAX), "9223372036854775807");
    assert_eq!(integer_to_string(i64::MIN), "-9223372036854775808");
    assert_eq!(natural_to_string(u128::MAX), "340282366920938463463374607431768211455");
    assert_eq!(padded_to_string(42, 8), "00000042");
    assert_eq!(padded_to_string(123_456_789, 4), "6789");
    assert_eq!(padded_to_string(5, 0), "");
    assert_eq!(digit_str(0), "0");
    assert_eq!(digit_str(9), "9");
}

#[test]
fn amounts_are_written_in_the_shortest_decimal() {
    assert_eq!(amount_to_string(0), "0");
    assert_eq!(amount_to_string(1), "0.00000001");
    assert_eq!(amount_to_string(-1), "-0.00000001");
    assert_eq!(amount_to_string(SCALE), "1");
    assert_eq!(amount_to_string(-SCALE), "-1");
    assert_eq!(amount_to_string(200 * SCALE), "200");
    assert_eq!(amount_to_string(SCALE / 2), "0.5");
    assert_eq!(amount_to_string(150_000_000), "1.5");
    assert_eq!(amount_to_string(2_000_050_000_000), "20000.5");
    assert_eq!(amount_to_string(2025 * SCALE + 50_000_000), "2025.5");
    assert_eq!(amount_to_string(100_000_010), "1.0000001");
    assert_eq!(amount_to_string(101_000_000), "1.01");
    assert_eq!(amount_to_string(-12_345_678_901), "-123.45678901");
    assert_eq!(amount_to_string(-12_345_678_900), "-123.456789");
    assert_eq!(amount_to_string(i64::MAX), "92233720368.54775807");
    assert_eq!(amount_to_string(i64::MIN), "-92233720368.54775808");
}

#[test]
fn decimals_lose_the_zeros_at_their_end() {
    assert_eq!(trimmed_to_string(50_000_000, 8), "5");
    assert_eq!(trimmed_to_string(5, 8), "00000005");
    assert_eq!(trimmed_to_string(1_200, 8), "000012");
    assert_eq!(trimmed_to_string(0, 8), "");
    assert_eq!(trimmed_to_string(7, 0), "");
    assert_eq!(trimmed_to_string(120, 2), "2");
}

#[test]
fn decimals_are_read_as_amounts() {
    assert_eq!(parse_amount("0"), Some(0));
    assert_eq!(parse_amount("125"), Some(125 * SCALE));
    assert_eq!(parse_amount("0.00100000"), Some(100_000));
    assert_eq!(parse_amount("46123.45"), Some(4_612_345_000_000));
    assert_eq!(parse_amount("-3.5"), Some(-350_000_000));
    assert_eq!(parse_amount("007.10"), Some(710_000_000));
    assert_eq!(parse_amount("0.00000001"), Some(1));
    assert_eq!(parse_amount("-0.0"), Some(0));
}

#[test]
fn decimals_beyond_the_eighth_are_dropped() {
    assert_eq!(parse_amount("0.000000019"), Some(1));
    assert_eq!(parse_amount("1.123456789123456789"), Some(112_345_678));
    assert_eq!(parse_amount("-0.000000009"), Some(0));
    assert_eq!(parse_amount("0.00000000x"), None);
}

#[test]
fn sign_and_one_sided_points_are_read() {
    assert_eq!(parse_amount("+5"), Some(5 * SCALE));
    assert_eq!(parse_amount(".5"), Some(SCALE / 2));
    assert_eq!(parse_amount("5."), Some(5 * SCALE));
    assert_eq!(parse_amount("+.5"), Some(SCALE / 2));
    assert_eq!(parse_amount("-.5"), Some(-SCALE / 2));
    assert_eq!(parse_amount("-5."), Some(-5 * SCALE));
    assert_eq!(parse_amount("+0"), Some(0));
    assert_eq!(parse_amount(".000000019"), Some(1));
}

#[test]
fn text_that_is_no_decimal_is_refused() {
    assert_eq!(parse_amount(""), None);
    assert_eq!(parse_amount("-"), None);
    assert_eq!(parse_amount("+"), None);
    assert_eq!(parse_amount("."), None);
    assert_eq!(parse_amount("-."), None);
    assert_eq!(parse_amount("+-5"), None);
    assert_eq!(parse_amount("--5"), None);
    assert_eq!(parse_amount("5+"), None);
    assert_eq!(parse_amount("1.2.3"), None);
    assert_eq!(parse_amount("1..2"), None);
    assert_eq!(parse_amount("1e5"), None);
    assert_eq!(parse_amount(" 1"), None);
    assert_eq!(parse_amount("12a"), None);
    assert_eq!(parse_amount("NaN"), None);
    assert_eq!(parse_amount("inf"), None);
    assert_eq!(parse_amount("١٢"), None);
}

#[test]
fn amounts_beyond_the_range_are_refused() {
    assert_eq!(parse_amount("92233720368.54775807"), Some(i64::MAX));
    assert_eq!(parse_amount("92233720368.54775808"), None);
    assert_eq!(parse_amount("-92233720368.54775808"), Some(i64::MIN));
    assert_eq!(parse_amount("-92233720368.54775809"), None);
    assert_eq!(parse_amount("92233720369"), None);
    assert_eq!(parse_amount("99999999999999999999999999999999999999999999999999"), None);
    assert_eq!(parse_amount("00000000000000000000000000000000000000000000000001"), Some(SCALE));
}

#[test]
fn written_amounts_read_back() {
    for raw in [
        0, 1, -1, 10, 99_999_999, 100_000_000, -100_000_001, 50_000_000, -1_500_000_000,
        123_456_789_012, i64::MAX, i64::MIN,
    ] {
        assert_eq!(parse_amount(&amount_to_string(raw)), Some(raw));
    }
}

#[test]
fn digits_are_told_from_other_characters() {
    assert_eq!(digit_of('0'), Some(0));
    assert_eq!(digit_of('9'), Some(9));
    assert_eq!(digit_of('a'), None);
    assert_eq!(digit_of('.'), None);
    assert_eq!(digit_of('٣'), None);
}
