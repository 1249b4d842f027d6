use stormcastrs::decimal::{round, Decimal, LIMIT, SCALE};
use stormcastrs::whole::parse_unsigned;

fn units(text: &str) -> Option<i64> {
    Decimal::parse(text).map(|d| d.units())
}

fn rounded(text: &str, decimals: u8) -> i64 {
    round(Decimal::parse(text).expect("a decimal"), decimals).units()
}

#[test]
fn parse_reads_plain_decimals() {
    assert_eq!(units("72.5"), Some(725_000));
    assert_eq!(units("0"), Some(0));
    assert_eq!(units("45"), Some(450_000));
    assert_eq!(units("0.0001"), Some(1));
    assert_eq!(units("29.92"), Some(299_200));
    assert_eq!(units("007.50"), Some(75_000));
}

#[test]
fn parse_takes_signs() {
    assert_eq!(units("-4.5"), Some(-45_000));
    assert_eq!(units("+4.5"), Some(45_000));
    assert_eq!(units("-0"), Some(0));
    assert_eq!(units("-0.00001"), Some(0));
}

#[test]
fn parse_takes_a_point_at_either_end() {
    assert_eq!(units(".5"), Some(5_000));
    assert_eq!(units("5."), Some(50_000));
    assert_eq!(units("-.25"), Some(-2_500));
}

#[test]
fn parse_cuts_beyond_the_fourth_fraction_digit() {
    assert_eq!(units("0.123456"), Some(1_234));
    assert_eq!(units("0.99999"), Some(9_999));
    assert_eq!(units("-1.00009"), Some(-10_000));
    assert_eq!(units("72.50000000000000000000000000000000001"), Some(725_000));
}

#[test]
fn parse_refuses_what_is_no_decimal() {
    assert_eq!(units(""), None);
    assert_eq!(units("."), None);
    assert_eq!(units("+"), None);
    assert_eq!(units("-"), None);
    assert_eq!(units("-."), None);
    assert_eq!(units("notanumber"), None);
    assert_eq!(units("1.2.3"), None);
    assert_eq!(units("1,5"), None);
    assert_eq!(units(" 1"), None);
    assert_eq!(units("1 "), None);
    assert_eq!(units("--1"), None);
    assert_eq!(units("1-"), None);
    assert_eq!(units("0.12x"), None);
    assert_eq!(units("0.12345x"), None);
    assert_eq!(units("١٢"), None);
}

#[test]
fn parse_reads_exponents() {
    assert_eq!(units("1e3"), Some(10_000_000));
    assert_eq!(units("1E3"), Some(10_000_000));
    assert_eq!(units("1e+3"), Some(10_000_000));
    assert_eq!(units("1E-3"), Some(10));
    assert_eq!(units("1.5e2"), Some(1_500_000));
    assert_eq!(units("72.456e0"), Some(724_560));
    assert_eq!(units("72.456e-0"), Some(724_560));
    assert_eq!(units("12345e-2"), Some(1_234_500));
    assert_eq!(units("12345e-5"), Some(1_234));
    assert_eq!(units("12345e-9"), Some(0));
    assert_eq!(units("0.00012e4"), Some(12_000));
    assert_eq!(units("0.00012345e2"), Some(123));
    assert_eq!(units("5.e1"), Some(500_000));
    assert_eq!(units(".5e1"), Some(50_000));
    assert_eq!(units("-2.5E+1"), Some(-250_000));
    assert_eq!(units("7.25e01"), Some(725_000));
    assert_eq!(units("1e-4"), Some(1));
    assert_eq!(units("1e-5"), Some(0));
    assert_eq!(units("9e-18"), Some(0));
    assert_eq!(units("0e18"), Some(0));
    assert_eq!(units("0.0e18"), Some(0));
}

#[test]
fn parse_holds_exponents_to_their_range() {
    assert_eq!(units("1e14"), Some(LIMIT));
    assert_eq!(units("0.1e15"), Some(LIMIT));
    assert_eq!(units("1e15"), None);
    assert_eq!(units("1e18"), None);
    assert_eq!(units("0.0000000001e18"), Some(1_000_000_000_000));
    assert_eq!(units("1e19"), None);
    assert_eq!(units("1e-19"), Some(0));
    assert_eq!(units("123456789012345678901234567890e-20"), Some(12_345_678_901_234));
    assert_eq!(units("0.000000000000000000000000000001e40"), Some(100_000_000_000_000));
    assert_eq!(units("0e99"), Some(0));
    assert_eq!(units("1e-99"), Some(0));
    assert_eq!(units("1e99"), None);
    assert_eq!(units("0e100"), None);
    assert_eq!(units("1e-100"), None);
    assert_eq!(units("1e999999999999999999999"), None);
}

#[test]
fn parse_refuses_broken_exponents_and_non_finite_spellings() {
    assert_eq!(units("1e"), None);
    assert_eq!(units("1e+"), None);
    assert_eq!(units("1e-"), None);
    assert_eq!(units("e5"), None);
    assert_eq!(units(".e5"), None);
    assert_eq!(units("-e5"), None);
    assert_eq!(units("1e5.0"), None);
    assert_eq!(units("1e5e5"), None);
    assert_eq!(units("1e 5"), None);
    assert_eq!(units("1x5"), None);
    assert_eq!(units("1.2.3e1"), None);
    assert_eq!(units("inf"), None);
    assert_eq!(units("-infinity"), None);
    assert_eq!(units("NaN"), None);
}

#[test]
fn round_goes_by_the_digits_of_an_exponent_form() {
    assert_eq!(rounded("7.2456e1", 1), 725_000);
    assert_eq!(rounded("1239e-4", 3), 1_240);
    assert_eq!(rounded("145e-3", 2), 1_500);
    assert_eq!(rounded("0.000125e3", 2), 1_300);
}

#[test]
fn parse_stops_at_the_limit() {
    assert_eq!(LIMIT, 1_000_000_000_000_000_000);
    assert_eq!(SCALE, 10_000);
    assert_eq!(units("100000000000000"), Some(LIMIT));
    assert_eq!(units("-100000000000000"), Some(-LIMIT));
    assert_eq!(units("100000000000000.0000"), Some(LIMIT));
    assert_eq!(units("100000000000000.00009"), Some(LIMIT));
    assert_eq!(units("100000000000000.0001"), None);
    assert_eq!(units("100000000000001"), None);
    assert_eq!(units("99999999999999.9999"), Some(LIMIT - 1));
    assert_eq!(units("99999999999999999999999999999999999999"), None);
    assert_eq!(units("999999999999999999999999999999999999x9"), None);
}

#[test]
fn from_units_keeps_within_the_limit() {
    assert_eq!(Decimal::from_units(725_000).map(|d| d.units()), Some(725_000));
    assert_eq!(Decimal::from_units(LIMIT).map(|d| d.units()), Some(LIMIT));
    assert_eq!(Decimal::from_units(-LIMIT).map(|d| d.units()), Some(-LIMIT));
    assert_eq!(Decimal::from_units(LIMIT + 1), None);
    assert_eq!(Decimal::from_units(-LIMIT - 1), None);
    assert_eq!(Decimal::from_units(i64::MIN), None);
    assert_eq!(Decimal::zero().units(), 0);
    assert_eq!(Decimal::from_whole(65535).units(), 655_350_000);
}

#[test]
fn round_goes_to_the_nearest() {
    assert_eq!(rounded("72.456", 1), 725_000);
    assert_eq!(rounded("72.444", 1), 724_000);
    assert_eq!(rounded("0.123456", 3), 1_230);
    assert_eq!(rounded("0.1239", 3), 1_240);
    assert_eq!(rounded("456.78", 2), 4_567_800);
    assert_eq!(rounded("12.345", 0), 120_000);
    assert_eq!(rounded("12.5", 0), 130_000);
}

#[test]
fn round_takes_halves_away_from_zero() {
    assert_eq!(rounded("0.125", 2), 1_300);
    assert_eq!(rounded("0.135", 2), 1_400);
    assert_eq!(rounded("0.145", 2), 1_500);
    assert_eq!(rounded("-0.125", 2), -1_300);
    assert_eq!(rounded("2.5", 0), 30_000);
    assert_eq!(rounded("-2.5", 0), -30_000);
    assert_eq!(rounded("0.5", 0), 10_000);
    assert_eq!(rounded("0.4999", 0), 0);
    assert_eq!(rounded("-0.4999", 0), 0);
    assert_eq!(rounded("0.0005", 3), 10);
    assert_eq!(rounded("0.00049", 3), 0);
}

#[test]
fn round_is_symmetric_and_idempotent() {
    for text in ["0.05", "1.2345", "72.456", "99.9999", "0.0001", "12345.6789"] {
        for decimals in 0..=6u8 {
            let value = Decimal::parse(text).unwrap();
            let negative = Decimal::from_units(-value.units()).unwrap();
            let once = round(value, decimals);
            assert_eq!(round(negative, decimals).units(), -once.units());
            assert_eq!(round(once, decimals), once);
            let step = [10_000, 1_000, 100, 10, 1, 1, 1][decimals as usize];
            assert_eq!(once.units() % step, 0);
            assert!((once.units() - value.units()).abs() * 2 <= step);
        }
    }
}

#[test]
fn round_from_four_places_on_changes_nothing() {
    assert_eq!(rounded("0.1239", 4), 1_239);
    assert_eq!(rounded("0.1239", 5), 1_239);
    assert_eq!(rounded("-7.0001", 255), -70_001);
}

#[test]
fn round_leaves_whole_numbers() {
    for decimals in 0..=4u8 {
        assert_eq!(round(Decimal::from_whole(45), decimals).units(), 450_000);
        assert_eq!(round(Decimal::from_whole(0), decimals).units(), 0);
    }
}

#[test]
fn round_stays_within_the_limit() {
    assert_eq!(rounded("99999999999999.9999", 0), LIMIT);
    assert_eq!(rounded("-99999999999999.9999", 3), -LIMIT);
    assert_eq!(rounded("100000000000000", 0), LIMIT);
}

#[test]
fn parse_unsigned_reads_whole_numbers() {
    assert_eq!(parse_unsigned("45", 255), Some(45));
    assert_eq!(parse_unsigned("0", 255), Some(0));
    assert_eq!(parse_unsigned("+45", 255), Some(45));
    assert_eq!(parse_unsigned("007", 255), Some(7));
    assert_eq!(parse_unsigned("255", 255), Some(255));
    assert_eq!(parse_unsigned("359", 65535), Some(359));
    assert_eq!(parse_unsigned("65535", 65535), Some(65535));
    assert_eq!(parse_unsigned("0000000000000000000000065535", 65535), Some(65535));
}

#[test]
fn parse_unsigned_refuses_the_rest() {
    assert_eq!(parse_unsigned("256", 255), None);
    assert_eq!(parse_unsigned("65536", 65535), None);
    assert_eq!(parse_unsigned("99999999999999999999", 65535), None);
    assert_eq!(parse_unsigned("", 255), None);
    assert_eq!(parse_unsigned("+", 255), None);
    assert_eq!(parse_unsigned("-1", 255), None);
    assert_eq!(parse_unsigned("-0", 255), None);
    assert_eq!(parse_unsigned("4.5", 255), None);
    assert_eq!(parse_unsigned("45 ", 255), None);
    assert_eq!(parse_unsigned("++4", 255), None);
    assert_eq!(parse_unsigned("300x", 255), None);
    assert_eq!(parse_unsigned("1", 0), None);
    assert_eq!(parse_unsigned("0", 0), Some(0));
}
