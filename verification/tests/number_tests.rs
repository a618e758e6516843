use stylex_swc_plugin::decimal::{format_number, parse_number};
use stylex_swc_plugin::number::Number;

fn n(units: i64) -> Number {
    Number::from_ten_thousandths(units).unwrap()
}

fn parse(s: &str) -> Option<Number> {
    parse_number(&s.chars().collect())
}

fn format(units: i64) -> String {
    format_number(n(units)).iter().collect()
}

#[test]
fn parse_number_reads_decimal_numerals() {
    assert_eq!(parse("10"), Some(n(100_000)));
    assert_eq!(parse("0.25"), Some(n(2_500)));
    assert_eq!(parse(".5"), Some(n(5_000)));
    assert_eq!(parse("5."), Some(n(50_000)));
    assert_eq!(parse("-1.5"), Some(n(-15_000)));
    assert_eq!(parse("+3"), Some(n(30_000)));
    assert_eq!(parse("0.12340000"), Some(n(1_234)));
    assert_eq!(parse("000012"), Some(n(120_000)));
}

#[test]
fn parse_number_rejects_what_is_no_numeral() {
    assert_eq!(parse(""), None);
    assert_eq!(parse("."), None);
    assert_eq!(parse("-"), None);
    assert_eq!(parse("1px"), None);
    assert_eq!(parse("1.2.3"), None);
    assert_eq!(parse("99999999999999999999"), None);
    assert_eq!(parse("0.1234567890123456789"), None);
}

#[test]
fn parse_number_reads_every_place() {
    assert_eq!(parse("0.12345"), Some(Number { num: 2469, den: 20000 }));
    assert_eq!(parse("0.33333"), Some(Number { num: 33333, den: 100000 }));
    assert_eq!(parse("1.000000000000000001"), None);
    assert_eq!(parse("0.000000000000000001"), Some(Number { num: 1, den: 1_000_000_000_000_000_000 }));
    assert_eq!(parse("2.50"), Some(Number { num: 5, den: 2 }));
    assert_eq!(parse("-0.75"), Some(Number { num: -3, den: 4 }));
}

#[test]
fn parse_number_holds_what_its_digits_allow() {
    assert_eq!(parse("999999999999999999"), Some(Number { num: 999_999_999_999_999_999, den: 1 }));
    assert_eq!(parse("-999999999999999999"), Some(Number { num: -999_999_999_999_999_999, den: 1 }));
    assert_eq!(parse("1000000000000000000"), None);
    assert_eq!(parse("92233720368547.7580"), Some(Number { num: 46116860184273879, den: 500 }));
}

#[test]
fn format_number_writes_without_needless_zeros() {
    assert_eq!(format(100_000), "10");
    assert_eq!(format(2_500), "0.25");
    assert_eq!(format(-15_000), "-1.5");
    assert_eq!(format(0), "0");
    assert_eq!(format(1), "0.0001");
    assert_eq!(format(30_001_000), "3000.1");
    assert_eq!(format(i64::MIN), "-922337203685477.5808");
}

fn shown(num: i64, den: i64) -> String {
    format_number(Number { num, den }).iter().collect()
}

#[test]
fn format_number_rounds_to_four_places() {
    assert_eq!(shown(1, 3), "0.3333");
    assert_eq!(shown(2, 3), "0.6667");
    assert_eq!(shown(100, 3), "33.3333");
    assert_eq!(shown(-1, 3), "-0.3333");
    assert_eq!(shown(-2, 3), "-0.6667");
    assert_eq!(shown(1, 20000), "0.0001");
    assert_eq!(shown(-1, 20000), "0");
    assert_eq!(shown(3, 20000), "0.0002");
    assert_eq!(shown(33333, 100000), "0.3333");
    assert_eq!(shown(i64::MAX, 1), "9223372036854775807");
    assert_eq!(shown(1, 0), "0");
}

#[test]
fn arithmetic_is_exact() {
    assert_eq!(n(15_000).checked_add(n(5_000)), Some(n(20_000)));
    assert_eq!(Number::from_whole(i64::MAX).checked_add(n(10_000)), None);
    assert_eq!(n(15_000).checked_sub(n(20_000)), Some(n(-5_000)));
    assert_eq!(n(15_000).checked_mul(n(20_000)), Some(n(30_000)));
    assert_eq!(n(1).checked_mul(n(1)), Some(Number { num: 1, den: 100_000_000 }));
    assert_eq!(n(-5_000).checked_mul(n(5_000)), Some(n(-2_500)));
    assert_eq!(n(10_000).checked_div(n(40_000)), Some(n(2_500)));
    assert_eq!(n(10_000).checked_div(n(30_000)), Some(Number { num: 1, den: 3 }));
    assert_eq!(n(1_000_000).checked_div(n(30_000)), Some(Number { num: 100, den: 3 }));
    assert_eq!(
        Number { num: 1, den: 3 }.checked_mul(n(30_000)),
        Some(Number { num: 1, den: 1 })
    );
    assert_eq!(
        Number { num: 1, den: 3 }.checked_add(Number { num: 1, den: 6 }),
        Some(Number { num: 1, den: 2 })
    );
    assert_eq!(Number { num: 2, den: 4 }.checked_add(Number::zero()), Some(Number { num: 1, den: 2 }));
    assert_eq!(Number { num: 1, den: 0 }.checked_add(Number::zero()), None);
    assert_eq!(Number { num: 1, den: -2 }.checked_mul(n(10_000)), None);
    assert_eq!(n(10_000).checked_div(n(0)), None);
    assert_eq!(n(-70_000).checked_div(n(20_000)), Some(n(-35_000)));
    assert_eq!(n(70_000).checked_rem(n(20_000)), Some(n(10_000)));
    assert_eq!(n(-70_000).checked_rem(n(20_000)), Some(n(-10_000)));
    assert_eq!(n(70_000).checked_rem(n(0)), None);
    assert_eq!(n(75_000).checked_rem(n(20_000)), Some(n(15_000)));
    assert_eq!(
        Number { num: 7, den: 3 }.checked_rem(Number { num: 1, den: 2 }),
        Some(Number { num: 1, den: 3 })
    );
    assert_eq!(Number::from_whole(i64::MIN).checked_neg(), None);
    assert_eq!(n(5).checked_neg(), Some(n(-5)));
    assert!(Number { num: 1, den: 2 }.same(&Number { num: 2, den: 4 }));
    assert!(!Number { num: 1, den: 2 }.same(&Number { num: 1, den: 3 }));
}

#[test]
fn powers_are_exact_or_absent() {
    assert_eq!(n(20_000).checked_pow(n(100_000)), Some(n(10_240_000)));
    assert_eq!(n(5_000).checked_pow(n(20_000)), Some(n(2_500)));
    assert_eq!(n(5_000).checked_pow(n(50_000)), Some(Number { num: 1, den: 32 }));
    assert_eq!(n(20_000).checked_pow(n(5_000)), None);
    assert_eq!(n(20_000).checked_pow(n(-10_000)), Some(Number { num: 1, den: 2 }));
    assert_eq!(n(-20_000).checked_pow(n(-30_000)), Some(Number { num: -1, den: 8 }));
    assert_eq!(n(0).checked_pow(n(-10_000)), None);
    assert_eq!(n(70_000).checked_pow(n(0)), Some(n(10_000)));
    assert_eq!(n(0).checked_pow(n(30_000)), Some(n(0)));
    assert_eq!(
        n(10_000).checked_pow(Number::from_whole(900_000_000_000_000)),
        Some(n(10_000))
    );
    assert_eq!(n(-10_000).checked_pow(Number::from_whole(9_000_000_000_000)), Some(n(10_000)));
    assert_eq!(n(-10_000).checked_pow(n(70_000)), Some(n(-10_000)));
    assert_eq!(n(100_000).checked_pow(n(300_000)), None);
    assert_eq!(n(20_000).checked_pow(Number::from_whole(1000)), None);
}

#[test]
fn whole_parts_are_truncated_and_kept_in_range() {
    assert_eq!(n(25_000).to_i32(), 2);
    assert_eq!(n(-25_000).to_i32(), -2);
    assert_eq!(n(i64::MAX).to_i32(), i32::MAX);
    assert_eq!(n(i64::MIN).to_i32(), i32::MIN);
    assert_eq!(Number { num: 7, den: 2 }.to_i32(), 3);
    assert_eq!(Number { num: -7, den: 2 }.to_i32(), -3);
    assert_eq!(Number::from_whole(-3), n(-30_000));
    assert_eq!(Number::from_bool(true), n(10_000));
    assert!(Number::zero().is_zero());
}

#[test]
fn parse_number_reads_exponents() {
    assert_eq!(parse("1e3"), Some(Number { num: 1000, den: 1 }));
    assert_eq!(parse("1E2"), Some(Number { num: 100, den: 1 }));
    assert_eq!(parse("1.5e-3"), Some(Number { num: 3, den: 2000 }));
    assert_eq!(parse("-2.5e+1"), Some(Number { num: -25, den: 1 }));
    assert_eq!(parse("12e0"), Some(Number { num: 12, den: 1 }));
    assert_eq!(parse("12e-0"), Some(Number { num: 12, den: 1 }));
    assert_eq!(parse("1e18"), Some(Number { num: 1_000_000_000_000_000_000, den: 1 }));
    assert_eq!(parse("1e-18"), Some(Number { num: 1, den: 1_000_000_000_000_000_000 }));
    assert_eq!(parse("10e18"), None);
    assert_eq!(parse("1e19"), None);
    assert_eq!(parse("1e"), None);
    assert_eq!(parse("e3"), None);
    assert_eq!(parse("1em"), None);
    assert_eq!(parse("1e3px"), None);
    assert_eq!(parse("1e2e3"), None);
    assert_eq!(parse("1e123"), None);
}
