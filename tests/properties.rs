use dfp_number::{format_text, Alignment, Decimal128, FormatSpec};
use std::cmp::Ordering;
use std::str::FromStr;

fn debug(d: Decimal128) -> String {
    d.to_debug_string()
}

#[test]
fn debug_text_parses_back_to_an_equal_value() {
    for (m, s) in [(123456_i64, 2_i32), (-5, 0), (0, 3), (120, -2), (987654321, 9), (1, -30)] {
        let v = Decimal128::new(m, s);
        let back = Decimal128::from(v.to_debug_string().as_str());
        assert!(back == v, "{} {}", m, s);
        assert_eq!(debug(back), debug(v));
    }
}

#[test]
fn cohort_members_are_equal_but_read_differently() {
    let a = Decimal128::new(120, 2);
    let b = Decimal128::new(12, 1);
    assert!(a == b);
    assert_eq!(a.cmp(&b), Ordering::Equal);
    assert_eq!(debug(a), "+120E-2");
    assert_eq!(debug(b), "+12E-1");
}

#[test]
fn scale_moves_the_decimal_point() {
    let f = FormatSpec::default();
    assert_eq!(Decimal128::new(120, 2).format(&f), "1.2");
    assert_eq!(Decimal128::new(120, 8).format(&f), "0.0000012");
    assert_eq!(Decimal128::new(120, -2).format(&f), "12000");
}

#[test]
fn round_dp_breaks_ties_to_even() {
    assert!(Decimal128::from("23.5").round_dp(0) == Decimal128::from(24_u8));
    assert!(Decimal128::from("24.5").round_dp(0) == Decimal128::from(24_i32));
    assert_eq!(debug(Decimal128::from("0.156").round_dp(2)), "+16E-2");
    assert_eq!(debug(Decimal128::from("25.5").round_dp(0)), "+26E+0");
    assert_eq!(debug(Decimal128::from("1250").round_dp(-2)), "+12E+2");
}

#[test]
fn special_values_parse_in_any_case_and_sign() {
    let f = FormatSpec::default();
    for (s, e) in [("inf", "+Inf"), ("+INFINITY", "+Inf"), ("-inf", "-Inf"), ("nan", "+NaN"), ("+NaN", "+NaN"), ("SNAN", "+SNaN"), ("-SNaN", "-SNaN")] {
        assert_eq!(Decimal128::from(s).format(&f), e, "{}", s);
    }
}

#[test]
fn centred_field_splits_the_fill() {
    let f = FormatSpec { width: 20, precision: Some(2), align: Some(Alignment::Center), fill: 'G', ..FormatSpec::default() };
    assert_eq!(Decimal128::new(12, 1).format(&f), "GGGGGGGG1.20GGGGGGGG");
    let g = FormatSpec { width: 10, align: Some(Alignment::Center), fill: '*', ..FormatSpec::default() };
    assert_eq!(Decimal128::new(12, 1).format(&g), "***1.2****");
}

#[test]
fn zero_padding_follows_the_sign() {
    let f = FormatSpec { width: 10, zero_pad: true, ..FormatSpec::default() };
    assert_eq!(Decimal128::from("-0.00123").format(&f), "-000.00123");
    assert_eq!(Decimal128::from("0.00123").format(&f), "0000.00123");
    let g = FormatSpec { width: 6, zero_pad: true, sign_plus: true, ..FormatSpec::default() };
    assert_eq!(Decimal128::new(12, 1).format(&g), "+001.2");
    let h = FormatSpec { width: 6, zero_pad: true, ..FormatSpec::default() };
    assert_eq!(Decimal128::from("-Inf").format(&h), "-Inf  ");
}

#[test]
fn formatting_twice_gives_the_same_text() {
    let d = Decimal128::from("-1234.5678");
    let f = FormatSpec { width: 15, precision: Some(2), align: Some(Alignment::Center), fill: '~', sign_plus: true, zero_pad: false };
    let first = d.format(&f);
    let second = d.format(&f);
    assert_eq!(first, second);
    assert_eq!(first, "~~~-1234.56~~~~");
}

#[test]
fn arithmetic_rounds_and_keeps_exponents() {
    let a = Decimal128::new(12, 1);
    let b = Decimal128::new(34, 1);
    assert_eq!(debug(a + b), "+46E-1");
    assert_eq!(debug(b - a), "+22E-1");
    assert_eq!(debug(a * Decimal128::from(3_u16)), "+36E-1");
    assert_eq!(debug(Decimal128::one() / Decimal128::from(4_i16)), "+25E-2");
    assert_eq!(debug(-a), "-12E-1");
}

#[test]
fn compound_assignment_matches_the_operators() {
    let a = Decimal128::new(12, 1);
    let b = Decimal128::new(34, 1);
    let mut x = a;
    x += b;
    assert_eq!(debug(x), debug(a + b));
    x -= b;
    assert_eq!(debug(x), "+12E-1");
    x *= b;
    assert_eq!(debug(x), debug(a * b));
    x /= b;
    assert!(x == a);
}

#[test]
fn division_by_zero_gives_infinity() {
    assert_eq!(debug(Decimal128::one() / Decimal128::zero()), "+Inf");
    assert_eq!(debug(-Decimal128::one() / Decimal128::zero()), "-Inf");
    assert_eq!(debug(Decimal128::zero() / Decimal128::zero()), "+NaN");
}

#[test]
fn logarithm_and_exponential() {
    assert!(Decimal128::one().ln().is_zero());
    assert!(Decimal128::zero().exp() == Decimal128::one());
    assert!(Decimal128::ten().ln() > Decimal128::two());
    assert!(Decimal128::one().exp() < Decimal128::from(3_u32));
}

#[test]
fn named_constants_have_exponent_zero() {
    assert_eq!(debug(Decimal128::zero()), "+0E+0");
    assert_eq!(debug(Decimal128::one()), "+1E+0");
    assert_eq!(debug(Decimal128::two()), "+2E+0");
    assert_eq!(debug(Decimal128::ten()), "+10E+0");
    assert_eq!(debug(Decimal128::one_hundred()), "+100E+0");
    assert_eq!(debug(Decimal128::one_thousand()), "+1000E+0");
    assert_eq!(debug(Decimal128::default()), "+0E+0");
    assert_eq!(Decimal128::one_thousand().format(&FormatSpec::default()), "1000");
}

#[test]
fn integers_convert_exactly() {
    assert_eq!(debug(Decimal128::from(255_u8)), "+255E+0");
    assert_eq!(debug(Decimal128::from(-128_i8)), "-128E+0");
    assert_eq!(debug(Decimal128::from(65535_u16)), "+65535E+0");
    assert_eq!(debug(Decimal128::from(-32768_i16)), "-32768E+0");
    assert_eq!(debug(Decimal128::from(u32::MAX)), "+4294967295E+0");
    assert_eq!(debug(Decimal128::from(i32::MIN)), "-2147483648E+0");
    assert_eq!(debug(Decimal128::from(u64::MAX)), "+18446744073709551615E+0");
    assert_eq!(debug(Decimal128::from(i64::MIN)), "-9223372036854775808E+0");
    assert_eq!(debug(Decimal128::from(7_usize)), "+7E+0");
    assert_eq!(debug(Decimal128::from(-7_isize)), "-7E+0");
}

#[test]
fn text_conversions_never_fail() {
    assert_eq!(debug(Decimal128::from_str("1.5e3").unwrap()), "+15E+2");
    assert_eq!(debug(Decimal128::parse("-0.25")), "-25E-2");
    assert_eq!(debug(Decimal128::from("not a number")), "+NaN");
    assert_eq!(debug(Decimal128::from("1\u{0}2")), "+NaN");
}

#[test]
fn comparisons_use_quiet_predicates() {
    let one = Decimal128::one();
    let two = Decimal128::two();
    let nan = Decimal128::from("NaN");
    assert!(one < two && one <= two && two > one && two >= one && one != two);
    assert_eq!(one.partial_cmp(&two), Some(Ordering::Less));
    assert_eq!(two.partial_cmp(&one), Some(Ordering::Greater));
    assert_eq!(one.cmp(&one), Ordering::Equal);
    assert_eq!(nan.partial_cmp(&one), Some(Ordering::Greater));
    assert_eq!(one.cmp(&nan), Ordering::Greater);
    assert!(!(nan < one) && !(nan > one) && !(nan == nan));
}

#[test]
fn max_and_min_both_pick_the_smaller() {
    let one = Decimal128::one();
    let two = Decimal128::two();
    assert!(one.max(two) == one);
    assert!(one.min(two) == one);
    assert!(two.max(one) == one);
}

#[test]
fn zero_test_covers_all_cohorts() {
    assert!(Decimal128::zero().is_zero());
    assert!(Decimal128::new(0, 5).is_zero());
    assert!(Decimal128::from("-0.000").is_zero());
    assert!(!Decimal128::new(1, 30).is_zero());
}

#[test]
fn format_text_handles_any_text() {
    let f = FormatSpec::default();
    assert_eq!(format_text("+120E-2", &f), "1.2");
    assert_eq!(format_text("-5E+3", &f), "-5000");
    assert_eq!(format_text("+100E-2", &f), "1");
    assert_eq!(format_text("+0E-3", &f), "0.00");
    assert_eq!(format_text("", &f), "");
    assert_eq!(format_text("+12E", &f), "+12E");
    assert_eq!(format_text("+12Ex", &f), "+12Ex");
    assert_eq!(format_text("+12E+99999999999999999999", &f), "+12E+99999999999999999999");
    assert_eq!(format_text("+7E-1E5", &f), "0.7");
    let p = FormatSpec { precision: Some(3), ..FormatSpec::default() };
    assert_eq!(format_text("+123456E-2", &p), "1234.560");
    assert_eq!(format_text("+Inf", &p), "+Inf");
    let w = FormatSpec { width: 6, ..FormatSpec::default() };
    assert_eq!(format_text("+Inf", &w), "+Inf  ");
    assert_eq!(format_text("+5E+0", &w), "     5");
}

#[test]
fn scale_reaches_both_ends_of_the_exponent_range() {
    assert_eq!(debug(Decimal128::new(1, 6176)), "+1E-6176");
    assert_eq!(debug(Decimal128::new(-7, -6111)), "-7E+6111");
    assert_eq!(debug(Decimal128::new(123, 0)), "+123E+0");
}

#[test]
fn round_dp_at_the_top_of_the_exponent_range() {
    assert_eq!(debug(Decimal128::one().round_dp(-6111)), "+0E+6111");
    assert_eq!(debug(Decimal128::from("0.5").round_dp(6176)), "+NaN");
}
