use yonder_import::amount::Amount;

fn text_of(numeral: &str) -> String {
    Amount::parse(numeral).unwrap().to_text()
}

fn scaled(numeral: &str) -> i64 {
    Amount::parse(numeral).unwrap().thousandths_saturating(false)
}

fn scaled_negated(numeral: &str) -> i64 {
    Amount::parse(numeral).unwrap().thousandths_saturating(true)
}

#[test]
fn parse_reads_plain_numerals() {
    assert_eq!(text_of("3"), "3");
    assert_eq!(text_of("3.00"), "3");
    assert_eq!(text_of("12.50"), "12.5");
    assert_eq!(text_of("12.34"), "12.34");
    assert_eq!(text_of("0.05"), "0.05");
    assert_eq!(text_of("1234567.89"), "1234567.89");
}

#[test]
fn parse_drops_zeros_that_say_nothing() {
    assert_eq!(text_of("007.10"), "7.1");
    assert_eq!(text_of("000"), "0");
    assert_eq!(text_of("0.000"), "0");
    assert_eq!(text_of("00.0100"), "0.01");
    assert_eq!(text_of("100"), "100");
    assert_eq!(text_of("100.001"), "100.001");
}

#[test]
fn parse_accepts_a_point_at_either_end() {
    assert_eq!(text_of(".5"), "0.5");
    assert_eq!(text_of("5."), "5");
    assert_eq!(text_of("0."), "0");
    assert_eq!(text_of(".0"), "0");
}

#[test]
fn parse_accepts_a_sign() {
    assert_eq!(text_of("+4"), "4");
    assert_eq!(text_of("+4.20"), "4.2");
    assert_eq!(text_of("-3.2"), "-3.2");
    assert_eq!(text_of("-.5"), "-0.5");
    assert!(Amount::parse("-3.2").unwrap().is_negative());
    assert!(!Amount::parse("+3.2").unwrap().is_negative());
    assert!(!Amount::parse("3.2").unwrap().is_negative());
}

#[test]
fn parse_keeps_the_sign_of_zero() {
    assert_eq!(text_of("-0"), "-0");
    assert_eq!(text_of("-0.00"), "-0");
    assert!(Amount::parse("-0").unwrap().is_negative());
    assert_ne!(Amount::parse("-0").unwrap(), Amount::parse("0").unwrap());
}

#[test]
fn parse_rejects_what_is_no_numeral() {
    for text in [
        "", "-", "+", ".", "-.", "+.", "abc", "three", "1.2.3", "1..2", "--1", "+-1", "1-", "1+1",
        " 3", "3 ", "3 .0", "1,5", "1_000", "0x10", "1e3", "1E3", "1.5e-3", "inf", "-inf",
        "infinity", "NaN", "nan", "£3.00", "3.00£", "\u{0663}", "3\u{00a0}",
    ] {
        assert_eq!(Amount::parse(text), None, "{text:?}");
    }
}

#[test]
fn equal_values_are_equal_amounts() {
    assert_eq!(Amount::parse("3.00"), Amount::parse("3"));
    assert_eq!(Amount::parse("03.10"), Amount::parse("3.1"));
    assert_eq!(Amount::parse("+3"), Amount::parse("3"));
    assert_ne!(Amount::parse("3.01"), Amount::parse("3.1"));
    assert_ne!(Amount::parse("-3"), Amount::parse("3"));
}

#[test]
fn clone_keeps_the_amount() {
    let amount = Amount::parse("-12.340").unwrap();
    let copy = amount.clone();
    assert_eq!(copy, amount);
    assert_eq!(copy.to_text(), "-12.34");
}

#[test]
fn push_text_appends() {
    let mut out = String::from("a=");
    Amount::parse("10.5").unwrap().push_text(&mut out);
    assert_eq!(out, "a=10.5");
    Amount::parse("-0.25").unwrap().push_text(&mut out);
    assert_eq!(out, "a=10.5-0.25");
}

#[test]
fn thousandths_scale_exactly() {
    assert_eq!(scaled("3.00"), 3000);
    assert_eq!(scaled("3"), 3000);
    assert_eq!(scaled("0"), 0);
    assert_eq!(scaled("0.01"), 10);
    assert_eq!(scaled("0.1"), 100);
    assert_eq!(scaled("0.001"), 1);
    assert_eq!(scaled("12.345"), 12345);
    assert_eq!(scaled("1234567.89"), 1234567890);
    assert_eq!(scaled("0.29"), 290);
    assert_eq!(scaled("0.57"), 570);
    assert_eq!(scaled("4.35"), 4350);
    assert_eq!(scaled("1.15"), 1150);
    assert_eq!(scaled("8.2"), 8200);
    assert_eq!(scaled("1.001"), 1001);
}

#[test]
fn thousandths_round_toward_zero() {
    assert_eq!(scaled("0.0009"), 0);
    assert_eq!(scaled("1.9999"), 1999);
    assert_eq!(scaled("0.00099999"), 0);
    assert_eq!(scaled("2.0005"), 2000);
    assert_eq!(scaled("-0.0009"), 0);
    assert_eq!(scaled("-1.9999"), -1999);
    assert_eq!(scaled_negated("1.9999"), -1999);
    assert_eq!(scaled_negated("-1.9999"), 1999);
}

#[test]
fn thousandths_follow_the_sign() {
    assert_eq!(scaled("-3.00"), -3000);
    assert_eq!(scaled_negated("3.00"), -3000);
    assert_eq!(scaled_negated("-3.00"), 3000);
    assert_eq!(scaled_negated("0"), 0);
    assert_eq!(scaled("-0"), 0);
    assert_eq!(scaled_negated("-0"), 0);
}

#[test]
fn thousandths_stop_at_the_bounds() {
    assert_eq!(scaled("9223372036854775.807"), i64::MAX);
    assert_eq!(scaled("9223372036854775.806"), i64::MAX - 1);
    assert_eq!(scaled("9223372036854775.808"), i64::MAX);
    assert_eq!(scaled("9223372036854775.8079"), i64::MAX);
    assert_eq!(scaled("9223372036854776"), i64::MAX);
    assert_eq!(scaled("9999999999999999"), i64::MAX);
    assert_eq!(scaled("10000000000000000"), i64::MAX);
    assert_eq!(scaled("123456789012345678901234567890.5"), i64::MAX);
    assert_eq!(scaled("-9223372036854775.807"), i64::MIN + 1);
    assert_eq!(scaled("-9223372036854775.808"), i64::MIN);
    assert_eq!(scaled("-9223372036854775.809"), i64::MIN);
    assert_eq!(scaled_negated("9223372036854775.808"), i64::MIN);
    assert_eq!(scaled_negated("123456789012345678901234567890"), i64::MIN);
    assert_eq!(scaled_negated("-9223372036854775.808"), i64::MAX);
    assert_eq!(scaled("9223372036854775"), 9223372036854775000);
}

#[test]
fn long_numerals_lose_nothing() {
    assert_eq!(
        text_of("123456789012345678901234567890.123456789012345678901234567890"),
        "123456789012345678901234567890.12345678901234567890123456789"
    );
    assert_eq!(text_of("0.1234567890123456789"), "0.1234567890123456789");
}

#[test]
fn numerals_are_written_as_floating_point_writes_them() {
    for pence in 0u32..=200_000 {
        let numeral = format!("{}.{:02}", pence / 100, pence % 100);
        let float: f64 = numeral.parse().unwrap();
        assert_eq!(text_of(&numeral), format!("{}", float), "{numeral}");
    }
    for numeral in ["0.001", "1234567.891", "99999999.99", "0.5", "-2.50", "17", "100000000000"] {
        let float: f64 = numeral.parse().unwrap();
        assert_eq!(text_of(numeral), format!("{}", float), "{numeral}");
    }
}

#[test]
fn thousandths_are_exact_where_floating_point_is_close() {
    for pence in 0u32..=200_000 {
        let numeral = format!("{}.{:02}", pence / 100, pence % 100);
        let float: f64 = numeral.parse().unwrap();
        assert_eq!(scaled(&numeral), (float * 1000.0).round() as i64, "{numeral}");
        assert_eq!(scaled(&numeral), i64::from(pence) * 10, "{numeral}");
    }
}
