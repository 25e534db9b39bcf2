use rust_iiif::number::Number;

fn number(s: &str) -> Number {
    Number::parse(s).expect("a numeric token")
}

#[test]
fn plain_decimals_are_numbers() {
    for token in ["0", "180", "12.5", ".5", "5.", "+3", "-7.25", "007", "1e3", "1E3", "2.5e-1", "1e+2"] {
        assert!(Number::parse(token).is_some(), "{}", token);
    }
}

#[test]
fn special_words_are_numbers_in_any_case() {
    for token in ["inf", "INF", "-inf", "+Infinity", "infinity", "nan", "NaN", "-nan"] {
        assert!(Number::parse(token).is_some(), "{}", token);
    }
}

#[test]
fn other_texts_are_no_numbers() {
    for token in [
        "", "+", "-", ".", "e5", "1e", "1e+", "1e-", "1.2.3", "1,5", " 1", "1 ", "0x10", "1_000", "abc",
        "--1", "+-1", "1e5.5", "infinit", "na", "1f", "٣", "½",
    ] {
        assert!(Number::parse(token).is_none(), "{}", token);
    }
}

#[test]
fn the_token_is_kept_as_written() {
    assert_eq!(number("12.50").as_str(), "12.50");
    assert_eq!(number("-1E3").as_str(), "-1E3");
}

#[test]
fn truncation_drops_the_fraction() {
    assert_eq!(number("0").truncate(), 0);
    assert_eq!(number("12").truncate(), 12);
    assert_eq!(number("12.999").truncate(), 12);
    assert_eq!(number("-12.999").truncate(), -12);
    assert_eq!(number("0.999999999999999999999999").truncate(), 0);
    assert_eq!(number("-0.5").truncate(), 0);
    assert_eq!(number(".75").truncate(), 0);
    assert_eq!(number("100.").truncate(), 100);
}

#[test]
fn truncation_follows_the_exponent() {
    assert_eq!(number("1e3").truncate(), 1000);
    assert_eq!(number("1.2345e2").truncate(), 123);
    assert_eq!(number("12345e-2").truncate(), 123);
    assert_eq!(number("12345e-5").truncate(), 0);
    assert_eq!(number("12345e-7").truncate(), 0);
    assert_eq!(number("0.00012e5").truncate(), 12);
    assert_eq!(number("0e99999999999999999999999999").truncate(), 0);
    assert_eq!(number("5e-99999999999999999999999999").truncate(), 0);
}

#[test]
fn truncation_stays_within_i32() {
    assert_eq!(number("2147483647").truncate(), 2147483647);
    assert_eq!(number("2147483648").truncate(), 2147483647);
    assert_eq!(number("-2147483648").truncate(), -2147483648);
    assert_eq!(number("-2147483649").truncate(), -2147483648);
    assert_eq!(number("99999999999999999999999999999").truncate(), i32::MAX);
    assert_eq!(number("1e99999999999999999999999999").truncate(), i32::MAX);
    assert_eq!(number("-1e40").truncate(), i32::MIN);
    assert_eq!(number("inf").truncate(), i32::MAX);
    assert_eq!(number("-inf").truncate(), i32::MIN);
    assert_eq!(number("nan").truncate(), 0);
}

#[test]
fn percent_of_an_extent() {
    assert_eq!(number("50").percent_of(300), 150);
    assert_eq!(number("100").percent_of(300), 300);
    assert_eq!(number("0").percent_of(300), 0);
    assert_eq!(number("33.333").percent_of(300), 99);
    assert_eq!(number("33.334").percent_of(300), 100);
    assert_eq!(number("12.5").percent_of(1000), 125);
    assert_eq!(number("1").percent_of(99), 0);
    assert_eq!(number("1").percent_of(100), 1);
    assert_eq!(number("2.5e1").percent_of(400), 100);
    assert_eq!(number("250e-1").percent_of(400), 100);
    assert_eq!(number("0.000000000000000000000000000001").percent_of(400), 0);
}

#[test]
fn percent_of_keeps_signs_and_bounds() {
    assert_eq!(number("-50").percent_of(300), -150);
    assert_eq!(number("50").percent_of(-300), -150);
    assert_eq!(number("-50").percent_of(-300), 150);
    assert_eq!(number("1e12").percent_of(300), i32::MAX);
    assert_eq!(number("-1e12").percent_of(300), i32::MIN);
    assert_eq!(number("100").percent_of(i32::MAX), i32::MAX);
    assert_eq!(number("100").percent_of(i32::MIN), i32::MIN);
    assert_eq!(number("inf").percent_of(300), i32::MAX);
    assert_eq!(number("inf").percent_of(-300), i32::MIN);
    assert_eq!(number("inf").percent_of(0), 0);
    assert_eq!(number("nan").percent_of(300), 0);
}

#[test]
fn zero_of_either_sign_is_zero() {
    assert!(number("0").is_zero());
    assert!(number("-0").is_zero());
    assert!(number("0.000").is_zero());
    assert!(number("0e5").is_zero());
    assert!(number(".0").is_zero());
    assert!(!number("0.0001").is_zero());
    assert!(!number("180").is_zero());
    assert!(!number("1e-999999999999").is_zero());
    assert!(!number("nan").is_zero());
    assert!(!number("inf").is_zero());
}

#[test]
fn a_clone_is_the_same_number() {
    let n = number("41.6");
    let m = n.clone();
    assert_eq!(m.as_str(), "41.6");
    assert_eq!(m.percent_of(1000), 416);
}

#[test]
fn the_grammar_is_that_of_a_float() {
    let pieces = ["", "+", "-", "0", "1", "12", ".", "e", "E", "e+", "e-", "inf", "nan", "infinity", "Inf", "NAN", "x", " ", "9", "_"];
    let mut corpus: Vec<String> = Vec::new();
    for a in pieces {
        for b in pieces {
            for c in pieces {
                corpus.push(format!("{}{}{}", a, b, c));
            }
        }
    }
    for d in ["1.5e10", "-.5E-3", "+5.e2", "1e5e5", "1.2.3", "٣", "1e٣", "InFiNiTy", "infinityy", "i", "n", "+nan", "-Infinity"] {
        corpus.push(d.to_string());
    }
    for token in &corpus {
        assert_eq!(Number::parse(token).is_some(), token.parse::<f64>().is_ok(), "{:?}", token);
    }
}

#[test]
fn truncation_agrees_with_a_float_on_short_tokens() {
    for token in [
        "0", "1", "-1", "12.5", "-12.5", "99.99", "1e3", "1e-3", "123456e-3", "2147483647", "-2147483648",
        "3000000000", "-3000000000", "1e10", "-1e10", "0.1e1", "inf", "-inf", "nan", "5.", ".5", "1234.5678e2",
    ] {
        let float: f64 = token.parse().expect("a float");
        assert_eq!(number(token).truncate(), float as i32, "{:?}", token);
        assert_eq!(number(token).is_zero(), float == 0.0, "{:?}", token);
    }
}

#[test]
fn percent_agrees_with_a_float_on_short_tokens() {
    for token in ["0", "10", "25", "50", "100", "12.5", "150", "-25", "1e1", "inf", "-inf", "nan"] {
        let float: f64 = token.parse().expect("a float");
        for extent in [0, 1, 8, 200, 300, 1000, -200, i32::MAX] {
            assert_eq!(
                number(token).percent_of(extent),
                (extent as f64 * float / 100.0) as i32,
                "{:?} of {}",
                token,
                extent
            );
        }
    }
}
