use debt_ledger::amount::Amount;

fn amt(s: &str) -> Amount {
    Amount::parse(s).expect("text should parse")
}

#[test]
fn parses_a_plain_decimal_exactly() {
    let a = amt("12.50");
    let b = amt("12.5");
    assert!(a.eq_value(&b));
    assert_eq!(a.to_text(), "12.5");
}

#[test]
fn parses_integers() {
    let a = amt("42");
    assert_eq!(a.to_text(), "42");
    assert!(a.eq_value(&amt("42.000")));
}

#[test]
fn rejects_garbage() {
    assert!(Amount::parse("abc").is_none());
    assert!(Amount::parse("").is_none());
    assert!(Amount::parse("1.2.3").is_none());
    assert!(Amount::parse("12a").is_none());
    assert!(Amount::parse(" 12").is_none());
}

#[test]
fn rejects_non_positive_amounts() {
    assert!(Amount::parse("-5").is_none());
    assert!(Amount::parse("-0.5").is_none());
    assert!(Amount::parse("0").is_none());
    assert!(Amount::parse("0.00").is_none());
    assert!(Amount::parse("000").is_none());
    assert!(Amount::parse("+5").is_none());
}

#[test]
fn accepts_bare_fraction_and_trailing_dot() {
    assert!(amt(".5").eq_value(&amt("0.5")));
    assert!(amt("12.").eq_value(&amt("12")));
    assert!(amt("012.50").eq_value(&amt("12.5")));
    assert!(amt("00.070").eq_value(&amt("0.07")));
}

#[test]
fn adds_exactly() {
    assert!(amt("30").add(&amt("12")).eq_value(&amt("42")));
    assert!(amt("0.1").add(&amt("0.2")).eq_value(&amt("0.3")));
    assert!(amt("1.05").add(&amt("2.95")).eq_value(&amt("4")));
    assert!(amt("0.005").add(&amt("0.095")).eq_value(&amt("0.1")));
}

#[test]
fn addition_carries_across_many_digits() {
    let a = amt("99999999999999999999999999999999999999.5");
    let b = amt("0.5");
    let sum = a.add(&b);
    assert_eq!(sum.to_text(), "100000000000000000000000000000000000000");
}

#[test]
fn precision_is_arbitrary() {
    let a = amt("123456789012345678901234567890123456789012345678901234567890.1");
    let one = amt("0.9");
    let sum = a.add(&one);
    assert_eq!(
        sum.to_text(),
        "123456789012345678901234567890123456789012345678901234567891"
    );
}

#[test]
fn rendering_round_trips() {
    for s in ["12.50", "0.070", "7", ".25", "10.", "90.09", "100000"] {
        let a = amt(s);
        let again = amt(&a.to_text());
        assert!(a.eq_value(&again));
    }
}

#[test]
fn small_fractions_render_with_their_leading_zeros() {
    assert_eq!(amt("0.5").to_text(), "0.5");
    assert_eq!(amt(".005").to_text(), "0.005");
    assert_eq!(amt("10.01").to_text(), "10.01");
}

#[test]
fn ordering_and_subtraction_are_exact() {
    assert!(amt("12.49").lt_value(&amt("12.5")));
    assert!(!amt("12.5").lt_value(&amt("12.5")));
    assert!(!amt("12.51").lt_value(&amt("12.5")));
    assert!(amt("42").sub(&amt("12")).eq_value(&amt("30")));
    assert!(amt("1").sub(&amt("0.999")).eq_value(&amt("0.001")));
    assert!(amt("100").sub(&amt("99.5")).eq_value(&amt("0.5")));
}

#[test]
fn distinct_values_compare_unequal() {
    assert!(!amt("12.5").eq_value(&amt("12.51")));
    assert!(!amt("1").eq_value(&amt("10")));
    assert!(!amt("0.1").eq_value(&amt("0.01")));
}
