use rental_api::amount::Amount;

fn minor(s: &str) -> Option<u64> {
    Amount::parse(s).map(|a| a.minor_units())
}

#[test]
fn parses_two_fraction_digits() {
    assert_eq!(minor("100.00"), Some(10_000));
    assert_eq!(minor("0.05"), Some(5));
    assert_eq!(minor("12.34"), Some(1_234));
    assert_eq!(minor("00012.30"), Some(1_230));
}

#[test]
fn parses_one_fraction_digit() {
    assert_eq!(minor("0.5"), Some(50));
    assert_eq!(minor("100.5"), Some(10_050));
}

#[test]
fn parses_whole_amounts() {
    assert_eq!(minor("0"), Some(0));
    assert_eq!(minor("7"), Some(700));
    assert_eq!(minor("1250"), Some(125_000));
}

#[test]
fn largest_storable_amount() {
    assert_eq!(minor("99999999.99"), Some(9_999_999_999));
    assert_eq!(minor("99999999"), Some(9_999_999_900));
}

#[test]
fn rejects_malformed_amounts() {
    assert_eq!(minor(""), None);
    assert_eq!(minor("."), None);
    assert_eq!(minor(".5"), None);
    assert_eq!(minor("5."), None);
    assert_eq!(minor("-1"), None);
    assert_eq!(minor("+1"), None);
    assert_eq!(minor("1.234"), None);
    assert_eq!(minor("1..2"), None);
    assert_eq!(minor("1.2.3"), None);
    assert_eq!(minor("abc"), None);
    assert_eq!(minor("12a.00"), None);
    assert_eq!(minor("1e3"), None);
    assert_eq!(minor(" 1.00"), None);
}

#[test]
fn rejects_more_than_eight_integer_digits() {
    assert_eq!(minor("123456789"), None);
    assert_eq!(minor("123456789.00"), None);
    assert_eq!(minor("000000000"), None);
}

#[test]
fn display_renders_two_fraction_digits() {
    assert_eq!(Amount::parse("100.00").unwrap().to_display(), "100.00");
    assert_eq!(Amount::parse("0.05").unwrap().to_display(), "0.05");
    assert_eq!(Amount::parse("0").unwrap().to_display(), "0.00");
    assert_eq!(Amount::parse("7").unwrap().to_display(), "7.00");
    assert_eq!(Amount::parse("100.5").unwrap().to_display(), "100.50");
    assert_eq!(Amount::from_minor(9_999_999_999).unwrap().to_display(), "99999999.99");
}

#[test]
fn display_then_parse_round_trips() {
    for minor in [0u64, 1, 99, 100, 101, 12_345, 10_000, 9_999_999_999] {
        let a = Amount::from_minor(minor).unwrap();
        let shown = a.to_display();
        let back = Amount::parse(&shown).expect("rendered amount parses");
        assert_eq!(back, a);
    }
}

#[test]
fn from_minor_respects_the_storable_range() {
    let a = Amount::from_minor(10_000).expect("in range");
    assert_eq!(a.minor_units(), 10_000);
    assert_eq!(a, Amount::parse("100.00").unwrap());

    assert!(Amount::from_minor(9_999_999_999).is_some());
    assert!(Amount::from_minor(10_000_000_000).is_none());
}
