use txledger::parse::parse_amount;

#[test]
fn whole_amounts_parse() {
    assert_eq!(parse_amount(b"0"), Some(0));
    assert_eq!(parse_amount(b"1"), Some(10000));
    assert_eq!(parse_amount(b"100"), Some(1000000));
    assert_eq!(parse_amount(b"007"), Some(70000));
}

#[test]
fn fractional_amounts_parse() {
    assert_eq!(parse_amount(b"125.2563"), Some(1252563));
    assert_eq!(parse_amount(b"0.0001"), Some(1));
    assert_eq!(parse_amount(b"1.25"), Some(12500));
    assert_eq!(parse_amount(b"1.05"), Some(10500));
    assert_eq!(parse_amount(b"123.4567"), Some(1234567));
}

#[test]
fn zeros_below_resolution_are_accepted() {
    assert_eq!(parse_amount(b"1.250000"), Some(12500));
    assert_eq!(parse_amount(b"2.00010"), Some(20001));
}

#[test]
fn malformed_amounts_are_rejected() {
    assert_eq!(parse_amount(b""), None);
    assert_eq!(parse_amount(b"."), None);
    assert_eq!(parse_amount(b"1."), None);
    assert_eq!(parse_amount(b".5"), None);
    assert_eq!(parse_amount(b"-1"), None);
    assert_eq!(parse_amount(b"+1"), None);
    assert_eq!(parse_amount(b"12a"), None);
    assert_eq!(parse_amount(b"1.2.3"), None);
    assert_eq!(parse_amount(b"1 "), None);
    assert_eq!(parse_amount(b"1.23456"), None);
}

#[test]
fn amounts_beyond_the_representation_are_rejected() {
    assert_eq!(parse_amount(b"922337203685477.5807"), Some(i64::MAX));
    assert_eq!(parse_amount(b"922337203685477.5808"), None);
    assert_eq!(parse_amount(b"99999999999999999999999999"), None);
}

#[test]
fn parsing_round_trips_with_rendering() {
    let rendered = txledger::text::amount_text(1252563);
    assert_eq!(parse_amount(rendered.as_bytes()), Some(1252563));
    let rendered_whole = txledger::text::amount_text(1000000);
    assert_eq!(parse_amount(rendered_whole.as_bytes()), Some(1000000));
}
