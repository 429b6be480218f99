use txledger::text::amount_text;

#[test]
fn whole_amounts_drop_the_point() {
    assert_eq!(amount_text(0), "0");
    assert_eq!(amount_text(10000), "1");
    assert_eq!(amount_text(1000000), "100");
}

#[test]
fn fractions_keep_natural_precision() {
    assert_eq!(amount_text(1252563), "125.2563");
    assert_eq!(amount_text(2505126), "250.5126");
    assert_eq!(amount_text(105), "0.0105");
    assert_eq!(amount_text(1), "0.0001");
    assert_eq!(amount_text(12500), "1.25");
    assert_eq!(amount_text(10500), "1.05");
}

#[test]
fn negative_amounts_carry_a_sign() {
    assert_eq!(amount_text(-12345), "-1.2345");
    assert_eq!(amount_text(-10000), "-1");
}

#[test]
fn extreme_amounts_render_exactly() {
    assert_eq!(amount_text(i64::MAX), "922337203685477.5807");
    assert_eq!(amount_text(i64::MIN), "-922337203685477.5808");
}
