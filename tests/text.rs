use weather_app::text::format_tenths;

#[test]
fn tenths_are_written_with_one_decimal() {
    assert_eq!(format_tenths(225), "22.5");
    assert_eq!(format_tenths(220), "22.0");
    assert_eq!(format_tenths(0), "0.0");
    assert_eq!(format_tenths(-3), "-0.3");
    assert_eq!(format_tenths(-105), "-10.5");
    assert_eq!(format_tenths(i64::MIN), "-922337203685477580.8");
    assert_eq!(format_tenths(i64::MAX), "922337203685477580.7");
}
