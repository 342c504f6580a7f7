use modtagger::text::parse_u64;

#[test]
fn parse_u64_reads_plain_digits() {
    assert_eq!(parse_u64("10"), Some(10));
    assert_eq!(parse_u64("0"), Some(0));
    assert_eq!(parse_u64("+7"), Some(7));
    assert_eq!(parse_u64("007"), Some(7));
}

#[test]
fn parse_u64_refuses_what_is_no_number() {
    assert_eq!(parse_u64(""), None);
    assert_eq!(parse_u64("+"), None);
    assert_eq!(parse_u64("++1"), None);
    assert_eq!(parse_u64("-1"), None);
    assert_eq!(parse_u64("1 "), None);
    assert_eq!(parse_u64(" 1"), None);
    assert_eq!(parse_u64("12a"), None);
    assert_eq!(parse_u64("١٢"), None);
}

#[test]
fn parse_u64_stops_at_the_largest_number() {
    assert_eq!(parse_u64("18446744073709551615"), Some(u64::MAX));
    assert_eq!(parse_u64("18446744073709551616"), None);
    assert_eq!(parse_u64("99999999999999999999999"), None);
    assert_eq!(parse_u64("99999999999999999999999x"), None);
}

#[test]
fn parse_u64_agrees_with_the_standard_parser() {
    let samples = [
        "", "0", "1", "+1", "-1", "+", "42", "0042", "4 2", "1e3", "18446744073709551615",
        "18446744073709551616", "+18446744073709551615", "٣", "12_000", "0x10",
    ];
    for sample in samples {
        assert_eq!(parse_u64(sample), sample.parse::<u64>().ok(), "on {:?}", sample);
    }
}
