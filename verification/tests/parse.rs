use cyclovander::parse_line;

#[test]
fn parse_plain_digits() {
    assert_eq!(parse_line("123"), Some(123));
    assert_eq!(parse_line("0"), Some(0));
    assert_eq!(parse_line("007"), Some(7));
}

#[test]
fn parse_leading_plus() {
    assert_eq!(parse_line("+7"), Some(7));
    assert_eq!(parse_line("+0"), Some(0));
}

#[test]
fn parse_rejects_malformed() {
    assert_eq!(parse_line(""), None);
    assert_eq!(parse_line("+"), None);
    assert_eq!(parse_line(" 12"), None);
    assert_eq!(parse_line("12 "), None);
    assert_eq!(parse_line("-3"), None);
    assert_eq!(parse_line("12.5"), None);
    assert_eq!(parse_line("0x10"), None);
    assert_eq!(parse_line("banana"), None);
    assert_eq!(parse_line("++1"), None);
}

#[test]
fn parse_boundary_values() {
    assert_eq!(parse_line("18446744073709551615"), Some(u64::MAX));
    assert_eq!(parse_line("18446744073709551616"), None);
    assert_eq!(parse_line("99999999999999999999999"), None);
}

#[test]
fn parse_agrees_with_std() {
    let samples = [
        "11", "+101", "0", "", "+", "banana", "2 3", "18446744073709551615",
        "18446744073709551616", "007", "-1", "1e3",
    ];
    for s in samples {
        assert_eq!(parse_line(s), s.parse::<u64>().ok(), "sample {:?}", s);
    }
}
