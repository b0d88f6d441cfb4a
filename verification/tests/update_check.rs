use chatbot::update_check::parse_major_minor;

#[test]
fn update_check_parses_plain_version() {
    assert_eq!(parse_major_minor("0.2.0"), Some((0, 2)));
    assert_eq!(parse_major_minor("v1.5.10"), Some((1, 5)));
}

#[test]
fn update_check_handles_suffixed_minor() {
    assert_eq!(parse_major_minor("0.2-dev.0"), Some((0, 2)));
    assert_eq!(parse_major_minor("1.0+build"), Some((1, 0)));
}

#[test]
fn update_check_rejects_malformed() {
    assert_eq!(parse_major_minor("abc"), None);
    assert_eq!(parse_major_minor("1"), None);
}
