use chatbot::domain::semver::{compare_versions, parse_major_minor};
use std::cmp::Ordering::{Equal, Greater, Less};

#[test]
fn semver_parses_plain_version() {
    assert_eq!(parse_major_minor("0.2.0"), Some((0, 2)));
    assert_eq!(parse_major_minor("v1.5.10"), Some((1, 5)));
}

#[test]
fn semver_handles_suffixed_minor() {
    assert_eq!(parse_major_minor("0.2-dev.0"), Some((0, 2)));
    assert_eq!(parse_major_minor("1.0+build"), Some((1, 0)));
}

#[test]
fn semver_rejects_malformed() {
    assert_eq!(parse_major_minor("abc"), None);
    assert_eq!(parse_major_minor("1"), None);
}

#[test]
fn compare_numeric_parts() {
    assert_eq!(compare_versions("0.1.0", "0.1.0"), Equal);
    assert_eq!(compare_versions("0.1.0", "0.1.1"), Less);
    assert_eq!(compare_versions("0.2.0", "0.1.9"), Greater);
    assert_eq!(compare_versions("1.0.0", "0.9.9"), Greater);
}

#[test]
fn compare_prerelease_ordering() {
    assert_eq!(compare_versions("0.1.1-beta.1", "0.1.1"), Less);
    assert_eq!(compare_versions("0.1.1", "0.1.1-beta.1"), Greater);
    assert_eq!(compare_versions("0.1.1-beta.1", "0.1.1-beta.2"), Less);
    assert_eq!(compare_versions("0.1.1-beta.1", "0.1.1-beta.1"), Equal);
}

#[test]
fn compare_prerelease_vs_older_stable() {
    assert_eq!(compare_versions("0.1.1-beta.1", "0.1.0"), Greater);
    assert_eq!(compare_versions("0.1.0", "0.1.1-beta.1"), Less);
}

#[test]
fn compare_ignores_v_prefix() {
    assert_eq!(compare_versions("v0.1.0", "0.1.0"), Equal);
    assert_eq!(compare_versions("v0.1.1", "v0.1.0"), Greater);
}

#[test]
fn compare_is_antisymmetric_on_examples() {
    let vs = ["0.1.0", "0.1.1-beta.1", "0.1.1-beta.2", "0.1.1", "1.0.0", "v2.0.0-rc.1"];
    for a in vs {
        for b in vs {
            assert_eq!(compare_versions(a, b), compare_versions(b, a).reverse());
        }
    }
}

#[test]
fn numeric_prerelease_identifiers_compare_by_value() {
    assert_eq!(compare_versions("0.1.1-beta.10", "0.1.1-beta.2"), Greater);
    assert_eq!(compare_versions("0.1.1-beta.2", "0.1.1-beta.10"), Less);
    assert_eq!(compare_versions("1.0.0-beta.01", "1.0.0-beta.1"), Equal);
    assert_eq!(compare_versions("1.0.0-rc.100", "1.0.0-rc.99"), Greater);
}

#[test]
fn prerelease_precedence_chain() {
    let chain = [
        "1.0.0-alpha",
        "1.0.0-alpha.1",
        "1.0.0-alpha.beta",
        "1.0.0-beta",
        "1.0.0-beta.2",
        "1.0.0-beta.11",
        "1.0.0-rc.1",
        "1.0.0",
    ];
    for i in 0..chain.len() {
        for j in 0..chain.len() {
            let expected = if i < j {
                Less
            } else if i > j {
                Greater
            } else {
                Equal
            };
            assert_eq!(compare_versions(chain[i], chain[j]), expected, "{} vs {}", chain[i], chain[j]);
        }
    }
}

#[test]
fn numeric_identifier_below_alphanumeric() {
    assert_eq!(compare_versions("1.0.0-1", "1.0.0-a"), Less);
    assert_eq!(compare_versions("1.0.0-a", "1.0.0-1"), Greater);
    assert_eq!(compare_versions("1.0.0-1a", "1.0.0-2"), Greater);
}
