use msiverca::{format_version, parse_u32, parse_version, u32_to_decimal, ProductType, Version};

#[test]
fn decimal_exact_values() {
    assert_eq!(u32_to_decimal(0), "0");
    assert_eq!(u32_to_decimal(7), "7");
    assert_eq!(u32_to_decimal(10), "10");
    assert_eq!(u32_to_decimal(19045), "19045");
    assert_eq!(u32_to_decimal(u32::MAX), "4294967295");
}

#[test]
fn format_version_exact() {
    let v = Version::new(10, 0, 19045, ProductType::Workstation);
    assert_eq!(format_version(&v), "10.0.19045");
    assert_eq!(v.to_text(), "10.0.19045");
    let v = Version::new(6, 3, 9600, ProductType::Server);
    assert_eq!(format_version(&v), "6.3.9600");
}

#[test]
fn parse_u32_accepts_digit_strings() {
    assert_eq!(parse_u32("0"), Some(0));
    assert_eq!(parse_u32("19045"), Some(19045));
    assert_eq!(parse_u32("007"), Some(7));
    assert_eq!(parse_u32("4294967295"), Some(u32::MAX));
}

#[test]
fn parse_u32_rejects_bad_input() {
    assert_eq!(parse_u32(""), None);
    assert_eq!(parse_u32("12a"), None);
    assert_eq!(parse_u32("-1"), None);
    assert_eq!(parse_u32(" 1"), None);
    assert_eq!(parse_u32("4294967296"), None);
    assert_eq!(parse_u32("99999999999999999999"), None);
}

#[test]
fn parse_version_exact() {
    assert_eq!(parse_version("10.0.19045"), Some((10, 0, 19045)));
    assert_eq!(parse_version("6.3.9600"), Some((6, 3, 9600)));
    assert_eq!(parse_version("0.0.0"), Some((0, 0, 0)));
}

#[test]
fn parse_version_rejects_bad_input() {
    assert_eq!(parse_version(""), None);
    assert_eq!(parse_version("10"), None);
    assert_eq!(parse_version("10.0"), None);
    assert_eq!(parse_version("10.0.19045.1"), None);
    assert_eq!(parse_version("10..19045"), None);
    assert_eq!(parse_version(".0.19045"), None);
    assert_eq!(parse_version("10.0."), None);
    assert_eq!(parse_version("a.b.c"), None);
    assert_eq!(parse_version("10.0.4294967296"), None);
}

#[test]
fn format_then_parse_round_trip() {
    let samples = [
        (0u32, 0u32, 0u32),
        (10, 0, 19045),
        (6, 3, 9600),
        (11, 22, 333),
        (u32::MAX, u32::MAX, u32::MAX),
    ];
    for (major, minor, build) in samples {
        let v = Version::new(major, minor, build, ProductType::Unknown);
        let text = format_version(&v);
        assert_eq!(parse_version(&text), Some((major, minor, build)));
    }
}
