use msiverca::{classify, version_from_query, ProductType, Version};

#[test]
fn classify_known_codes() {
    assert_eq!(classify(0), ProductType::Unknown);
    assert_eq!(classify(1), ProductType::Workstation);
    assert_eq!(classify(2), ProductType::DomainController);
    assert_eq!(classify(3), ProductType::Server);
}

#[test]
fn classify_unknown_codes() {
    assert_eq!(classify(4), ProductType::Unknown);
    assert_eq!(classify(7), ProductType::Unknown);
    assert_eq!(classify(100), ProductType::Unknown);
    assert_eq!(classify(255), ProductType::Unknown);
}

#[test]
fn classify_total_over_all_bytes() {
    for code in 0u16..=255 {
        let t = classify(code as u8);
        let expected = match code {
            1 => ProductType::Workstation,
            2 => ProductType::DomainController,
            3 => ProductType::Server,
            _ => ProductType::Unknown,
        };
        assert_eq!(t, expected);
    }
}

#[test]
fn version_new_and_getters() {
    let v = Version::new(10, 0, 19045, ProductType::Workstation);
    assert_eq!(v.major(), 10);
    assert_eq!(v.minor(), 0);
    assert_eq!(v.build(), 19045);
    assert_eq!(v.product_type(), ProductType::Workstation);
}

#[test]
fn version_default_is_zero_unknown() {
    let v = Version::default();
    assert_eq!(v.major(), 0);
    assert_eq!(v.minor(), 0);
    assert_eq!(v.build(), 0);
    assert_eq!(v.product_type(), ProductType::Unknown);
    assert_eq!(ProductType::default(), ProductType::Unknown);
}

#[test]
fn query_success_populates_every_field() {
    let r = version_from_query(0, 10, 0, 22631, 1);
    let v = r.unwrap();
    assert_eq!(v.major(), 10);
    assert_eq!(v.minor(), 0);
    assert_eq!(v.build(), 22631);
    assert_eq!(v.product_type(), ProductType::Workstation);
}

#[test]
fn query_failure_propagates_status_unchanged() {
    let r = version_from_query(0xC0000001, 10, 0, 22631, 1);
    assert_eq!(r.unwrap_err(), 0xC0000001);
    let r = version_from_query(5, 0, 0, 0, 0);
    assert_eq!(r.unwrap_err(), 5);
}

#[test]
fn query_is_deterministic_for_one_snapshot() {
    let a = version_from_query(0, 6, 3, 9600, 3).unwrap();
    let b = version_from_query(0, 6, 3, 9600, 3).unwrap();
    assert_eq!(a.major(), b.major());
    assert_eq!(a.minor(), b.minor());
    assert_eq!(a.build(), b.build());
    assert_eq!(a.product_type(), b.product_type());
}

#[test]
fn query_unrecognized_role_resolves_to_unknown() {
    let v = version_from_query(0, 10, 0, 19045, 9).unwrap();
    assert_eq!(v.product_type(), ProductType::Unknown);
}

#[test]
fn product_type_text() {
    assert_eq!(ProductType::Unknown.to_text(), "(unknown)");
    assert_eq!(ProductType::Workstation.to_text(), "workstation");
    assert_eq!(ProductType::DomainController.to_text(), "domain controller");
    assert_eq!(ProductType::Server.to_text(), "server");
}
