use msiverca::installer::{ERROR_INSTALL_FAILURE, ERROR_SUCCESS};
use msiverca::{set_version_info_plan, ProductType, Version};

#[test]
fn successful_query_publishes_three_properties() {
    let query = Ok(Version::new(10, 0, 19045, ProductType::Workstation));
    let plan = set_version_info_plan(&query);
    assert_eq!(plan.status, ERROR_SUCCESS);
    assert_eq!(plan.status, 0);
    assert_eq!(plan.properties.len(), 3);
    assert_eq!(plan.properties[0].name, "VER_WINDOWS_MAJOR");
    assert_eq!(plan.properties[0].value, "10");
    assert_eq!(plan.properties[1].name, "VER_WINDOWS_MINOR");
    assert_eq!(plan.properties[1].value, "0");
    assert_eq!(plan.properties[2].name, "VER_WINDOWS_BUILD");
    assert_eq!(plan.properties[2].value, "19045");
}

#[test]
fn failed_query_publishes_nothing_and_fails_the_action() {
    let query: Result<Version, u32> = Err(0xC0000001);
    let plan = set_version_info_plan(&query);
    assert_eq!(plan.status, ERROR_INSTALL_FAILURE);
    assert_eq!(plan.status, 1603);
    assert_eq!(plan.properties.len(), 0);
}

#[test]
fn failure_code_does_not_depend_on_the_native_error() {
    for err in [1u32, 5, 87, 0xC0000001] {
        let plan = set_version_info_plan(&Err(err));
        assert_eq!(plan.status, 1603);
        assert_eq!(plan.properties.len(), 0);
    }
}

#[test]
fn zero_components_publish_zero_strings() {
    let query = Ok(Version::new(0, 0, 0, ProductType::Unknown));
    let plan = set_version_info_plan(&query);
    assert_eq!(plan.status, 0);
    assert_eq!(plan.properties[0].value, "0");
    assert_eq!(plan.properties[1].value, "0");
    assert_eq!(plan.properties[2].value, "0");
}
