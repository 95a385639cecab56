use vstd::prelude::*;

use crate::text::dec_rep;
use crate::text::u32_to_decimal;
use crate::version::Version;

verus! {

/// The installer engine's status code for success.
pub const ERROR_SUCCESS: u32 = 0;

/// The installer engine's status code for an installation failure.
pub const ERROR_INSTALL_FAILURE: u32 = 1603;

/// One installer property to write: a name and its string value.
pub struct Property {
    pub name: String,
    pub value: String,
}

/// Everything the custom action asks of the installer engine: the
/// properties to write into the session, in order, and the status code to
/// return to the engine.
pub struct ActionPlan {
    pub properties: Vec<Property>,
    pub status: u32,
}

/// The property names and values a successful query publishes: the three
/// version components as decimal strings.
pub open spec fn version_properties_spec(v: Version) -> Seq<(Seq<char>, Seq<char>)> {
    seq![
        ("VER_WINDOWS_MAJOR"@, dec_rep(v.major as nat)),
        ("VER_WINDOWS_MINOR"@, dec_rep(v.minor as nat)),
        ("VER_WINDOWS_BUILD"@, dec_rep(v.build as nat)),
    ]
}

/// Whether a plan's property list matches a name/value sequence entry for
/// entry.
pub open spec fn properties_match(
    properties: Seq<Property>,
    expected: Seq<(Seq<char>, Seq<char>)>,
) -> bool {
    &&& properties.len() == expected.len()
    &&& forall|k: int|
        0 <= k < expected.len() ==> (#[trigger] properties[k]).name@ == expected[k].0
            && properties[k].value@ == expected[k].1
}

/// Decides what the version-info custom action does for a given query
/// result. A failed query publishes nothing and reports the fixed
/// installation-failure code — the native error is collapsed at this
/// boundary by design. A successful query publishes the three version
/// components as decimal strings and reports success.
pub fn set_version_info_plan(query: &Result<Version, u32>) -> (plan: ActionPlan)
    ensures
        match *query {
            Ok(v) => plan.status == ERROR_SUCCESS && properties_match(
                plan.properties@,
                version_properties_spec(v),
            ),
            Err(_) => plan.status == ERROR_INSTALL_FAILURE && plan.properties@.len() == 0,
        },
{
    match query {
        Err(_) => ActionPlan { properties: Vec::new(), status: ERROR_INSTALL_FAILURE },
        Ok(v) => {
            let mut properties: Vec<Property> = Vec::new();
            properties.push(
                Property {
                    name: String::from_str("VER_WINDOWS_MAJOR"),
                    value: u32_to_decimal(v.major),
                },
            );
            properties.push(
                Property {
                    name: String::from_str("VER_WINDOWS_MINOR"),
                    value: u32_to_decimal(v.minor),
                },
            );
            properties.push(
                Property {
                    name: String::from_str("VER_WINDOWS_BUILD"),
                    value: u32_to_decimal(v.build),
                },
            );
            ActionPlan { properties, status: ERROR_SUCCESS }
        },
    }
}

} // verus!
