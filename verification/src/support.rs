use vstd::prelude::*;

use crate::version::ProductType;
use crate::version::Version;

verus! {

/// The process exit status that reports "supported or undetermined".
pub const EXIT_SUCCESS: u32 = 0;

/// The process exit status that reports an unsupported version.
pub const EXIT_FAILURE: u32 = 1;

/// The supportability policy. Workstations need a major version of at
/// least 11; domain controllers and servers need at least 6.3; an unknown
/// role is unconstrained.
pub open spec fn version_supported(v: Version) -> bool {
    match v.product_type {
        ProductType::Workstation => v.major >= 11,
        ProductType::DomainController | ProductType::Server => v.major > 6 || (v.major == 6
            && v.minor >= 3),
        ProductType::Unknown => true,
    }
}

/// Whether a query outcome passes the support check: a failed query is
/// treated as undetermined and passes (fail-open), a successful one is
/// held to the supportability policy.
pub open spec fn query_supported(query: Result<Version, u32>) -> bool {
    match query {
        Ok(v) => version_supported(v),
        Err(_) => true,
    }
}

/// The outcome of the support check: the process exit status to report,
/// and the message of the blocking notification to present, if any.
pub struct CheckOutcome {
    pub exit_status: u32,
    pub notification: Option<&'static str>,
}

/// The fixed title of the support check's notification dialog.
pub fn dialog_title() -> (t: &'static str)
    ensures
        t@ == "Example"@,
{
    "Example"
}

/// The threshold message shown for an unsupported version, by role.
pub fn unsupported_message(v: &Version) -> (m: &'static str)
    requires
        !version_supported(*v),
    ensures
        v.product_type == ProductType::Workstation ==> m@ == "Supported on Windows 10 and newer"@,
        v.product_type != ProductType::Workstation ==> m@
            == "Supported on Windows Server 2012 and newer"@,
{
    if matches!(v.product_type, ProductType::Workstation) {
        "Supported on Windows 10 and newer"
    } else {
        "Supported on Windows Server 2012 and newer"
    }
}

/// Runs the support check on a query outcome. A failed query or a
/// supported version yields a zero exit status and no notification. An
/// unsupported version yields a non-zero exit status, with the
/// role-specific threshold message unless quiet mode suppresses it.
pub fn run_support_check(query: &Result<Version, u32>, quiet: bool) -> (outcome: CheckOutcome)
    ensures
        query_supported(*query) ==> outcome.exit_status == EXIT_SUCCESS
            && outcome.notification is None,
        !query_supported(*query) ==> {
            &&& outcome.exit_status == EXIT_FAILURE
            &&& quiet ==> outcome.notification is None
            &&& !quiet ==> {
                &&& outcome.notification is Some
                &&& (query matches Ok(v) ==> (v.product_type == ProductType::Workstation
                    ==> outcome.notification->0@ == "Supported on Windows 10 and newer"@) && (
                v.product_type != ProductType::Workstation ==> outcome.notification->0@
                    == "Supported on Windows Server 2012 and newer"@))
            }
        },
{
    match query {
        Err(_) => CheckOutcome { exit_status: EXIT_SUCCESS, notification: None },
        Ok(v) => {
            let supported = match v.product_type {
                ProductType::Workstation => v.major >= 11,
                ProductType::DomainController | ProductType::Server => v.major > 6 || (v.major == 6
                    && v.minor >= 3),
                ProductType::Unknown => true,
            };
            if supported {
                CheckOutcome { exit_status: EXIT_SUCCESS, notification: None }
            } else if quiet {
                CheckOutcome { exit_status: EXIT_FAILURE, notification: None }
            } else {
                CheckOutcome {
                    exit_status: EXIT_FAILURE,
                    notification: Some(unsupported_message(v)),
                }
            }
        },
    }
}

} // verus!
