//! Determines the running operating system's version (major, minor, build,
//! and machine role) from the platform's raw version record, and exposes it
//! as a typed value, as decimal text for installer properties, and through a
//! supportability policy check.

pub mod installer;
pub mod support;
pub mod text;
pub mod version;

pub use crate::installer::set_version_info_plan;
pub use crate::installer::ActionPlan;
pub use crate::installer::Property;
pub use crate::support::run_support_check;
pub use crate::support::CheckOutcome;
pub use crate::text::format_version;
pub use crate::text::parse_u32;
pub use crate::text::parse_version;
pub use crate::text::u32_to_decimal;
pub use crate::version::classify;
pub use crate::version::classify_spec;
pub use crate::version::lemma_query_idempotent;
pub use crate::version::query_result_spec;
pub use crate::version::version_from_query;
pub use crate::version::ProductType;
pub use crate::version::Version;
