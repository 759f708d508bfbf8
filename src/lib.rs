//! Build-time version information: the package version, a build stamp taken
//! from the local clock, and the revision hash of the checkout, assembled into
//! a unit of constants and two formatting functions.
pub mod error;
pub mod manifest;
pub mod revision;
pub mod stamp;
pub mod text;
pub mod unit;
pub mod version;

pub use error::VersionInfoError;
pub use manifest::{package_info, read_infos, ManifestInfo};
pub use revision::revision_hash;
pub use stamp::{build_number_at, build_stamp, make_build_number, CalendarTime};
pub use unit::{assemble, expand_version, VersionUnit, FUNC_ITEMS_SOURCE};
pub use version::{parse_u32_chars, Version};
