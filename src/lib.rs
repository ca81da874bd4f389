//! Version manager for the ylem compiler: release catalogs, checksum-verified
//! downloads, install layout and the on-disk version registry.
use vstd::prelude::*;

pub mod checksum;
pub mod error;
pub mod pipeline;
pub mod platform;
pub mod registry;
pub mod releases;
pub mod text;
pub mod version;

pub use error::YlemVmError;
pub use platform::{platform_of, Platform};
pub use registry::{global_version_path, version_path};
pub use releases::{all_releases, artifact_url, parse_error_msg, BuildInfo, Release, ReleaseManifest, ReleaseTables, Releases};
pub use version::Version;

verus! {

} // verus!
