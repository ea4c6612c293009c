//! The rules of release tagging, on plain values.

pub mod branch;
pub mod commit;
pub mod prerelease;
pub mod tag;
pub mod version;

pub use branch::BranchContext;
pub use commit::ParsedCommit;
pub use prerelease::{PreRelease, PreReleaseType};
pub use tag::{Tag, TagPattern};
pub use version::{Version, VersionBump};
