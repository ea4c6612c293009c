//! Release tagging from commit history: conventional-commit parsing, the
//! version-bump decision, semantic versions with pre-release identifiers, and
//! tag patterns.

pub mod analyzer;
pub mod assoc_map;
pub mod boundary;
pub mod cli;
pub mod config;
pub mod conventional;
pub mod domain;
pub mod error;
pub mod git;
pub mod hooks;
pub mod text;
pub mod ui;
pub mod version;

pub use domain::VersionBump;
pub use error::{GitPublishError, Result};
