//! The analysis that decides the version bump.

pub mod version_analyzer;

pub use version_analyzer::VersionAnalyzer;
