//! Conventional commits over the plain three-number versions.

use crate::config::ConventionalCommitsConfig;
use crate::domain::commit::{analyze_version_bump, bump_for, parsed, CommitModel};
use crate::text::texts;
pub use crate::version::VersionBump;
use vstd::prelude::*;

verus! {

/// What a commit message says, once parsed.
#[derive(Debug, PartialEq)]
pub struct ParsedCommit {
    pub commit_type: String,
    pub scope: Option<String>,
    pub description: String,
    pub is_breaking_change: bool,
}

impl View for ParsedCommit {
    type V = CommitModel;

    open spec fn view(&self) -> CommitModel {
        CommitModel {
            commit_type: self.commit_type@,
            scope: match self.scope {
                Some(s) => Some(s@),
                None => None,
            },
            description: self.description@,
            is_breaking_change: self.is_breaking_change,
        }
    }
}

/// The bump of the plain versions that stands for a bump.
pub open spec fn plain_bump(bump: crate::domain::VersionBump) -> VersionBump {
    match bump {
        crate::domain::VersionBump::Major => VersionBump::Major,
        crate::domain::VersionBump::Minor => VersionBump::Minor,
        crate::domain::VersionBump::Patch => VersionBump::Patch,
    }
}

/// Parses a commit message. There is always a result: a message without a
/// conventional header is a `chore` that breaks nothing.
pub fn parse_conventional_commit(message: &str) -> (found: Option<ParsedCommit>)
    ensures
        found matches Some(commit) && commit@ == parsed(message@),
{
    let commit = crate::domain::ParsedCommit::parse(message);
    Some(
        ParsedCommit {
            commit_type: commit.commit_type,
            scope: commit.scope,
            description: commit.description,
            is_breaking_change: commit.is_breaking_change,
        },
    )
}

/// Decides the version bump that a list of commit messages calls for: major
/// if one of them breaks, else minor if one of them is a feature, else patch.
pub fn determine_version_bump(commit_messages: &[String], config: &ConventionalCommitsConfig) -> (bump:
    VersionBump)
    ensures
        bump == plain_bump(bump_for(texts(commit_messages@), config@)),
{
    match analyze_version_bump(commit_messages, config) {
        crate::domain::VersionBump::Major => VersionBump::Major,
        crate::domain::VersionBump::Minor => VersionBump::Minor,
        crate::domain::VersionBump::Patch => VersionBump::Patch,
    }
}

} // verus!
