//! Conditions that are worth a warning and stop nothing.

use crate::text::{chars_of, push_chars};
use vstd::prelude::*;
use vstd::slice::slice_subrange;

verus! {

/// A warning about the tags at hand.
#[derive(Debug, Clone, PartialEq)]
pub enum BoundaryWarning {
    /// Nothing was committed since the latest tag.
    NoNewCommits { latest_tag: String, current_commit_hash: String },
    /// A tag is there, and is no version.
    UnparsableTag { tag: String, reason: String },
    /// A tag is there, and does not match the configured pattern.
    TagMismatchPattern { tag: String, pattern: String },
    /// The remote refused the credentials during a fetch.
    FetchAuthenticationFailed { remote: String },
}

/// The mathematical value of a [`BoundaryWarning`].
pub enum WarningModel {
    NoNewCommits { latest_tag: Seq<char>, current_commit_hash: Seq<char> },
    UnparsableTag { tag: Seq<char>, reason: Seq<char> },
    TagMismatchPattern { tag: Seq<char>, pattern: Seq<char> },
    FetchAuthenticationFailed { remote: Seq<char> },
}

impl View for BoundaryWarning {
    type V = WarningModel;

    open spec fn view(&self) -> WarningModel {
        match self {
            BoundaryWarning::NoNewCommits {
                latest_tag,
                current_commit_hash,
            } => WarningModel::NoNewCommits {
                latest_tag: latest_tag@,
                current_commit_hash: current_commit_hash@,
            },
            BoundaryWarning::UnparsableTag { tag, reason } => WarningModel::UnparsableTag {
                tag: tag@,
                reason: reason@,
            },
            BoundaryWarning::TagMismatchPattern {
                tag,
                pattern,
            } => WarningModel::TagMismatchPattern { tag: tag@, pattern: pattern@ },
            BoundaryWarning::FetchAuthenticationFailed {
                remote,
            } => WarningModel::FetchAuthenticationFailed { remote: remote@ },
        }
    }
}

/// A commit hash as it is shown: its first seven characters, or all of it
/// where it has no more.
pub open spec fn short_hash(hash: Seq<char>) -> Seq<char> {
    if hash.len() > 7 {
        hash.subrange(0, 7)
    } else {
        hash
    }
}

impl WarningModel {
    /// The text shown for the warning.
    pub open spec fn text(self) -> Seq<char> {
        match self {
            WarningModel::NoNewCommits { latest_tag, current_commit_hash } => {
                "No new commits since tag '"@ + latest_tag + "' (current: "@ + short_hash(
                    current_commit_hash,
                ) + ")"@
            },
            WarningModel::UnparsableTag { tag, reason } => {
                "Cannot parse tag '"@ + tag + "': "@ + reason
            },
            WarningModel::TagMismatchPattern { tag, pattern } => {
                "Tag '"@ + tag + "' does not match pattern '"@ + pattern + "'"@
            },
            WarningModel::FetchAuthenticationFailed { remote } => {
                "Authentication failed when fetching from remote '"@ + remote + "'"@
            },
        }
    }
}

impl BoundaryWarning {
    /// The text shown for the warning.
    pub fn to_string(&self) -> (out: String)
        ensures
            out@ == self@.text(),
    {
        match self {
            BoundaryWarning::NoNewCommits { latest_tag, current_commit_hash } => {
                let hash = chars_of(current_commit_hash.as_str());
                let shown = if hash.len() > 7 {
                    slice_subrange(hash.as_slice(), 0, 7)
                } else {
                    hash.as_slice()
                };
                let mut out = "No new commits since tag '".to_string();
                out.append(latest_tag.as_str());
                out.append("' (current: ");
                push_chars(&mut out, shown);
                out.append(")");
                out
            },
            BoundaryWarning::UnparsableTag { tag, reason } => {
                let mut out = "Cannot parse tag '".to_string();
                out.append(tag.as_str());
                out.append("': ");
                out.append(reason.as_str());
                out
            },
            BoundaryWarning::TagMismatchPattern { tag, pattern } => {
                let mut out = "Tag '".to_string();
                out.append(tag.as_str());
                out.append("' does not match pattern '");
                out.append(pattern.as_str());
                out.append("'");
                out
            },
            BoundaryWarning::FetchAuthenticationFailed { remote } => {
                let mut out = "Authentication failed when fetching from remote '".to_string();
                out.append(remote.as_str());
                out.append("'");
                out
            },
        }
    }
}

} // verus!
