//! The analyzer: a configuration, and the bump it reads from commit messages.

use crate::config::{ConventionalCommitsConfig, ConventionalCommitsModel};
use crate::domain::commit::{analyze_version_bump, bump_for};
use crate::domain::VersionBump;
use crate::error::GitPublishError;
use crate::git::{messages_of, CommitInfo, Oid, Repository};
use crate::text::texts;
use vstd::prelude::*;

verus! {

/// Decides version bumps under one configuration.
pub struct VersionAnalyzer {
    config: ConventionalCommitsConfig,
}

impl View for VersionAnalyzer {
    type V = ConventionalCommitsModel;

    /// The configuration that the analyzer works under.
    closed spec fn view(&self) -> ConventionalCommitsModel {
        self.config@
    }
}

impl VersionAnalyzer {
    /// An analyzer that works under `config`.
    pub fn new(config: ConventionalCommitsConfig) -> (analyzer: VersionAnalyzer)
        ensures
            analyzer@ == config@,
    {
        VersionAnalyzer { config }
    }

    /// Asks the repository for the commits after `from_oid` up to `to_oid`
    /// and decides the bump from their messages. An error of the repository
    /// is handed on.
    pub fn analyze_repository_range<R: Repository>(
        &self,
        repo: &R,
        from_oid: Oid,
        to_oid: Oid,
    ) -> (r: Result<VersionBump, GitPublishError>)
        ensures
            match r {
                Ok(bump) => exists|commits: Vec<CommitInfo>| #[trigger]
                    repo.gives_commits(
                        from_oid,
                        to_oid,
                        Ok(commits),
                    ) && bump == bump_for(messages_of(commits@), self@),
                Err(e) => repo.gives_commits(from_oid, to_oid, Err(e)),
            },
    {
        match repo.get_commits_between(from_oid, to_oid) {
            Ok(commits) => {
                let bump = self.analyze_commits(commits.as_slice());
                assert(repo.gives_commits(from_oid, to_oid, Ok(commits)));
                Ok(bump)
            },
            Err(e) => Err(e),
        }
    }

    /// The bump that the messages of the commits call for.
    pub fn analyze_commits(&self, commits: &[CommitInfo]) -> (bump: VersionBump)
        ensures
            bump == bump_for(messages_of(commits@), self@),
    {
        let mut messages: Vec<String> = Vec::new();
        let mut i: usize = 0;
        while i < commits.len()
            invariant
                i <= commits@.len(),
                messages@.len() == i,
                forall|j: int| 0 <= j < i ==> (#[trigger] messages@[j])@ == commits@[j].message@,
            decreases commits@.len() - i,
        {
            messages.push(commits[i].message.clone());
            i += 1;
        }
        assert(texts(messages@) =~= messages_of(commits@));
        self.analyze_messages(messages.as_slice())
    }

    /// The bump that the messages call for: major if one of them breaks,
    /// else minor if one of them is a feature, else patch.
    pub fn analyze_messages(&self, messages: &[String]) -> (bump: VersionBump)
        ensures
            bump == bump_for(texts(messages@), self@),
    {
        analyze_version_bump(messages, &self.config)
    }
}

} // verus!
