//! Which branch is tagged and which remote is used, decided from what the
//! command line names and what the configuration holds.

use crate::assoc_map::StringMap;
use crate::boundary::{BoundaryWarning, WarningModel};
use crate::config::{Config, ConventionalCommitsConfig, ConventionalCommitsModel};
use crate::domain::commit::{analyze_version_bump, bump_for};
use crate::domain::tag::{placeholder, TagPattern};
use crate::domain::version::{version_of, Version, VersionBump, VersionModel};
use crate::error::{model_of, ErrorModel, GitPublishError};
use crate::text::{join, joined, replace_all, same_text, texts};
use vstd::prelude::*;

verus! {

/// What the publish workflow is asked to do.
#[derive(Debug, Clone, PartialEq)]
pub struct PublishWorkflowArgs {
    /// The path of a configuration file of one's own.
    pub config_path: Option<String>,
    /// The branch to tag, where it was named.
    pub branch: Option<String>,
    /// The remote to use, where it was named.
    pub remote: Option<String>,
    /// Do not ask for confirmation.
    pub force: bool,
    /// Show what would be done, and do nothing.
    pub dry_run: bool,
}

/// What the publish workflow did.
#[derive(Debug, Clone, PartialEq)]
pub struct WorkflowResult {
    /// The tag that was created.
    pub tag: String,
    /// The branch that was tagged.
    pub branch: String,
    /// Whether the tag was pushed.
    pub pushed: bool,
}

/// The error for a branch that the configuration does not hold.
pub open spec fn branch_not_configured(branch: Seq<char>) -> ErrorModel {
    ErrorModel::Branch("Branch '"@ + branch + "' is not configured for tagging"@)
}

/// The error for a configuration without branches.
pub open spec fn no_branches() -> ErrorModel {
    ErrorModel::Branch("No branches configured for tagging in gitpublish.toml"@)
}

/// The error for a choice among branches that nothing decides.
pub open spec fn many_branches() -> ErrorModel {
    ErrorModel::Branch(
        "Multiple branches configured - interactive selection not yet implemented in orchestration"@,
    )
}

/// The branch to tag. A branch that was named is taken if it is configured.
/// Where none was named, the one configured branch is taken if there is
/// exactly one.
pub open spec fn branch_choice(specified: Option<Seq<char>>, configured: Seq<Seq<char>>) -> Result<
    Seq<char>,
    ErrorModel,
> {
    match specified {
        Some(branch) => if configured.contains(branch) {
            Ok(branch)
        } else {
            Err(branch_not_configured(branch))
        },
        None => if configured.len() == 0 {
            Err(no_branches())
        } else if configured.len() == 1 {
            Ok(configured[0])
        } else {
            Err(many_branches())
        },
    }
}

/// Selects the branch to tag.
pub fn select_branch_for_workflow(
    specified_branch: Option<String>,
    configured_branches: &StringMap,
) -> (r: Result<String, GitPublishError>)
    ensures
        model_of(r) == branch_choice(
            match specified_branch {
                Some(b) => Some(b@),
                None => None,
            },
            configured_branches.key_order(),
        ),
{
    let count = configured_branches.len();
    match specified_branch {
        Some(branch) => {
            if !configured_branches.contains_key(branch.as_str()) {
                let mut message = "Branch '".to_string();
                message.append(branch.as_str());
                message.append("' is not configured for tagging");
                return Err(GitPublishError::Branch(message));
            }
            Ok(branch)
        },
        None => {
            if count == 0 {
                Err(GitPublishError::branch("No branches configured for tagging in gitpublish.toml"))
            } else if count == 1 {
                let mut names = configured_branches.keys();
                assert(texts(names@)[0] == names@[0]@);
                Ok(names.remove(0))
            } else {
                Err(
                    GitPublishError::branch(
                        "Multiple branches configured - interactive selection not yet implemented in orchestration",
                    ),
                )
            }
        },
    }
}

/// The error for a remote that the repository does not have.
pub open spec fn remote_not_found(remote: Seq<char>, available: Seq<Seq<char>>) -> ErrorModel {
    ErrorModel::Remote(
        "Remote '"@ + remote + "' not found. Available remotes: "@ + joined(available, ", "@),
    )
}

/// The error for a repository without remotes.
pub open spec fn no_remotes() -> ErrorModel {
    ErrorModel::Remote("No remotes configured in this repository"@)
}

/// The error for a choice among remotes that nothing decides.
pub open spec fn many_remotes() -> ErrorModel {
    ErrorModel::Remote(
        "Multiple remotes or interactive selection required - not yet implemented in orchestration"@,
    )
}

/// The remote to use. A remote that was named is taken if the repository
/// has it. Where none was named, the one remote of the repository is taken
/// if there is exactly one and the configuration says not to ask.
pub open spec fn remote_choice(
    specified: Option<Seq<char>>,
    available: Seq<Seq<char>>,
    skip_selection: bool,
) -> Result<Seq<char>, ErrorModel> {
    match specified {
        Some(remote) => if available.contains(remote) {
            Ok(remote)
        } else {
            Err(remote_not_found(remote, available))
        },
        None => if available.len() == 0 {
            Err(no_remotes())
        } else if available.len() == 1 && skip_selection {
            Ok(available[0])
        } else {
            Err(many_remotes())
        },
    }
}

/// Tests whether `name` is among `names`.
fn is_among(names: &[String], name: &str) -> (yes: bool)
    ensures
        yes == texts(names@).contains(name@),
{
    let mut i: usize = 0;
    while i < names.len()
        invariant
            i <= names@.len(),
            forall|j: int| 0 <= j < i ==> texts(names@)[j] != name@,
        decreases names@.len() - i,
    {
        if same_text(names[i].as_str(), name) {
            assert(texts(names@)[i as int] == name@);
            return true;
        }
        i += 1;
    }
    false
}

/// Selects the remote to fetch from and push to.
pub fn select_remote_for_workflow(
    specified_remote: Option<String>,
    available_remotes: &[String],
    config: &Config,
) -> (r: Result<String, GitPublishError>)
    ensures
        model_of(r) == remote_choice(
            match specified_remote {
                Some(name) => Some(name@),
                None => None,
            },
            texts(available_remotes@),
            config.behavior.skip_remote_selection,
        ),
{
    if let Some(remote) = specified_remote {
        if !is_among(available_remotes, remote.as_str()) {
            let mut message = "Remote '".to_string();
            message.append(remote.as_str());
            message.append("' not found. Available remotes: ");
            let list = join(available_remotes, ", ");
            message.append(list.as_str());
            return Err(GitPublishError::Remote(message));
        }
        return Ok(remote);
    }
    if available_remotes.len() == 0 {
        return Err(GitPublishError::remote("No remotes configured in this repository"));
    }
    if available_remotes.len() == 1 && config.behavior.skip_remote_selection {
        assert(texts(available_remotes@)[0] == available_remotes@[0]@);
        return Ok(available_remotes[0].clone());
    }
    Err(
        GitPublishError::remote(
            "Multiple remotes or interactive selection required - not yet implemented in orchestration",
        ),
    )
}

/// What a release comes to: the bump that the commits call for, the version
/// and the tag that follow from it, and what there is to warn of.
#[derive(Debug, Clone, PartialEq)]
pub struct ReleasePlan {
    /// The bump that the commit messages call for.
    pub bump: VersionBump,
    /// The version of the release.
    pub version: Version,
    /// The tag of the release.
    pub tag: String,
    /// Set where the latest tag was read as no version.
    pub warning: Option<BoundaryWarning>,
}

/// The version that a history without usable tag starts with: `0.1.0`.
pub open spec fn initial_version() -> VersionModel {
    VersionModel { major: 0, minor: 1, patch: 0, prerelease: None }
}

/// The reason given for a tag that is read as no version.
pub open spec fn unrecognized() -> Seq<char> {
    "Version number format not recognized"@
}

/// The error for a version whose number cannot be raised.
pub open spec fn no_room(tag: Seq<char>) -> ErrorModel {
    ErrorModel::Version("Version number of tag '"@ + tag + "' cannot be raised"@)
}

/// The version that follows the latest tag. Without a tag, and with a tag
/// that is no version, it is the initial version; else it is the version of
/// the tag, bumped.
pub open spec fn next_version(latest_tag: Option<Seq<char>>, bump: VersionBump) -> VersionModel {
    match latest_tag {
        Some(tag) => match version_of(tag) {
            Ok(v) => v.bumped(bump),
            Err(_) => initial_version(),
        },
        None => initial_version(),
    }
}

/// The warning that the latest tag gives rise to: a tag that is no version
/// is unparsable.
pub open spec fn tag_warning(latest_tag: Option<Seq<char>>) -> Option<WarningModel> {
    match latest_tag {
        Some(tag) => match version_of(tag) {
            Ok(_) => None,
            Err(_) => Some(WarningModel::UnparsableTag { tag, reason: unrecognized() }),
        },
        None => None,
    }
}

/// Whether the version of the latest tag has room for the bump: the number
/// that the bump raises is not the greatest that 32 bits hold.
pub open spec fn has_room(latest_tag: Option<Seq<char>>, bump: VersionBump) -> bool {
    match latest_tag {
        Some(tag) => match version_of(tag) {
            Ok(v) => v.raised(bump) < u32::MAX,
            Err(_) => true,
        },
        None => true,
    }
}

impl ReleasePlan {
    /// The plan is the one that the messages, the latest tag and the
    /// pattern lead to.
    pub open spec fn follows_from(
        self,
        messages: Seq<Seq<char>>,
        latest_tag: Option<Seq<char>>,
        pattern: Seq<char>,
        config: ConventionalCommitsModel,
    ) -> bool {
        &&& self.bump == bump_for(messages, config)
        &&& self.version@ == next_version(latest_tag, self.bump)
        &&& self.tag@ == replace_all(pattern, placeholder(), self.version@.text())
        &&& match self.warning {
            Some(w) => tag_warning(latest_tag) == Some(w@),
            None => tag_warning(latest_tag) is None,
        }
    }
}

/// Plans a release: decides the bump from the commit messages, raises the
/// version of the latest tag by it, and formats the new version with the
/// pattern. A history without tag starts at `0.1.0`; so does one whose
/// latest tag is no version, and the plan then carries a warning. Where the
/// number to raise has no room left, there is no plan.
pub fn plan_release(
    commit_messages: &[String],
    latest_tag: Option<&str>,
    pattern: &TagPattern,
    config: &ConventionalCommitsConfig,
) -> (r: Result<ReleasePlan, GitPublishError>)
    ensures
        match r {
            Ok(plan) => has_room(text_of(latest_tag), plan.bump) && plan.follows_from(
                texts(commit_messages@),
                text_of(latest_tag),
                pattern.pattern@,
                config@,
            ),
            Err(e) => latest_tag matches Some(tag) && !has_room(
                Some(tag@),
                bump_for(texts(commit_messages@), config@),
            ) && e@ == no_room(tag@),
        },
{
    let bump = analyze_version_bump(commit_messages, config);
    let mut warning: Option<BoundaryWarning> = None;
    let version = match latest_tag {
        None => Version::new(0, 1, 0),
        Some(tag) => match Version::parse(tag) {
            Ok(current) => {
                let full = match bump {
                    VersionBump::Major => current.major == u32::MAX,
                    VersionBump::Minor => current.minor == u32::MAX,
                    VersionBump::Patch => current.patch == u32::MAX,
                };
                if full {
                    let mut message = "Version number of tag '".to_string();
                    message.append(tag);
                    message.append("' cannot be raised");
                    return Err(GitPublishError::Version(message));
                }
                current.bump(&bump)
            },
            Err(_) => {
                warning = Some(
                    BoundaryWarning::UnparsableTag {
                        tag: tag.to_string(),
                        reason: "Version number format not recognized".to_string(),
                    },
                );
                Version::new(0, 1, 0)
            },
        },
    };
    let text = version.to_string();
    let tag = pattern.format(text.as_str());
    Ok(ReleasePlan { bump, version, tag, warning })
}

/// The text of an optional string slice.
pub open spec fn text_of(s: Option<&str>) -> Option<Seq<char>> {
    match s {
        Some(t) => Some(t@),
        None => None,
    }
}

} // verus!
