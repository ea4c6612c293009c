//! Configuration values and their defaults.

use crate::assoc_map::StringMap;
use crate::text::texts;
use vstd::prelude::*;

verus! {

/// The commit types that are recognised by default.
pub open spec fn default_type_names() -> Seq<Seq<char>> {
    seq![
        "feat"@,
        "fix"@,
        "docs"@,
        "style"@,
        "refactor"@,
        "test"@,
        "chore"@,
        "build"@,
        "ci"@,
        "perf"@,
    ]
}

/// The footers that mark a breaking change by default.
pub open spec fn default_indicator_names() -> Seq<Seq<char>> {
    seq!["BREAKING CHANGE:"@, "BREAKING-CHANGE:"@]
}

/// The default major keywords.
pub open spec fn default_major_names() -> Seq<Seq<char>> {
    seq!["breaking"@, "deprecate"@]
}

/// The default minor keywords.
pub open spec fn default_minor_names() -> Seq<Seq<char>> {
    seq!["feature"@, "feat"@, "enhancement"@]
}

/// The default list of conventional commit types.
pub fn default_commit_types() -> (names: Vec<String>)
    ensures
        texts(names@) == default_type_names(),
{
    let mut names: Vec<String> = Vec::new();
    names.push("feat".to_string());
    names.push("fix".to_string());
    names.push("docs".to_string());
    names.push("style".to_string());
    names.push("refactor".to_string());
    names.push("test".to_string());
    names.push("chore".to_string());
    names.push("build".to_string());
    names.push("ci".to_string());
    names.push("perf".to_string());
    assert(texts(names@) =~= default_type_names());
    names
}

/// The default list of breaking-change indicators.
pub fn default_breaking_change_indicators() -> (names: Vec<String>)
    ensures
        texts(names@) == default_indicator_names(),
{
    let mut names: Vec<String> = Vec::new();
    names.push("BREAKING CHANGE:".to_string());
    names.push("BREAKING-CHANGE:".to_string());
    assert(texts(names@) =~= default_indicator_names());
    names
}

/// The default list of major keywords.
pub fn default_major_keywords() -> (names: Vec<String>)
    ensures
        texts(names@) == default_major_names(),
{
    let mut names: Vec<String> = Vec::new();
    names.push("breaking".to_string());
    names.push("deprecate".to_string());
    assert(texts(names@) =~= default_major_names());
    names
}

/// The default list of minor keywords.
pub fn default_minor_keywords() -> (names: Vec<String>)
    ensures
        texts(names@) == default_minor_names(),
{
    let mut names: Vec<String> = Vec::new();
    names.push("feature".to_string());
    names.push("feat".to_string());
    names.push("enhancement".to_string());
    assert(texts(names@) =~= default_minor_names());
    names
}

/// How commit messages are read.
#[derive(Debug, Clone)]
pub struct ConventionalCommitsConfig {
    /// The commit types in use; informational.
    pub types: Vec<String>,
    /// The footers that mark a breaking change; informational.
    pub breaking_change_indicators: Vec<String>,
    /// Keywords whose presence in a message counts as a feature.
    pub major_keywords: Vec<String>,
    /// Keywords whose presence in a message counts as a feature.
    pub minor_keywords: Vec<String>,
}

/// The mathematical value of a [`ConventionalCommitsConfig`].
pub struct ConventionalCommitsModel {
    pub types: Seq<Seq<char>>,
    pub breaking_change_indicators: Seq<Seq<char>>,
    pub major_keywords: Seq<Seq<char>>,
    pub minor_keywords: Seq<Seq<char>>,
}

impl View for ConventionalCommitsConfig {
    type V = ConventionalCommitsModel;

    open spec fn view(&self) -> ConventionalCommitsModel {
        ConventionalCommitsModel {
            types: texts(self.types@),
            breaking_change_indicators: texts(self.breaking_change_indicators@),
            major_keywords: texts(self.major_keywords@),
            minor_keywords: texts(self.minor_keywords@),
        }
    }
}

impl Default for ConventionalCommitsConfig {
    fn default() -> (config: Self)
        ensures
            config@.types == default_type_names(),
            config@.breaking_change_indicators == default_indicator_names(),
            config@.major_keywords == default_major_names(),
            config@.minor_keywords == default_minor_names(),
    {
        ConventionalCommitsConfig {
            types: default_commit_types(),
            breaking_change_indicators: default_breaking_change_indicators(),
            major_keywords: default_major_keywords(),
            minor_keywords: default_minor_keywords(),
        }
    }
}

/// Behaviour that does not touch the version analysis.
#[derive(Debug, Clone, PartialEq, Default)]
pub struct BehaviorConfig {
    /// With a single remote, take it without asking.
    pub skip_remote_selection: bool,
}

/// The default pre-release identifier.
pub fn default_prerelease_identifier() -> (name: String)
    ensures
        name@ == "alpha"@,
{
    "alpha".to_string()
}

/// Whether iterations are incremented by default.
pub fn default_prerelease_auto_increment() -> (on: bool)
    ensures
        on,
{
    true
}

/// How pre-release versions are handled.
#[derive(Debug, Clone, PartialEq)]
pub struct PreReleaseConfig {
    /// Pre-release versions are in use.
    pub enabled: bool,
    /// The identifier given to a new pre-release.
    pub default_identifier: String,
    /// The iteration number is incremented from one pre-release to the next.
    pub auto_increment: bool,
}

impl Default for PreReleaseConfig {
    fn default() -> (config: Self)
        ensures
            !config.enabled,
            config.default_identifier@ == "alpha"@,
            config.auto_increment,
    {
        PreReleaseConfig {
            enabled: false,
            default_identifier: default_prerelease_identifier(),
            auto_increment: default_prerelease_auto_increment(),
        }
    }
}

/// The scripts that run around the creation of a tag.
#[derive(Debug, Clone, Default)]
pub struct HooksConfig {
    /// Runs before a tag is created.
    pub pre_tag_create: Option<String>,
    /// Runs after a tag was created.
    pub post_tag_create: Option<String>,
    /// Runs after a tag was pushed.
    pub post_push: Option<String>,
}

/// The version formats that are used by default, one for each kind of bump.
pub open spec fn default_formats() -> Map<Seq<char>, Seq<char>> {
    Map::<Seq<char>, Seq<char>>::empty().insert("major"@, "{major}.{minor}.{patch}"@).insert(
        "minor"@,
        "{major}.{minor}.{patch}"@,
    ).insert("patch"@, "{major}.{minor}.{patch}"@)
}

/// The default version formats.
pub fn default_version_format() -> (formats: StringMap)
    ensures
        formats@ == default_formats(),
{
    let mut formats = StringMap::new();
    formats.insert("major".to_string(), "{major}.{minor}.{patch}".to_string());
    formats.insert("minor".to_string(), "{major}.{minor}.{patch}".to_string());
    formats.insert("patch".to_string(), "{major}.{minor}.{patch}".to_string());
    formats
}

/// How versions are written.
#[derive(Debug, Clone)]
pub struct PatternsConfig {
    /// The format of the version for each kind of bump.
    pub version_format: StringMap,
}

impl Default for PatternsConfig {
    fn default() -> (config: Self)
        ensures
            config.version_format@ == default_formats(),
    {
        PatternsConfig { version_format: default_version_format() }
    }
}

/// The tag patterns of the branches that are configured by default.
pub open spec fn default_branches() -> Map<Seq<char>, Seq<char>> {
    Map::<Seq<char>, Seq<char>>::empty().insert("main"@, "v{version}"@).insert(
        "develop"@,
        "d{version}"@,
    ).insert("gray"@, "g{version}"@)
}

/// The whole configuration.
#[derive(Debug, Clone)]
pub struct Config {
    /// The tag pattern of each branch that is tagged.
    pub branches: StringMap,
    pub conventional_commits: ConventionalCommitsConfig,
    pub patterns: PatternsConfig,
    pub behavior: BehaviorConfig,
    pub prerelease: PreReleaseConfig,
    pub hooks: HooksConfig,
}

impl Default for Config {
    fn default() -> (config: Self)
        ensures
            config.branches@ == default_branches(),
            config.conventional_commits@.types == default_type_names(),
            config.conventional_commits@.breaking_change_indicators == default_indicator_names(),
            config.conventional_commits@.major_keywords == default_major_names(),
            config.conventional_commits@.minor_keywords == default_minor_names(),
            config.patterns.version_format@ == default_formats(),
            !config.behavior.skip_remote_selection,
            !config.prerelease.enabled,
            config.prerelease.default_identifier@ == "alpha"@,
            config.prerelease.auto_increment,
            config.hooks.pre_tag_create is None,
            config.hooks.post_tag_create is None,
            config.hooks.post_push is None,
    {
        let mut branches = StringMap::new();
        branches.insert("main".to_string(), "v{version}".to_string());
        branches.insert("develop".to_string(), "d{version}".to_string());
        branches.insert("gray".to_string(), "g{version}".to_string());
        Config {
            branches,
            conventional_commits: ConventionalCommitsConfig::default(),
            patterns: PatternsConfig::default(),
            behavior: BehaviorConfig { skip_remote_selection: false },
            prerelease: PreReleaseConfig::default(),
            hooks: HooksConfig { pre_tag_create: None, post_tag_create: None, post_push: None },
        }
    }
}

} // verus!
