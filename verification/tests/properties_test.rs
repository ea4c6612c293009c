use git_publish::analyzer::VersionAnalyzer;
use git_publish::config::ConventionalCommitsConfig;
use git_publish::domain::commit::analyze_version_bump;
use git_publish::domain::{PreRelease, PreReleaseType, TagPattern, Version, VersionBump};
use git_publish::error::GitPublishError;

fn messages(list: &[&str]) -> Vec<String> {
    list.iter().map(|m| m.to_string()).collect()
}

fn default_bump(list: &[&str]) -> VersionBump {
    VersionAnalyzer::new(ConventionalCommitsConfig::default()).analyze_messages(&messages(list))
}

fn bare_config() -> ConventionalCommitsConfig {
    ConventionalCommitsConfig {
        types: Vec::new(),
        breaking_change_indicators: Vec::new(),
        major_keywords: Vec::new(),
        minor_keywords: Vec::new(),
    }
}

fn version_error(tag: &str) -> String {
    match Version::parse(tag) {
        Err(GitPublishError::Version(message)) => message,
        other => panic!("expected a version error for {:?}, got {:?}", tag, other),
    }
}

#[test]
fn test_plain_versions_round_trip() {
    for tag in ["0.0.0", "1.2.3", "10.20.30", "4294967295.4294967295.4294967295", "7.0.100"] {
        assert_eq!(Version::parse(tag).unwrap().to_string(), tag);
    }
}

#[test]
fn test_formatted_versions_parse_back() {
    for (major, minor, patch) in [(0, 0, 0), (1, 2, 3), (u32::MAX, 0, u32::MAX), (9, 10, 11)] {
        let v = Version::new(major, minor, patch);
        assert_eq!(Version::parse(&v.to_string()).unwrap(), v);
    }
    let pre = Version::with_prerelease(
        1,
        0,
        0,
        Some(PreRelease::new(PreReleaseType::Custom("nightly-x".to_string()), Some(12))),
    );
    assert_eq!(pre.to_string(), "1.0.0-nightly-x.12");
    assert_eq!(Version::parse("1.0.0-nightly-x.12").unwrap(), pre);
}

#[test]
fn test_leading_zeros_and_plus_sign_are_read_and_not_written() {
    assert_eq!(Version::parse("01.002.0003").unwrap(), Version::new(1, 2, 3));
    assert_eq!(Version::parse("01.002.0003").unwrap().to_string(), "1.2.3");
    assert_eq!(Version::parse("+1.+2.+3").unwrap(), Version::new(1, 2, 3));
    assert_eq!(
        Version::parse("00000000000000000000004294967295.0.0").unwrap(),
        Version::new(u32::MAX, 0, 0)
    );
}

#[test]
fn test_every_bump_clears_the_prerelease() {
    let v = Version::parse("v3.4.5-rc.9").unwrap();
    assert!(v.prerelease.is_some());
    for kind in [VersionBump::Major, VersionBump::Minor, VersionBump::Patch] {
        assert_eq!(v.bump(&kind).prerelease, None);
    }
    assert_eq!(v.bump(&VersionBump::Major), Version::new(4, 0, 0));
    assert_eq!(v.bump(&VersionBump::Minor), Version::new(3, 5, 0));
    assert_eq!(v.bump(&VersionBump::Patch), Version::new(3, 4, 6));
}

#[test]
fn test_increment_counts_from_one() {
    let none = PreRelease::new(PreReleaseType::Beta, None);
    assert_eq!(none.increment_iteration().iteration, Some(1));
    let zero = PreRelease::new(PreReleaseType::Beta, Some(0));
    assert_eq!(zero.increment_iteration().iteration, Some(1));
    let late = PreRelease::new(PreReleaseType::Custom("x".to_string()), Some(u32::MAX - 1));
    let next = late.increment_iteration();
    assert_eq!(next.iteration, Some(u32::MAX));
    assert_eq!(next.identifier, PreReleaseType::Custom("x".to_string()));
}

#[test]
fn test_breaking_message_wins_wherever_it_stands() {
    assert_eq!(default_bump(&["fix!: a", "docs: b", "feat: c"]), VersionBump::Major);
    assert_eq!(default_bump(&["docs: b", "feat: c", "fix(x)!: a"]), VersionBump::Major);
    assert_eq!(
        default_bump(&["docs: b", "chore: c\n\nBREAKING CHANGE: d", "feat: c"]),
        VersionBump::Major
    );
    assert_eq!(default_bump(&["feat!: a", "fix!: b"]), VersionBump::Major);
}

#[test]
fn test_breaking_signs_in_unconventional_messages_do_not_count() {
    assert_eq!(default_bump(&["Update!: everything"]), VersionBump::Patch);
    assert_eq!(
        analyze_version_bump(&messages(&["wip\n\nBREAKING CHANGE: x"]), &bare_config()),
        VersionBump::Patch
    );
    // the default keyword `breaking` is found in the footer
    assert_eq!(default_bump(&["wip\n\nBREAKING CHANGE: x"]), VersionBump::Minor);
}

#[test]
fn test_feature_without_breaking_is_minor() {
    assert_eq!(default_bump(&["feat: x"]), VersionBump::Minor);
    assert_eq!(default_bump(&["feature: x"]), VersionBump::Minor);
    assert_eq!(default_bump(&["fix: x", "feature(ui): y"]), VersionBump::Minor);
}

#[test]
fn test_keywords_are_sought_in_the_lowercase_message() {
    let config = ConventionalCommitsConfig {
        major_keywords: vec!["removed".to_string()],
        minor_keywords: vec!["added".to_string()],
        ..bare_config()
    };
    assert_eq!(
        analyze_version_bump(&messages(&["docs: ADDED a page"]), &config),
        VersionBump::Minor
    );
    assert_eq!(
        analyze_version_bump(&messages(&["Removed the old API"]), &config),
        VersionBump::Minor
    );
    assert_eq!(
        analyze_version_bump(&messages(&["docs: \u{c4}NDERUNG"]), &ConventionalCommitsConfig {
            minor_keywords: vec!["\u{e4}nderung".to_string()],
            ..bare_config()
        }),
        VersionBump::Minor
    );
    assert_eq!(
        analyze_version_bump(&messages(&["docs: a page"]), &config),
        VersionBump::Patch
    );
}

#[test]
fn test_keywords_are_sought_whatever_their_case() {
    let config = ConventionalCommitsConfig {
        minor_keywords: vec!["Added".to_string()],
        major_keywords: vec!["REMOVED".to_string()],
        ..bare_config()
    };
    for message in ["docs: Added a page", "docs: added a page", "docs: ADDED a page", "removed"] {
        assert_eq!(
            analyze_version_bump(&messages(&[message]), &config),
            VersionBump::Minor,
            "{:?}",
            message
        );
    }
    assert_eq!(
        analyze_version_bump(&messages(&["docs: add a page"]), &config),
        VersionBump::Patch
    );
}

#[test]
fn test_major_keyword_makes_the_bump_minor() {
    assert_eq!(default_bump(&["docs: deprecate the old flag"]), VersionBump::Minor);
    assert_eq!(default_bump(&["fix: nothing breaking here"]), VersionBump::Minor);
}

#[test]
fn test_default_keywords_reach_into_fixes() {
    assert_eq!(default_bump(&["fix: repair the feature flag"]), VersionBump::Minor);
}

#[test]
fn test_fixes_alone_are_a_patch() {
    assert_eq!(default_bump(&["fix: a", "perf: b", "refactor: c"]), VersionBump::Patch);
    assert_eq!(default_bump(&[]), VersionBump::Patch);
    assert_eq!(analyze_version_bump(&[], &bare_config()), VersionBump::Patch);
}

#[test]
fn test_type_alone_decides_without_keywords() {
    let config = bare_config();
    assert_eq!(analyze_version_bump(&messages(&["feat: x"]), &config), VersionBump::Minor);
    assert_eq!(analyze_version_bump(&messages(&["features: x"]), &config), VersionBump::Patch);
    assert_eq!(analyze_version_bump(&messages(&["fix: feature"]), &config), VersionBump::Patch);
}

#[test]
fn test_scenario_lists() {
    assert_eq!(default_bump(&["feat: x", "fix(api)!: y"]), VersionBump::Major);
    assert_eq!(default_bump(&["feat: x", "fix: y"]), VersionBump::Minor);
    assert_eq!(default_bump(&["fix: x", "refactor: y"]), VersionBump::Patch);
    assert_eq!(default_bump(&["docs: x"]), VersionBump::Patch);
}

#[test]
fn test_scenario_minor_release() {
    let next = Version::parse("v1.2.3").unwrap().bump(&VersionBump::Minor);
    assert_eq!(next.to_string(), "1.3.0");
    assert_eq!(TagPattern::new("v{version}").format(&next.to_string()), "v1.3.0");
}

#[test]
fn test_scenario_patch_after_release_candidate() {
    let next = Version::parse("v1.0.0-rc.5").unwrap().bump(&VersionBump::Patch);
    assert_eq!(next.to_string(), "1.0.1");
    assert_eq!(next.prerelease, None);
}

#[test]
fn test_scenario_pattern_matches() {
    let pattern = TagPattern::new("v{version}");
    assert_eq!(pattern.matches("v1.2.3").unwrap(), true);
    assert_eq!(pattern.matches("1.2.3").unwrap(), false);
    assert_eq!(pattern.matches("v1.2.3.4").unwrap(), false);
}

#[test]
fn test_prefix_is_one_letter_before_a_digit() {
    assert_eq!(Version::parse("x1.2.3").unwrap(), Version::new(1, 2, 3));
    assert_eq!(Version::parse("G1.2.3").unwrap(), Version::new(1, 2, 3));
    assert!(Version::parse("vv1.2.3").is_err());
    assert!(Version::parse("v.1.2.3").is_err());
    assert!(Version::parse("\u{e9}1.2.3").is_err());
    assert!(Version::parse("v").is_err());
    assert!(Version::parse("").is_err());
}

#[test]
fn test_version_error_messages() {
    assert_eq!(
        version_error("v1.2"),
        "Invalid version format: 'v1.2' - expected X.Y.Z or X.Y.Z-PRERELEASE"
    );
    assert_eq!(
        version_error("1.2.3.4"),
        "Invalid version format: '1.2.3.4' - expected X.Y.Z or X.Y.Z-PRERELEASE"
    );
    assert_eq!(version_error("a.2.3"), "Invalid major version: a");
    assert_eq!(version_error("1..3"), "Invalid minor version: ");
    assert_eq!(version_error("1.2.x"), "Invalid patch version: x");
    assert_eq!(version_error("4294967296.0.0"), "Invalid major version: 4294967296");
    assert_eq!(version_error("1.-2.3"), "Invalid version format: '1.-2.3' - expected X.Y.Z or X.Y.Z-PRERELEASE");
    assert_eq!(version_error("1.2.3-"), "Empty pre-release identifier");
    assert_eq!(version_error("1.2.3-b@d"), "Invalid pre-release identifier: 'b@d'");
    assert_eq!(version_error("1.2.3-rc.x"), "Invalid iteration number: 'x'");
    assert_eq!(version_error("1.2.3-rc."), "Invalid iteration number: ''");
}

#[test]
fn test_suffix_starts_at_the_first_hyphen() {
    let v = Version::parse("1.2.3-my-build.7").unwrap();
    assert_eq!(
        v.prerelease,
        Some(PreRelease::new(PreReleaseType::Custom("my-build".to_string()), Some(7)))
    );
    assert_eq!(v.to_string(), "1.2.3-my-build.7");
}

#[test]
fn test_iteration_is_all_that_follows_the_first_dot() {
    assert_eq!(
        PreRelease::parse("rc.12").unwrap(),
        PreRelease::new(PreReleaseType::ReleaseCandidate, Some(12))
    );
    assert!(PreRelease::parse("rc.1.2").is_err());
    assert!(PreRelease::parse("rc.1 ").is_err());
    assert!(PreRelease::parse("rc.-1").is_err());
    assert_eq!(PreRelease::parse("rc.+1").unwrap().iteration, Some(1));
    assert_eq!(PreRelease::parse("rc.007").unwrap().to_string(), "rc.7");
    assert_eq!(PreRelease::parse("rc.4294967295").unwrap().iteration, Some(u32::MAX));
    assert!(PreRelease::parse("rc.4294967296").is_err());
}

#[test]
fn test_identifiers_are_read_in_any_case() {
    assert_eq!(PreReleaseType::parse("ALPHA").unwrap(), PreReleaseType::Alpha);
    assert_eq!(PreReleaseType::parse("A").unwrap(), PreReleaseType::Alpha);
    assert_eq!(PreReleaseType::parse("Beta").unwrap(), PreReleaseType::Beta);
    assert_eq!(PreReleaseType::parse("B").unwrap(), PreReleaseType::Beta);
    assert_eq!(PreReleaseType::parse("Rc").unwrap(), PreReleaseType::ReleaseCandidate);
    assert_eq!(
        PreReleaseType::parse("Nightly-2").unwrap(),
        PreReleaseType::Custom("nightly-2".to_string())
    );
    assert_eq!(PreReleaseType::parse("c").unwrap(), PreReleaseType::Custom("c".to_string()));
    assert_eq!(PreRelease::parse("a.1").unwrap().to_string(), "alpha.1");
}

#[test]
fn test_names_hold_ascii_letters_digits_and_hyphens() {
    assert!(PreReleaseType::parse("").is_err());
    assert!(PreReleaseType::parse("caf\u{e9}").is_err());
    assert!(PreReleaseType::parse("\u{212a}").is_err());
    assert!(PreReleaseType::parse("a_b").is_err());
    assert!(PreReleaseType::parse("a b").is_err());
    assert!(PreRelease::parse(".1").is_err());
    assert_eq!(PreReleaseType::parse("-").unwrap(), PreReleaseType::Custom("-".to_string()));
    assert_eq!(PreReleaseType::parse("0").unwrap(), PreReleaseType::Custom("0".to_string()));
}

#[test]
fn test_identifier_from_str() {
    assert_eq!("beta".parse::<PreReleaseType>().unwrap(), PreReleaseType::Beta);
    assert_eq!(
        "Nightly".parse::<PreReleaseType>().unwrap(),
        PreReleaseType::Custom("nightly".to_string())
    );
    assert!("no way".parse::<PreReleaseType>().is_err());
}

#[test]
fn test_feature_signs_in_a_lowered_message() {
    let signs = git_publish::domain::commit::has_feature_signs;
    let none: Vec<String> = Vec::new();
    let words = vec!["feature".to_string(), "enhancement".to_string()];
    assert!(signs("docs: new feature", "docs", &words, &none));
    assert!(signs("docs: new feature", "docs", &none, &words));
    assert!(signs("x", "feat", &none, &none));
    assert!(signs("x", "feature", &none, &none));
    assert!(!signs("docs: FEATURE", "docs", &words, &none));
    assert!(!signs("x", "fix", &none, &none));
    assert!(!signs("x", "Feat", &none, &none));
    assert!(signs("", "docs", &vec!["".to_string()], &none));
}
