use git_publish::domain::{Tag, TagPattern};
use git_publish::error::GitPublishError;

#[test]
fn test_format_replaces_every_placeholder() {
    assert_eq!(TagPattern::new("{version}-{version}").format("1.0.0"), "1.0.0-1.0.0");
    assert_eq!(TagPattern::new("{version}{version}").format("ab"), "abab");
    assert_eq!(TagPattern::new("no placeholder").format("1.0.0"), "no placeholder");
    assert_eq!(TagPattern::new("").format("1.0.0"), "");
    assert_eq!(TagPattern::new("{version").format("1.0.0"), "{version");
    assert_eq!(TagPattern::new("{{version}}").format("1"), "{1}");
    assert_eq!(TagPattern::new("v{version}").format(""), "v");
    assert_eq!(TagPattern::new("v{version}").format("{version}"), "v{version}");
    assert_eq!(TagPattern::new("{versio{version}n}").format("X"), "{versioXn}");
}

#[test]
fn test_literal_characters_of_a_pattern_match_themselves() {
    let dotted = TagPattern::new("v.{version}");
    assert_eq!(dotted.matches("v.1.2.3").unwrap(), true);
    assert_eq!(dotted.matches("vx1.2.3").unwrap(), false);
    let starred = TagPattern::new("rel*{version}+");
    assert_eq!(starred.matches("rel*1.2.3+").unwrap(), true);
    assert_eq!(starred.matches("rell1.2.3+").unwrap(), false);
    let grouped = TagPattern::new("(a|b)[{version}]$^");
    assert_eq!(grouped.matches("(a|b)[1.2.3]$^").unwrap(), true);
    assert_eq!(grouped.matches("a[1.2.3]").unwrap(), false);
    let slashed = TagPattern::new("a\\d{version}");
    assert_eq!(slashed.matches("a\\d1.2.3").unwrap(), true);
    assert_eq!(slashed.matches("a51.2.3").unwrap(), false);
}

#[test]
fn test_match_covers_the_whole_tag() {
    let pattern = TagPattern::new("v{version}");
    assert_eq!(pattern.matches("xv1.2.3").unwrap(), false);
    assert_eq!(pattern.matches("v1.2.3 ").unwrap(), false);
    assert_eq!(pattern.matches("v1.2.3-rc.1").unwrap(), false);
    assert_eq!(pattern.matches("v1.2.").unwrap(), false);
    assert_eq!(pattern.matches("v..").unwrap(), false);
    assert_eq!(pattern.matches("v007.0.10").unwrap(), true);
    assert_eq!(pattern.matches("").unwrap(), false);
}

#[test]
fn test_match_with_two_placeholders() {
    let pattern = TagPattern::new("{version}/{version}");
    assert_eq!(pattern.matches("1.2.3/4.5.6").unwrap(), true);
    assert_eq!(pattern.matches("1.2.3/").unwrap(), false);
}

#[test]
fn test_pattern_without_placeholder_is_an_error() {
    for template in ["", "v", "{version", "version}", "{Version}", "{ version }"] {
        match TagPattern::new(template).matches("v1.2.3") {
            Err(GitPublishError::Tag(message)) => {
                assert_eq!(message, "Pattern must contain {version} placeholder")
            }
            other => panic!("expected a tag error for {:?}, got {:?}", template, other),
        }
    }
}

#[test]
fn test_verdict_of_a_search() {
    assert_eq!(TagPattern::verdict(Some(true)).unwrap(), true);
    assert_eq!(TagPattern::verdict(Some(false)).unwrap(), false);
    match TagPattern::verdict(None) {
        Err(GitPublishError::Tag(message)) => assert_eq!(message, "Invalid pattern"),
        other => panic!("expected a tag error, got {:?}", other),
    }
}

#[test]
fn test_version_part_drops_small_then_capital_vs() {
    assert_eq!(Tag::new("vvV1.0.0").version_part().unwrap(), "1.0.0");
    assert_eq!(Tag::new("Vv1.0.0").version_part().unwrap(), "v1.0.0");
    assert_eq!(Tag::new("vVv1.0.0").version_part().unwrap(), "v1.0.0");
    assert_eq!(Tag::new("v").version_part().unwrap(), "");
    assert_eq!(Tag::new("").version_part().unwrap(), "");
    assert_eq!(Tag::new("1.0.0v").version_part().unwrap(), "1.0.0v");
}
