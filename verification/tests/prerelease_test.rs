use git_publish::domain::{PreRelease, PreReleaseType};

// PreReleaseType tests
#[test]
fn test_prerelease_type_parse_alpha() {
    let pr = PreReleaseType::parse("alpha").unwrap();
    assert_eq!(pr, PreReleaseType::Alpha);
}

#[test]
fn test_prerelease_type_parse_alpha_short() {
    let pr = PreReleaseType::parse("a").unwrap();
    assert_eq!(pr, PreReleaseType::Alpha);
}

#[test]
fn test_prerelease_type_parse_beta() {
    let pr = PreReleaseType::parse("beta").unwrap();
    assert_eq!(pr, PreReleaseType::Beta);
}

#[test]
fn test_prerelease_type_parse_beta_short() {
    let pr = PreReleaseType::parse("b").unwrap();
    assert_eq!(pr, PreReleaseType::Beta);
}

#[test]
fn test_prerelease_type_parse_rc() {
    let pr = PreReleaseType::parse("rc").unwrap();
    assert_eq!(pr, PreReleaseType::ReleaseCandidate);
}

#[test]
fn test_prerelease_type_parse_custom() {
    let pr = PreReleaseType::parse("custom-name").unwrap();
    assert_eq!(pr, PreReleaseType::Custom("custom-name".to_string()));
}

#[test]
fn test_prerelease_type_parse_custom_numeric() {
    let pr = PreReleaseType::parse("test123").unwrap();
    assert_eq!(pr, PreReleaseType::Custom("test123".to_string()));
}

#[test]
fn test_prerelease_type_parse_invalid() {
    assert!(PreReleaseType::parse("invalid!name").is_err());
    assert!(PreReleaseType::parse("invalid.name").is_err());
}

#[test]
fn test_prerelease_type_display_alpha() {
    assert_eq!(PreReleaseType::Alpha.to_string(), "alpha");
}

#[test]
fn test_prerelease_type_display_beta() {
    assert_eq!(PreReleaseType::Beta.to_string(), "beta");
}

#[test]
fn test_prerelease_type_display_rc() {
    assert_eq!(PreReleaseType::ReleaseCandidate.to_string(), "rc");
}

#[test]
fn test_prerelease_type_display_custom() {
    assert_eq!(PreReleaseType::Custom("dev".to_string()).to_string(), "dev");
}

// PreRelease tests
#[test]
fn test_prerelease_parse_with_iteration() {
    let pr = PreRelease::parse("beta.1").unwrap();
    assert_eq!(pr.identifier, PreReleaseType::Beta);
    assert_eq!(pr.iteration, Some(1));
}

#[test]
fn test_prerelease_parse_no_iteration() {
    let pr = PreRelease::parse("alpha").unwrap();
    assert_eq!(pr.identifier, PreReleaseType::Alpha);
    assert_eq!(pr.iteration, None);
}

#[test]
fn test_prerelease_parse_rc_with_iteration() {
    let pr = PreRelease::parse("rc.2").unwrap();
    assert_eq!(pr.identifier, PreReleaseType::ReleaseCandidate);
    assert_eq!(pr.iteration, Some(2));
}

#[test]
fn test_prerelease_parse_custom_with_iteration() {
    let pr = PreRelease::parse("dev.5").unwrap();
    assert_eq!(pr.identifier, PreReleaseType::Custom("dev".to_string()));
    assert_eq!(pr.iteration, Some(5));
}

#[test]
fn test_prerelease_parse_invalid_iteration() {
    assert!(PreRelease::parse("beta.abc").is_err());
}

#[test]
fn test_prerelease_parse_empty() {
    assert!(PreRelease::parse("").is_err());
}

#[test]
fn test_prerelease_increment_with_iteration() {
    let pr = PreRelease::parse("beta.1").unwrap();
    let incremented = pr.increment_iteration();
    assert_eq!(incremented.identifier, PreReleaseType::Beta);
    assert_eq!(incremented.iteration, Some(2));
}

#[test]
fn test_prerelease_increment_from_none() {
    let pr = PreRelease::new(PreReleaseType::Alpha, None);
    let incremented = pr.increment_iteration();
    assert_eq!(incremented.identifier, PreReleaseType::Alpha);
    assert_eq!(incremented.iteration, Some(1));
}

#[test]
fn test_prerelease_increment_high_number() {
    let pr = PreRelease::parse("rc.99").unwrap();
    let incremented = pr.increment_iteration();
    assert_eq!(incremented.iteration, Some(100));
}

#[test]
fn test_prerelease_display_with_iteration() {
    let pr = PreRelease::parse("rc.2").unwrap();
    assert_eq!(pr.to_string(), "rc.2");
}

#[test]
fn test_prerelease_display_without_iteration() {
    let pr = PreRelease::parse("alpha").unwrap();
    assert_eq!(pr.to_string(), "alpha");
}

#[test]
fn test_prerelease_display_custom_with_iteration() {
    let pr = PreRelease::parse("staging.3").unwrap();
    assert_eq!(pr.to_string(), "staging.3");
}

#[test]
fn test_prerelease_equality() {
    let pr1 = PreRelease::parse("beta.1").unwrap();
    let pr2 = PreRelease::parse("beta.1").unwrap();
    assert_eq!(pr1, pr2);
}

#[test]
fn test_prerelease_inequality_different_iteration() {
    let pr1 = PreRelease::parse("beta.1").unwrap();
    let pr2 = PreRelease::parse("beta.2").unwrap();
    assert_ne!(pr1, pr2);
}

#[test]
fn test_prerelease_inequality_different_type() {
    let pr1 = PreRelease::parse("alpha.1").unwrap();
    let pr2 = PreRelease::parse("beta.1").unwrap();
    assert_ne!(pr1, pr2);
}
