use git_publish::config::Config;

#[test]
fn test_load_default_config() {
    let config = Config::default();
    assert_eq!(config.branches.get("main"), Some(&"v{version}".to_string()));
    assert_eq!(
        config.branches.get("develop"),
        Some(&"d{version}".to_string())
    );
    assert_eq!(config.branches.get("gray"), Some(&"g{version}".to_string()));
}

#[test]
fn test_default_values() {
    let config = Config::default();
    // Test that defaults are properly set in the Default implementation
    assert!(config
        .conventional_commits
        .types
        .contains(&"feat".to_string()));
    assert!(config
        .conventional_commits
        .types
        .contains(&"fix".to_string()));
    assert!(config
        .conventional_commits
        .breaking_change_indicators
        .contains(&"BREAKING CHANGE:".to_string()));
    assert!(config
        .conventional_commits
        .major_keywords
        .contains(&"breaking".to_string()));
    assert!(config
        .conventional_commits
        .minor_keywords
        .contains(&"feature".to_string()));
}

#[test]
fn test_behavior_config_defaults() {
    let config = Config::default();
    assert_eq!(config.behavior.skip_remote_selection, false);
}
