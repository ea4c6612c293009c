use git_publish::domain::BranchContext;

#[test]
fn test_main_branch() {
    let branch = BranchContext::new("main");
    assert!(branch.is_main);
    assert!(branch.is_release_branch());
}

#[test]
fn test_master_branch() {
    let branch = BranchContext::new("master");
    assert!(branch.is_main);
}

#[test]
fn test_develop_branch() {
    let branch = BranchContext::new("develop");
    assert!(!branch.is_main);
    assert!(!branch.is_release_branch());
}
