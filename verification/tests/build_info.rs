use embucket::build_info::BuildInfo;

#[test]
fn test_build_info_constants() {
    // These should all be non-empty (either real values or "unknown")
    assert!(!BuildInfo::VERSION.is_empty());
    assert!(!BuildInfo::GIT_SHA.is_empty());
    assert!(!BuildInfo::GIT_SHA_SHORT.is_empty());
    assert!(!BuildInfo::GIT_BRANCH.is_empty());
    assert!(!BuildInfo::GIT_DIRTY.is_empty());
    assert!(!BuildInfo::BUILD_TIMESTAMP.is_empty());
}

#[test]
fn test_full_version() {
    let version = BuildInfo::full_version();
    // Should contain at least the version number
    assert!(version.contains(BuildInfo::VERSION));
}

#[test]
fn test_is_dirty() {
    // Should return a boolean without panicking
    let _ = BuildInfo::is_dirty();
}

#[test]
fn full_version_has_the_documented_shape() {
    let version = BuildInfo::full_version();
    let expected = format!(
        "{} ({}{}) on {} built {}",
        BuildInfo::VERSION,
        BuildInfo::GIT_SHA_SHORT,
        if BuildInfo::GIT_DIRTY == "true" { "-dirty" } else { "" },
        BuildInfo::GIT_BRANCH,
        BuildInfo::BUILD_TIMESTAMP
    );
    assert_eq!(version, expected);
    assert_eq!(BuildInfo::is_dirty(), BuildInfo::GIT_DIRTY == "true");
}
