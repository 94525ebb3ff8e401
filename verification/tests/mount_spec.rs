use agentbox::shared::error::{Error, ValidationError};
use agentbox::shared::mount_spec::{
    mounts_conflict, relative_paths_overlap, validate_mount_specs, MountSpec, MountSpecOwner,
};
use agentbox::shared::types::{RelativePath, RepoId};

fn rel(s: &str) -> RelativePath {
    RelativePath::new(s, "test").unwrap()
}

fn repo_id() -> RepoId {
    RepoId::new("test-repo").unwrap()
}

fn spec(context: &str, repo: &str) -> MountSpec {
    MountSpec { context: rel(context), repo: rel(repo) }
}

#[test]
fn valid_mount_specs_pass() {
    let mounts = vec![spec("ai", "ai"), spec(".loki", ".loki")];
    assert!(validate_mount_specs(&MountSpecOwner::Repo(repo_id()), &mounts).is_ok());
}

#[test]
fn empty_mount_specs_pass() {
    assert!(validate_mount_specs(&MountSpecOwner::Repo(repo_id()), &[]).is_ok());
}

#[test]
fn duplicate_context_path_rejected() {
    let mounts = vec![spec("ai", "ai"), spec("ai", "other")];
    assert!(validate_mount_specs(&MountSpecOwner::Repo(repo_id()), &mounts).is_err());
}

#[test]
fn overlapping_context_path_rejected() {
    let mounts = vec![spec("ai", "repo-a"), spec("ai/prompts", "repo-b")];
    let error = validate_mount_specs(&MountSpecOwner::Repo(repo_id()), &mounts).expect_err("overlap");
    assert!(matches!(
        error,
        Error::Validation(ValidationError::OverlappingRepoMountContext { .. })
    ));
}

#[test]
fn duplicate_repo_path_rejected() {
    let mounts = vec![spec("ai", "target"), spec("other", "target")];
    assert!(validate_mount_specs(&MountSpecOwner::Repo(repo_id()), &mounts).is_err());
}

#[test]
fn overlapping_repo_path_rejected() {
    let mounts = vec![spec("ctx-a", "target"), spec("ctx-b", "target/nested")];
    let error = validate_mount_specs(&MountSpecOwner::Repo(repo_id()), &mounts).expect_err("overlap");
    assert!(matches!(
        error,
        Error::Validation(ValidationError::OverlappingRepoMountTarget { .. })
    ));
}

#[test]
fn template_owner_duplicate_context_rejected() {
    let mounts = vec![spec("ai", "ai"), spec("ai", "other")];
    assert!(validate_mount_specs(&MountSpecOwner::Template, &mounts).is_err());
}

#[test]
fn template_owner_overlapping_repo_path_rejected() {
    let mounts = vec![spec("ctx-a", "target"), spec("ctx-b", "target/nested")];
    let error = validate_mount_specs(&MountSpecOwner::Template, &mounts).expect_err("overlap");
    assert!(matches!(
        error,
        Error::Validation(ValidationError::OverlappingTemplateMountTarget { .. })
    ));
}

#[test]
fn duplicate_context_reports_duplicate_variant_with_repo_id() {
    let mounts = vec![spec("ai", "a"), spec("ai", "b")];
    match validate_mount_specs(&MountSpecOwner::Repo(repo_id()), &mounts) {
        Err(Error::Validation(ValidationError::DuplicateRepoMountContext { repo_id, context })) => {
            assert_eq!(repo_id.as_str(), "test-repo");
            assert_eq!(context.as_str(), "ai");
        }
        other => panic!("unexpected: {:?}", other),
    }
}

#[test]
fn template_duplicate_repo_path_reports_template_variant() {
    let mounts = vec![spec("a", "target"), spec("b", "target")];
    match validate_mount_specs(&MountSpecOwner::Template, &mounts) {
        Err(Error::Validation(ValidationError::DuplicateTemplateMountTarget { repo_path })) => {
            assert_eq!(repo_path.as_str(), "target");
        }
        other => panic!("unexpected: {:?}", other),
    }
}

#[test]
fn overlap_is_by_whole_segments() {
    assert!(relative_paths_overlap(&rel("a"), &rel("a/b")));
    assert!(relative_paths_overlap(&rel("a/b"), &rel("a")));
    assert!(relative_paths_overlap(&rel("a"), &rel("a")));
    assert!(!relative_paths_overlap(&rel("a"), &rel("ab")));
    assert!(!relative_paths_overlap(&rel("ab/c"), &rel("a")));
    assert!(mounts_conflict(&spec("x", "t"), &spec("y", "t/u")));
    assert!(!mounts_conflict(&spec("x", "t"), &spec("y", "u")));
}
