use agentbox::inspection::status_view::{RepoLifecyclePreflight, UnverifiedActiveMount};
use agentbox::persistence::manifest::PersistedManifest;
use agentbox::registry::lifecycle::{
    attach_repo, clone_failed_error, commit_detach, dematerialize_repos, is_repo_materialized,
    map_attach_error, materialize_repos, plan_detach, require_materialized_repo, rollback_attach,
    DematerializeAction, MaterializeAction, MaterializeInput,
};
use agentbox::registry::store::RegisteredRepo;
use agentbox::shared::error::{
    AttachError, Error, InfraGitError, MountWorkflowError, RepoWorkflowError, ValidationError,
    WorkspaceError,
};
use agentbox::shared::mount_spec::MountSpec;
use agentbox::shared::types::{CloneSource, RelativePath, RepoId, TemplateId};
use agentbox::workspace::Workspace;

fn id(s: &str) -> RepoId {
    RepoId::new(s).unwrap()
}

fn rel(s: &str) -> RelativePath {
    RelativePath::new(s, "test").unwrap()
}

fn source() -> CloneSource {
    CloneSource::new("file:///tmp/source").unwrap()
}

fn ws() -> Workspace {
    Workspace::new("/workspace".to_string())
}

fn preflight(materialized: bool, active: bool, conflicting: bool) -> RepoLifecyclePreflight {
    RepoLifecyclePreflight {
        repo_id: id("demo"),
        materialized,
        has_active_mounts: active,
        has_conflicting_mounts: conflicting,
        active_mount_targets: if active { vec!["/workspace/repos/demo/target".to_string()] } else { vec![] },
        unverified_active_mounts: vec![],
    }
}

fn attached_manifest() -> PersistedManifest {
    let mut manifest = PersistedManifest::new();
    attach_repo(&mut manifest, id("demo"), source(), None).unwrap();
    manifest
}

#[test]
fn attach_with_template_records_binding_and_mounts() {
    let mut manifest = PersistedManifest::new();
    let mounts = vec![MountSpec { context: rel("ctx"), repo: rel("target") }];
    let attached = attach_repo(&mut manifest, id("demo"), source(), Some((TemplateId::new("base").unwrap(), mounts))).unwrap();
    assert_eq!(attached, id("demo"));
    assert_eq!(manifest.repo_templates()[0].1.template.as_str(), "base");
    assert_eq!(manifest.repo_mounts().len(), 1);
}

#[test]
fn attach_rejects_registered_repo_as_attach_error() {
    let mut manifest = attached_manifest();
    let error = attach_repo(&mut manifest, id("demo"), source(), None).unwrap_err();
    assert!(matches!(error, Error::Attach(AttachError::RepoAlreadyRegistered { .. })));
}

#[test]
fn attach_rejects_conflicting_template_mounts() {
    let mut manifest = PersistedManifest::new();
    let mounts = vec![
        MountSpec { context: rel("a"), repo: rel("t") },
        MountSpec { context: rel("b"), repo: rel("t") },
    ];
    let error = attach_repo(&mut manifest, id("demo"), source(), Some((TemplateId::new("base").unwrap(), mounts))).unwrap_err();
    assert!(matches!(error, Error::Validation(ValidationError::DuplicateRepoMountTarget { .. })));
}

#[test]
fn rollback_attach_removes_registration() {
    let mut manifest = attached_manifest();
    rollback_attach(&mut manifest, &id("demo")).unwrap();
    assert!(!manifest.contains_repo(&id("demo")));
    assert!(matches!(
        rollback_attach(&mut manifest, &id("demo")),
        Err(Error::Attach(AttachError::RepoNotRegistered { .. }))
    ));
}

#[test]
fn detach_without_force_refuses_materialized_repo() {
    let manifest = attached_manifest();
    let error = plan_detach(&manifest, &id("demo"), false, false, &preflight(true, false, false)).unwrap_err();
    assert!(matches!(error, Error::Attach(AttachError::RepoStillMaterialized { .. })));
}

#[test]
fn detach_refuses_conflicting_mounts_even_with_force() {
    let manifest = attached_manifest();
    let error = plan_detach(&manifest, &id("demo"), true, true, &preflight(true, true, true)).unwrap_err();
    assert!(matches!(error, Error::Attach(AttachError::RepoHasConflictingMounts { .. })));
}

#[test]
fn detach_without_force_refuses_active_mounts() {
    let manifest = attached_manifest();
    let error = plan_detach(&manifest, &id("demo"), false, false, &preflight(false, true, false)).unwrap_err();
    assert!(matches!(error, Error::Attach(AttachError::RepoHasActiveMounts { .. })));
}

#[test]
fn detach_force_unmounts_active_mounts_and_tears_down() {
    let manifest = attached_manifest();
    let plan = plan_detach(&manifest, &id("demo"), true, false, &preflight(true, true, false)).unwrap();
    assert!(plan.teardown);
    assert_eq!(plan.unmount_targets, vec!["/workspace/repos/demo/target".to_string()]);
}

#[test]
fn detach_force_blocks_unverified_mount_unless_overridden() {
    let manifest = attached_manifest();
    let mut p = preflight(true, true, false);
    p.unverified_active_mounts = vec![UnverifiedActiveMount {
        existing_source: "/workspace/context/demo/ctx".to_string(),
        target: "/workspace/repos/demo/target".to_string(),
    }];
    let error = plan_detach(&manifest, &id("demo"), true, false, &p).unwrap_err();
    match error {
        Error::Mount(MountWorkflowError::UnmountTargetOwnershipUnverified { existing_source, target }) => {
            assert_eq!(existing_source, "/workspace/context/demo/ctx");
            assert_eq!(target, "/workspace/repos/demo/target");
        }
        other => panic!("unexpected: {:?}", other),
    }
    assert!(plan_detach(&manifest, &id("demo"), true, true, &p).unwrap().teardown);
}

#[test]
fn detach_of_unregistered_repo_is_refused() {
    let manifest = PersistedManifest::new();
    let error = plan_detach(&manifest, &id("demo"), true, true, &preflight(false, false, false)).unwrap_err();
    assert!(matches!(error, Error::Attach(AttachError::RepoNotRegistered { .. })));
}

#[test]
fn clean_detach_needs_no_teardown_and_commits() {
    let mut manifest = attached_manifest();
    let plan = plan_detach(&manifest, &id("demo"), false, false, &preflight(false, false, false)).unwrap();
    assert!(!plan.teardown);
    assert!(plan.unmount_targets.is_empty());
    let detached = commit_detach(&ws(), &mut manifest, id("demo")).unwrap();
    assert_eq!(detached.context_root, "/workspace/context/demo");
    assert!(!manifest.contains_repo(&id("demo")));
}

#[test]
fn dematerialize_plans_follow_preflight() {
    let mut clean = preflight(true, false, false);
    clean.repo_id = id("a");
    let mut gone = preflight(false, false, false);
    gone.repo_id = id("b");
    let mut busy = preflight(true, true, false);
    busy.repo_id = id("c");
    let mut never = preflight(true, false, false);
    never.repo_id = id("d");
    let actions = dematerialize_repos(&vec![clean, gone, busy, never]);
    assert_eq!(actions.len(), 3);
    assert!(matches!(&actions[0], DematerializeAction::RemoveRoot { repo_id } if repo_id.as_str() == "a"));
    assert!(matches!(&actions[1], DematerializeAction::AlreadyDematerialized { repo_id } if repo_id.as_str() == "b"));
    assert!(matches!(&actions[2], DematerializeAction::Refuse(Error::Repo(RepoWorkflowError::RepoHasActiveMounts { .. }))));
}

#[test]
fn dematerialize_refuses_conflicting_mounts() {
    let actions = dematerialize_repos(&vec![preflight(true, true, true)]);
    assert!(matches!(&actions[0], DematerializeAction::Refuse(Error::Repo(RepoWorkflowError::RepoHasConflictingMounts { .. }))));
}

fn materialize_input(name: &str, exists: bool, git: bool) -> MaterializeInput {
    MaterializeInput {
        repo_id: id(name),
        repo: RegisteredRepo { source: source() },
        repo_root_exists: exists,
        is_git_repo: git,
    }
}

#[test]
fn materialize_plans_clone_skip_and_refuse() {
    let actions = materialize_repos(
        &ws(),
        &vec![materialize_input("a", false, false), materialize_input("b", true, true), materialize_input("c", true, false), materialize_input("d", false, false)],
    );
    assert_eq!(actions.len(), 3);
    match &actions[0] {
        MaterializeAction::Clone { repo_id, source, repo_root } => {
            assert_eq!(repo_id.as_str(), "a");
            assert_eq!(source.as_str(), "file:///tmp/source");
            assert_eq!(repo_root, "/workspace/repos/a");
        }
        other => panic!("unexpected: {:?}", other),
    }
    assert!(matches!(&actions[1], MaterializeAction::AlreadyMaterialized { repo_root, .. } if repo_root == "/workspace/repos/b"));
    assert!(matches!(
        &actions[2],
        MaterializeAction::Refuse(Error::Repo(RepoWorkflowError::DestinationExistsNotGitRepo { repo_root })) if repo_root == "/workspace/repos/c"
    ));
}

#[test]
fn materialized_means_root_and_git() {
    assert!(is_repo_materialized(true, true));
    assert!(!is_repo_materialized(true, false));
    assert!(!is_repo_materialized(false, true));
    assert_eq!(require_materialized_repo(&ws(), &id("demo"), true).unwrap(), "/workspace/repos/demo");
    assert!(matches!(
        require_materialized_repo(&ws(), &id("demo"), false),
        Err(Error::Workspace(WorkspaceError::RepoNotMaterialized { .. }))
    ));
}

#[test]
fn clone_failures_keep_trimmed_stderr() {
    match clone_failed_error(&source(), "  fatal: repository not found\n") {
        Error::InfraGit(InfraGitError::CloneFailed { clone_source, stderr }) => {
            assert_eq!(clone_source.as_str(), "file:///tmp/source");
            assert_eq!(stderr, "fatal: repository not found");
        }
        other => panic!("unexpected: {:?}", other),
    }
}

#[test]
fn attach_errors_are_renamed() {
    let mapped = map_attach_error(Error::Repo(RepoWorkflowError::RepoNotRegistered { repo_id: id("x") }));
    assert!(matches!(mapped, Error::Attach(AttachError::RepoNotRegistered { .. })));
    let kept = map_attach_error(Error::Io { message: "m".to_string() });
    assert!(matches!(kept, Error::Io { .. }));
}
