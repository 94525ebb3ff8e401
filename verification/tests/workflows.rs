use agentbox::cli::Command;
use agentbox::mounts::infra::MountEntry;
use agentbox::mounts::workflows::{
    add_mount, commit_edit_mount, commit_remove_mount, import_mount_table, plan_edit_mount,
    plan_import, plan_remove_mount,
};
use agentbox::persistence::manifest::{PersistedManifest, PersistedRepoRegistration};
use agentbox::mounts::store::load_repo_mounts;
use agentbox::shared::error::{Error, InfraMountError, MountWorkflowError, WorkspaceError};
use agentbox::shared::mount_spec::MountSpec;
use agentbox::shared::types::{CloneSource, RelativePath, RepoId};
use agentbox::workspace::Workspace;

fn rel(s: &str) -> RelativePath {
    RelativePath::new(s, "test").unwrap()
}

fn demo() -> RepoId {
    RepoId::new("demo").unwrap()
}

fn ws() -> Workspace {
    Workspace::new("/workspace".to_string())
}

fn manifest_with_repo() -> PersistedManifest {
    let mut manifest = PersistedManifest::new();
    manifest.insert_repo(demo(), PersistedRepoRegistration { source: CloneSource::new("file:///s").unwrap() });
    manifest
}

#[test]
fn add_mount_registers_mount_in_manifest() {
    let mut manifest = manifest_with_repo();
    let added = add_mount(&mut manifest, demo(), rel("ctx"), rel("target")).unwrap();
    assert_eq!(added.mount, MountSpec { context: rel("ctx"), repo: rel("target") });
    assert_eq!(load_repo_mounts(&manifest, &demo()).unwrap(), vec![added.mount.clone()]);
}

#[test]
fn add_mount_rejects_conflicts_and_duplicates() {
    let mut manifest = manifest_with_repo();
    add_mount(&mut manifest, demo(), rel("ctx"), rel("target")).unwrap();
    let dup = add_mount(&mut manifest, demo(), rel("ctx"), rel("target")).unwrap_err();
    assert!(matches!(dup, Error::Mount(MountWorkflowError::MountAlreadyExists { .. })));
    let overlap = add_mount(&mut manifest, demo(), rel("other"), rel("target/nested")).unwrap_err();
    assert!(matches!(overlap, Error::Mount(MountWorkflowError::MountConflicts { .. })));
    let unknown = add_mount(&mut manifest, RepoId::new("ghost").unwrap(), rel("a"), rel("b")).unwrap_err();
    assert!(matches!(unknown, Error::Mount(MountWorkflowError::RepoNotRegistered { .. })));
}

#[test]
fn edit_mount_updates_context_path() {
    let mut manifest = manifest_with_repo();
    add_mount(&mut manifest, demo(), rel("ctx"), rel("target")).unwrap();
    let plan = plan_edit_mount(&manifest, demo(), &rel("target"), rel("new-ctx")).unwrap();
    assert_eq!(plan.previous_mount.context.as_str(), "ctx");
    let edited = commit_edit_mount(&mut manifest, plan, Ok(())).unwrap();
    assert_eq!(edited.mount.context.as_str(), "new-ctx");
    assert_eq!(load_repo_mounts(&manifest, &demo()).unwrap()[0].context.as_str(), "new-ctx");
}

#[test]
fn edit_mount_rejects_missing_repo_path() {
    let manifest = manifest_with_repo();
    let error = plan_edit_mount(&manifest, demo(), &rel("missing"), rel("ctx")).unwrap_err();
    assert!(matches!(error, Error::Mount(MountWorkflowError::MountNotFoundByRepoPath { .. })));
}

#[test]
fn edit_mount_leaves_manifest_unchanged_when_target_cannot_change() {
    let mut manifest = manifest_with_repo();
    add_mount(&mut manifest, demo(), rel("ctx"), rel("target")).unwrap();
    let plan = plan_edit_mount(&manifest, demo(), &rel("target"), rel("new-ctx")).unwrap();
    let busy = Error::Mount(MountWorkflowError::MountTargetStillMounted {
        repo_id: demo(),
        repo_path: rel("target"),
        target: "/workspace/repos/demo/target".to_string(),
    });
    let error = commit_edit_mount(&mut manifest, plan, Err(busy)).unwrap_err();
    assert!(matches!(error, Error::Mount(MountWorkflowError::MountTargetStillMounted { .. })));
    assert_eq!(load_repo_mounts(&manifest, &demo()).unwrap()[0].context.as_str(), "ctx");
}

#[test]
fn remove_mount_updates_manifest() {
    let mut manifest = manifest_with_repo();
    add_mount(&mut manifest, demo(), rel("ctx"), rel("target")).unwrap();
    let plan = plan_remove_mount(&manifest, demo(), &rel("target")).unwrap();
    let removed = commit_remove_mount(&mut manifest, plan, Ok(())).unwrap();
    assert_eq!(removed.mount.repo.as_str(), "target");
    assert!(load_repo_mounts(&manifest, &demo()).unwrap().is_empty());
    let error = plan_remove_mount(&manifest, demo(), &rel("target")).unwrap_err();
    assert!(matches!(error, Error::Mount(MountWorkflowError::MountNotFoundByRepoPath { .. })));
}

fn live(target: &str) -> MountEntry {
    MountEntry {
        mount_id: 1,
        preferred_source: "/elsewhere".to_string(),
        source_aliases: vec!["/elsewhere".to_string()],
        mount_point: target.to_string(),
        filesystem_type: "ext4".to_string(),
    }
}

#[test]
fn import_plan_defaults_context_to_repo_path() {
    let manifest = manifest_with_repo();
    let plan = plan_import(&ws(), &manifest, demo(), rel("tools/ai"), None, true, &Some(vec![])).unwrap();
    assert_eq!(plan.mount, MountSpec { context: rel("tools/ai"), repo: rel("tools/ai") });
    assert_eq!(plan.source, "/workspace/context/demo/tools/ai");
    assert_eq!(plan.target, "/workspace/repos/demo/tools/ai");
    assert_eq!(plan.next_mounts.len(), 1);
}

#[test]
fn import_plan_rejects_occupied_target_and_unmaterialized_repo() {
    let manifest = manifest_with_repo();
    let error = plan_import(&ws(), &manifest, demo(), rel("t"), Some(rel("c")), true, &Some(vec![live("/workspace/repos/demo/t")])).unwrap_err();
    assert!(matches!(error, Error::Mount(MountWorkflowError::ImportTargetAlreadyMounted { .. })));
    let error = plan_import(&ws(), &manifest, demo(), rel("t"), Some(rel("c")), false, &None).unwrap_err();
    assert!(matches!(error, Error::Workspace(WorkspaceError::RepoNotMaterialized { .. })));
    assert!(plan_import(&ws(), &manifest, demo(), rel("t"), Some(rel("c")), true, &None).is_ok());
}

#[test]
fn import_plan_checks_registration_before_materialization() {
    let manifest = PersistedManifest::new();
    let error = plan_import(&ws(), &manifest, demo(), rel("t"), None, false, &None).unwrap_err();
    assert!(matches!(error, Error::Mount(MountWorkflowError::RepoNotRegistered { .. })));
}

#[test]
fn import_table_tolerates_unsupported_only_without_remount() {
    assert!(matches!(import_mount_table(Err(InfraMountError::Unsupported.into()), true), Ok(None)));
    assert!(matches!(
        import_mount_table(Err(InfraMountError::Unsupported.into()), false),
        Err(Error::InfraMount(InfraMountError::Unsupported))
    ));
    assert!(matches!(
        import_mount_table(Err(Error::malformed_mount_table_entry(2, "x".to_string())), true),
        Err(Error::InfraMount(InfraMountError::MalformedMountTableEntry { .. }))
    ));
    assert_eq!(import_mount_table(Ok(vec![live("/x")]), false).unwrap().unwrap().len(), 1);
}

#[test]
fn workspace_layout_and_initialization() {
    let w = ws();
    assert_eq!(w.manifest_path(), "/workspace/agentbox.toml");
    assert_eq!(w.repos_dir(), "/workspace/repos");
    assert_eq!(w.context_dir(), "/workspace/context");
    assert_eq!(w.repo_root(&demo()), "/workspace/repos/demo");
    assert_eq!(w.repo_context_root(&demo()), "/workspace/context/demo");
    assert!(w.require_initialized(true).is_ok());
    assert!(matches!(
        w.require_initialized(false),
        Err(Error::Workspace(WorkspaceError::NoWorkspace { root })) if root == "/workspace"
    ));
}

#[test]
fn only_version_runs_without_workspace() {
    assert!(!Command::Version.needs_workspace());
    assert!(Command::Init.needs_workspace());
}
