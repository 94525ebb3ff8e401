use agentbox::mounts::infra::MountEntry;
use agentbox::mounts::support::{
    ensure_mount_target_can_change, ensure_mount_target_can_change_in,
    ensure_mount_target_matches_source_or_is_empty, find_mount_index_by_repo_path,
    mounts_with_added_mount, mounts_with_edited_mount, mounts_with_imported_mount,
    mounts_with_removed_mount, TargetFacts,
};
use agentbox::shared::error::{Error, InfraMountError, MountWorkflowError};
use agentbox::shared::mount_spec::MountSpec;
use agentbox::shared::types::{RelativePath, RepoId};
use agentbox::workspace::Workspace;

fn rel(s: &str) -> RelativePath {
    RelativePath::new(s, "test").unwrap()
}

fn spec(context: &str, repo: &str) -> MountSpec {
    MountSpec { context: rel(context), repo: rel(repo) }
}

fn entry(id: u64, source: &str, target: &str) -> MountEntry {
    MountEntry {
        mount_id: id,
        preferred_source: source.to_string(),
        source_aliases: vec![source.to_string()],
        mount_point: target.to_string(),
        filesystem_type: "bind".to_string(),
    }
}

fn workspace() -> Workspace {
    Workspace::new("/workspace".to_string())
}

#[test]
fn mounts_with_added_mount_rejects_duplicate_mount() {
    let repo_id = RepoId::new("demo").unwrap();
    let mount = spec("ctx", "target");
    let existing_mount = mount.clone();
    let error = mounts_with_added_mount(&repo_id, std::slice::from_ref(&existing_mount), mount)
        .expect_err("duplicate mount");
    assert!(matches!(error, Error::Mount(MountWorkflowError::MountAlreadyExists { .. })));
}

#[test]
fn find_mount_index_matches_repo_path() {
    let mounts = vec![spec("ctx", "target")];
    assert_eq!(find_mount_index_by_repo_path(&mounts, &rel("target")), Some(0));
}

#[test]
fn mounts_with_removed_mount_returns_removed_mount() {
    let repo_id = RepoId::new("demo").unwrap();
    let repo_path = rel("target");
    let mounts = vec![MountSpec { context: rel("ctx"), repo: repo_path.clone() }];
    let (next_mounts, removed) =
        mounts_with_removed_mount(&repo_id, &mounts, &repo_path).expect("remove mount");
    assert!(next_mounts.is_empty());
    assert_eq!(removed.repo, repo_path);
}

#[test]
fn ensure_mount_target_can_change_rejects_expected_active_mount() {
    let repo_id = RepoId::new("demo").unwrap();
    let mount_spec = spec("ctx", "target");
    let target = "/workspace/repos/demo/target".to_string();
    let expected_source = "/workspace/context/demo/ctx".to_string();
    let error = ensure_mount_target_can_change_in(
        &repo_id,
        &mount_spec,
        target.clone(),
        expected_source.clone(),
        &[entry(31, &expected_source, &target)],
    )
    .expect_err("active mount should block mutation");
    assert!(matches!(
        error,
        Error::Mount(MountWorkflowError::MountTargetStillMounted {
            repo_id: ref active_repo_id,
            target: ref active_target,
            ..
        }) if active_repo_id == &repo_id && active_target == &target
    ));
}

#[test]
fn ensure_mount_target_can_change_rejects_foreign_mount() {
    let repo_id = RepoId::new("demo").unwrap();
    let mount_spec = spec("ctx", "target");
    let target = "/workspace/repos/demo/target".to_string();
    let expected_source = "/workspace/context/demo/ctx".to_string();
    let error = ensure_mount_target_can_change_in(
        &repo_id,
        &mount_spec,
        target.clone(),
        expected_source.clone(),
        &[entry(32, "/foreign/source", &target)],
    )
    .expect_err("foreign mount should block mutation");
    assert!(matches!(
        error,
        Error::Mount(MountWorkflowError::MountTargetConflictedForUpdate {
            repo_id: ref conflict_repo_id,
            target: ref conflict_target,
            ..
        }) if conflict_repo_id == &repo_id && conflict_target == &target
    ));
}

#[test]
fn ensure_mount_target_can_change_skips_unsupported_mount_table_inspection() {
    let repo_id = RepoId::new("demo").unwrap();
    let mount_spec = spec("ctx", "target");
    ensure_mount_target_can_change(
        &workspace(),
        &repo_id,
        &mount_spec,
        true,
        Err(InfraMountError::Unsupported.into()),
    )
    .expect("unsupported mount inspection should not block manifest-only mutation");
}

#[test]
fn ensure_mount_target_can_change_fails_closed_when_mount_table_is_malformed() {
    let repo_id = RepoId::new("demo").unwrap();
    let mount_spec = spec("ctx", "target");
    let error = ensure_mount_target_can_change(
        &workspace(),
        &repo_id,
        &mount_spec,
        true,
        Err(Error::malformed_mount_table_entry(7, "missing separator".to_string())),
    )
    .expect_err("malformed mount inspection should block mutation");
    assert!(matches!(
        error,
        Error::InfraMount(InfraMountError::MalformedMountTableEntry { line_no: 7, .. })
    ));
}

#[test]
fn ensure_mount_target_can_change_treats_matching_mount_as_active() {
    let ws = workspace();
    let repo_id = RepoId::new("demo").unwrap();
    let mount_spec = spec("ctx", "target");
    let expected_source = ws.context_path(&repo_id, &mount_spec.context);
    let target = ws.repo_path(&repo_id, &mount_spec.repo);
    let error = ensure_mount_target_can_change(
        &ws,
        &repo_id,
        &mount_spec,
        true,
        Ok(vec![entry(61, &expected_source, &target)]),
    )
    .expect_err("matching mount should block mutation as already active");
    assert!(matches!(error, Error::Mount(MountWorkflowError::MountTargetStillMounted { .. })));
}

#[test]
fn ensure_mount_target_can_change_ignores_mounts_of_unmaterialized_repo() {
    let ws = workspace();
    let repo_id = RepoId::new("demo").unwrap();
    let mount_spec = spec("ctx", "target");
    let target = ws.repo_path(&repo_id, &mount_spec.repo);
    assert!(ensure_mount_target_can_change(
        &ws,
        &repo_id,
        &mount_spec,
        false,
        Ok(vec![entry(61, "/elsewhere", &target)]),
    )
    .is_ok());
}

#[test]
fn workspace_paths_match_layout() {
    let ws = workspace();
    let repo_id = RepoId::new("demo").unwrap();
    assert_eq!(ws.context_path(&repo_id, &rel("ctx")), "/workspace/context/demo/ctx");
    assert_eq!(ws.repo_path(&repo_id, &rel("target")), "/workspace/repos/demo/target");
}

#[test]
fn add_then_remove_restores_mounts() {
    let repo_id = RepoId::new("demo").unwrap();
    let mounts = vec![spec("a", "x")];
    let added = mounts_with_added_mount(&repo_id, &mounts, spec("b", "y")).unwrap();
    assert_eq!(added.len(), 2);
    assert_eq!(added[1].context.as_str(), "b");
    let (back, removed) = mounts_with_removed_mount(&repo_id, &added, &rel("y")).unwrap();
    assert_eq!(back, mounts);
    assert_eq!(removed.context.as_str(), "b");
}

#[test]
fn added_mount_that_nests_is_a_conflict() {
    let repo_id = RepoId::new("demo").unwrap();
    let mounts = vec![spec("a", "x")];
    let error = mounts_with_added_mount(&repo_id, &mounts, spec("b", "x/y")).unwrap_err();
    assert!(matches!(error, Error::Mount(MountWorkflowError::MountConflicts { .. })));
}

#[test]
fn imported_mount_reports_exists_or_conflicts() {
    let repo_id = RepoId::new("demo").unwrap();
    let mounts = vec![spec("a", "x")];
    let error = mounts_with_imported_mount(&repo_id, &mounts, spec("a", "z")).unwrap_err();
    assert!(matches!(error, Error::Mount(MountWorkflowError::MountExistsOrConflicts { .. })));
    let ok = mounts_with_imported_mount(&repo_id, &mounts, spec("b", "z")).unwrap();
    assert_eq!(ok.len(), 2);
}

#[test]
fn edited_mount_changes_only_the_context() {
    let repo_id = RepoId::new("demo").unwrap();
    let mounts = vec![spec("a", "x"), spec("b", "y")];
    let (next, old, new) = mounts_with_edited_mount(&repo_id, &mounts, &rel("y"), rel("c")).unwrap();
    assert_eq!(next[0], mounts[0]);
    assert_eq!(next[1].context.as_str(), "c");
    assert_eq!(next[1].repo.as_str(), "y");
    assert_eq!(old.context.as_str(), "b");
    assert_eq!(new.context.as_str(), "c");
    let error = mounts_with_edited_mount(&repo_id, &mounts, &rel("missing"), rel("d")).unwrap_err();
    assert!(matches!(error, Error::Mount(MountWorkflowError::MountNotFoundByRepoPath { .. })));
    let error = mounts_with_edited_mount(&repo_id, &mounts, &rel("y"), rel("a/inner")).unwrap_err();
    assert!(matches!(error, Error::Mount(MountWorkflowError::MountConflicts { .. })));
}

fn facts(target_exists: bool, source_exists: bool, subset: bool, is_dir: bool, scaffold: bool, empty: bool) -> TargetFacts {
    TargetFacts {
        target_exists,
        source_exists,
        target_is_matching_subset_of_source: subset,
        target_is_dir: is_dir,
        target_is_directory_only_scaffolding: scaffold,
        target_is_empty_dir: empty,
    }
}

#[test]
fn target_safety_check_accepts_only_coverable_targets() {
    let repo_id = RepoId::new("demo").unwrap();
    let mount = spec("ctx", "target");
    let check = |f: TargetFacts| {
        ensure_mount_target_matches_source_or_is_empty(&repo_id, &mount, "/s", "/t", &f)
    };
    assert!(check(facts(false, false, false, false, false, false)).is_ok());
    assert!(check(facts(true, true, true, true, false, false)).is_ok());
    assert!(check(facts(true, false, false, true, true, false)).is_ok());
    assert!(check(facts(true, true, false, true, false, true)).is_ok());
    match check(facts(true, true, false, true, true, false)) {
        Err(Error::Mount(MountWorkflowError::MountTargetWouldHideDifferentFiles {
            mount_source,
            target,
            ..
        })) => {
            assert_eq!(mount_source, "/s");
            assert_eq!(target, "/t");
        }
        other => panic!("unexpected: {:?}", other),
    }
}

use agentbox::mounts::support::mounts_with_template_mounts;
use agentbox::shared::error::TemplateError;
use agentbox::shared::types::TemplateId;

#[test]
fn template_mounts_merge_once_and_stop_at_conflicts() {
    let repo_id = RepoId::new("demo").unwrap();
    let template_id = TemplateId::new("base").unwrap();
    let existing = vec![spec("ai", "ai")];
    let merged = mounts_with_template_mounts(&template_id, &repo_id, &existing, &[spec("ai", "ai"), spec("docs", "docs")]).unwrap();
    assert_eq!(merged, vec![spec("ai", "ai"), spec("docs", "docs")]);
    match mounts_with_template_mounts(&template_id, &repo_id, &existing, &[spec("ai/prompts", "p"), spec("x", "x")]) {
        Err(Error::Template(TemplateError::TemplateMountConflict { template_id: t, repo_id: r, context, repo_path })) => {
            assert_eq!(t.as_str(), "base");
            assert_eq!(r.as_str(), "demo");
            assert_eq!(context.as_str(), "ai/prompts");
            assert_eq!(repo_path.as_str(), "p");
        }
        other => panic!("unexpected: {:?}", other),
    }
}
