use agentbox::mounts::store::{
    load_repo_mounts, replace_repo_mounts_tx, repo_mounts_by_repo_in_manifest, rows_for_mounts,
    selected_repo_mounts,
};
use agentbox::persistence::composite::{apply_template_to_repo, persist_attached_repo, remove_registered_repo};
use agentbox::persistence::manifest::{
    PersistedManifest, PersistedRepoMount, PersistedRepoRegistration, PersistedTemplateBinding,
    MANIFEST_VERSION,
};
use agentbox::registry::store::{
    register_repo_in_manifest, registered_repo_in_manifest, remove_registered_repo_record,
    replace_registered_repo_in_manifest, selected_registered_repos_in_manifest,
    selected_repo_ids_in_manifest, RegisteredRepo,
};
use agentbox::shared::error::{Error, RepoWorkflowError, ValidationError};
use agentbox::shared::mount_spec::MountSpec;
use agentbox::shared::types::{CloneSource, RelativePath, RepoId, TemplateId};

fn repo_id() -> RepoId {
    RepoId::new("demo").expect("valid repo id")
}

fn id(s: &str) -> RepoId {
    RepoId::new(s).unwrap()
}

fn repo(source: &str) -> RegisteredRepo {
    RegisteredRepo { source: CloneSource::new(source).expect("valid source") }
}

fn rel(path: &str) -> RelativePath {
    RelativePath::new(path, "test path").expect("valid relative path")
}

fn spec(context: &str, target: &str) -> MountSpec {
    MountSpec { context: rel(context), repo: rel(target) }
}

fn two_repo_manifest() -> PersistedManifest {
    let mut rows = Vec::new();
    let mut repos = Vec::new();
    for repo_name in ["zulu", "alpha"] {
        repos.push((
            id(repo_name),
            PersistedRepoRegistration { source: CloneSource::new("file:///tmp/source").unwrap() },
        ));
        rows.push(PersistedRepoMount { repo_id: id(repo_name), context: rel("ctx"), repo: rel("target") });
    }
    PersistedManifest::from_parts(MANIFEST_VERSION, repos, vec![], rows)
}

#[test]
fn selected_repo_ids_returns_requested_repo() {
    let repo_id = repo_id();
    let mut manifest = PersistedManifest::new();
    register_repo_in_manifest(&mut manifest, repo_id.clone(), repo("file:///tmp/source")).unwrap();
    let selected = selected_repo_ids_in_manifest(&manifest, Some(repo_id.clone())).unwrap();
    assert_eq!(selected, vec![repo_id]);
}

#[test]
fn replace_registered_repo_updates_existing_repo() {
    let repo_id = repo_id();
    let mut manifest = PersistedManifest::new();
    register_repo_in_manifest(&mut manifest, repo_id.clone(), repo("file:///tmp/source")).unwrap();
    replace_registered_repo_in_manifest(&mut manifest, &repo_id, repo("file:///tmp/next")).unwrap();
    assert_eq!(
        registered_repo_in_manifest(&manifest, &repo_id).unwrap().source.as_str(),
        "file:///tmp/next"
    );
}

#[test]
fn remove_registered_repo_returns_removed_repo() {
    let repo_id = repo_id();
    let mut manifest = PersistedManifest::new();
    register_repo_in_manifest(&mut manifest, repo_id.clone(), repo("file:///tmp/source")).unwrap();
    replace_repo_mounts_tx(&mut manifest, &repo_id, vec![spec("ctx", "target")]).unwrap();
    manifest.replace_applied_template(
        repo_id.clone(),
        PersistedTemplateBinding { template: TemplateId::new("default").unwrap() },
    );

    let removed = remove_registered_repo(&mut manifest, &repo_id).unwrap();

    assert_eq!(removed.source.as_str(), "file:///tmp/source");
    assert!(!manifest.contains_repo(&repo_id));
    assert!(manifest.repo_mounts().is_empty());
    assert!(manifest.repo_templates().is_empty());
}

#[test]
fn register_repo_rejects_duplicate_repo_id() {
    let repo_id = repo_id();
    let mut manifest = PersistedManifest::new();
    let repo = repo("file:///tmp/source");
    register_repo_in_manifest(&mut manifest, repo_id.clone(), repo.clone()).unwrap();
    let error = register_repo_in_manifest(&mut manifest, repo_id.clone(), repo)
        .expect_err("duplicate repo should be rejected");
    assert!(matches!(
        error,
        Error::Repo(RepoWorkflowError::RepoAlreadyRegistered { repo_id: ref duplicate_repo_id })
            if duplicate_repo_id == &repo_id
    ));
}

#[test]
fn repo_mounts_by_repo_preserves_requested_repo_order() {
    let manifest = two_repo_manifest();
    let requested = vec![id("alpha"), id("zulu")];
    let mounts_by_repo = repo_mounts_by_repo_in_manifest(&manifest, &requested).expect("repo mounts");
    assert_eq!(mounts_by_repo.len(), 2);
    assert_eq!(mounts_by_repo[0].0, requested[0]);
    assert_eq!(mounts_by_repo[1].0, requested[1]);
    assert_eq!(mounts_by_repo[0].1.len(), 1);
    assert_eq!(mounts_by_repo[1].1.len(), 1);
}

#[test]
fn replace_repo_mounts_reports_unknown_repo() {
    let mut manifest = PersistedManifest::new();
    let repo_id = id("missing");
    let error = replace_repo_mounts_tx(&mut manifest, &repo_id, vec![spec("ctx", "target")])
        .expect_err("missing repo should fail");
    assert!(matches!(
        error,
        Error::Repo(RepoWorkflowError::RepoNotRegistered { repo_id: ref missing_repo_id })
            if missing_repo_id == &repo_id
    ));
}

#[test]
fn replace_repo_mounts_rejects_overlapping_paths() {
    let repo_id = repo_id();
    let mut manifest = PersistedManifest::new();
    manifest.insert_repo(
        repo_id.clone(),
        PersistedRepoRegistration { source: CloneSource::new("file:///tmp/source").unwrap() },
    );
    let error = replace_repo_mounts_tx(
        &mut manifest,
        &repo_id,
        vec![spec("ctx-a", "target"), spec("ctx-b", "target/nested")],
    )
    .expect_err("overlapping mounts should fail");
    assert!(matches!(error, Error::Validation(ValidationError::OverlappingRepoMountTarget { .. })));
    assert!(manifest.repo_mounts().is_empty());
}

#[test]
fn selected_repo_mounts_preserves_selected_repo_order() {
    let manifest = two_repo_manifest();
    let selected = selected_repo_mounts(&manifest, None).expect("selected mounts");
    let ordered_ids: Vec<_> = selected.iter().map(|(repo_id, _)| repo_id.as_str().to_string()).collect();
    assert_eq!(ordered_ids, vec!["alpha", "zulu"]);
    assert!(selected.iter().all(|(_, mounts)| mounts.len() == 1));
}

#[test]
fn selected_repo_mounts_reports_unknown_repo() {
    let manifest = PersistedManifest::new();
    let error = selected_repo_mounts(&manifest, Some(id("missing"))).expect_err("missing repo should fail");
    assert!(matches!(error, Error::Repo(RepoWorkflowError::RepoNotRegistered { .. })));
}

#[test]
fn load_repo_mounts_returns_only_that_repos_rows() {
    let manifest = two_repo_manifest();
    let mounts = load_repo_mounts(&manifest, &id("zulu")).unwrap();
    assert_eq!(mounts, vec![spec("ctx", "target")]);
    assert!(load_repo_mounts(&manifest, &id("nope")).is_err());
}

#[test]
fn rows_for_mounts_tags_each_mount_with_repo() {
    let rows = rows_for_mounts(&id("demo"), vec![spec("a", "x"), spec("b", "y")]);
    assert_eq!(rows.len(), 2);
    assert_eq!(rows[1].repo_id, id("demo"));
    assert_eq!(rows[1].context.as_str(), "b");
}

#[test]
fn selected_registered_repos_lists_all_in_id_order() {
    let manifest = two_repo_manifest();
    let all = selected_registered_repos_in_manifest(&manifest, None).unwrap();
    assert_eq!(all.len(), 2);
    assert_eq!(all[0].0.as_str(), "alpha");
    assert!(selected_registered_repos_in_manifest(&manifest, Some(id("nope"))).is_err());
    let ids = selected_repo_ids_in_manifest(&manifest, None).unwrap();
    assert_eq!(ids, vec![id("alpha"), id("zulu")]);
}

#[test]
fn remove_registered_repo_record_reports_unknown_repo() {
    let mut manifest = PersistedManifest::new();
    let error = remove_registered_repo_record(&mut manifest, &id("ghost")).unwrap_err();
    assert!(matches!(error, Error::Repo(RepoWorkflowError::RepoNotRegistered { .. })));
}

#[test]
fn attach_records_repo_mounts_and_template() {
    let mut manifest = PersistedManifest::new();
    persist_attached_repo(
        &mut manifest,
        id("demo"),
        repo("file:///src"),
        vec![spec("ctx", "target")],
        Some(TemplateId::new("base").unwrap()),
    )
    .unwrap();
    assert!(manifest.contains_repo(&id("demo")));
    assert_eq!(manifest.repo_mounts().len(), 1);
    assert_eq!(manifest.repo_templates()[0].1.template.as_str(), "base");
    let error = persist_attached_repo(&mut manifest, id("demo"), repo("file:///src"), vec![], None).unwrap_err();
    assert!(matches!(error, Error::Repo(RepoWorkflowError::RepoAlreadyRegistered { .. })));
}

#[test]
fn apply_template_replaces_mounts_and_binding() {
    let mut manifest = two_repo_manifest();
    apply_template_to_repo(&mut manifest, &id("alpha"), vec![spec("t1", "x"), spec("t2", "y")], TemplateId::new("tpl").unwrap()).unwrap();
    assert_eq!(load_repo_mounts(&manifest, &id("alpha")).unwrap().len(), 2);
    assert_eq!(load_repo_mounts(&manifest, &id("zulu")).unwrap().len(), 1);
    assert_eq!(manifest.repo_templates()[0].0.as_str(), "alpha");
    assert!(apply_template_to_repo(&mut manifest, &id("nope"), vec![], TemplateId::new("tpl").unwrap()).is_err());
}
