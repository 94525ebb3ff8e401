use agentbox::persistence::manifest::{
    PersistedManifest, PersistedRepoMount, PersistedRepoRegistration, PersistedTemplateBinding,
    MANIFEST_VERSION,
};
use agentbox::shared::error::{Error, ValidationError};
use agentbox::shared::types::{CloneSource, RelativePath, RepoId, TemplateId};

fn rel(path: &str) -> RelativePath {
    RelativePath::new(path, "test path").expect("valid path")
}

fn id(s: &str) -> RepoId {
    RepoId::new(s).unwrap()
}

fn registration(source: &str) -> PersistedRepoRegistration {
    PersistedRepoRegistration { source: CloneSource::new(source).unwrap() }
}

fn row(repo: &str, context: &str, target: &str) -> PersistedRepoMount {
    PersistedRepoMount { repo_id: id(repo), context: rel(context), repo: rel(target) }
}

#[test]
fn manifest_rejects_mount_for_unknown_repo() {
    let manifest = PersistedManifest::from_parts(MANIFEST_VERSION, vec![], vec![], vec![row("demo", "ctx", "repo")]);
    assert!(matches!(
        manifest.validate(),
        Err(Error::Validation(ValidationError::RepoMountUnknownRepo { .. }))
    ));
}

#[test]
fn manifest_rejects_template_binding_for_unknown_repo() {
    let manifest = PersistedManifest::from_parts(
        MANIFEST_VERSION,
        vec![],
        vec![(id("demo"), PersistedTemplateBinding { template: TemplateId::new("base").unwrap() })],
        vec![],
    );
    assert!(matches!(
        manifest.validate(),
        Err(Error::Validation(ValidationError::RepoTemplateUnknownRepo { .. }))
    ));
}

#[test]
fn manifest_rejects_unsupported_version() {
    let manifest = PersistedManifest::from_parts(2, vec![], vec![], vec![]);
    match manifest.validate() {
        Err(Error::Validation(ValidationError::InvalidManifestVersion { actual, expected })) => {
            assert_eq!(actual, 2);
            assert_eq!(expected, 1);
        }
        other => panic!("unexpected: {:?}", other),
    }
}

#[test]
fn manifest_accepts_consistent_records() {
    let manifest = PersistedManifest::from_parts(
        MANIFEST_VERSION,
        vec![(id("demo"), registration("file:///tmp/source"))],
        vec![(id("demo"), PersistedTemplateBinding { template: TemplateId::new("base").unwrap() })],
        vec![row("demo", "ctx", "repo")],
    );
    assert!(manifest.validate().is_ok());
    assert_eq!(manifest.repos().len(), 1);
    assert_eq!(manifest.repo_templates().len(), 1);
    assert_eq!(manifest.repo_mounts().len(), 1);
    assert_eq!(manifest.repo_mounts()[0].repo_id, id("demo"));
}

#[test]
fn manifest_rejects_overlapping_mounts_of_one_repo() {
    let manifest = PersistedManifest::from_parts(
        MANIFEST_VERSION,
        vec![(id("demo"), registration("file:///tmp/source"))],
        vec![],
        vec![row("demo", "a", "x"), row("demo", "b", "x/y")],
    );
    assert!(matches!(
        manifest.validate(),
        Err(Error::Validation(ValidationError::OverlappingRepoMountTarget { .. }))
    ));
}

#[test]
fn repos_are_kept_in_id_order_and_last_entry_wins() {
    let manifest = PersistedManifest::from_parts(
        MANIFEST_VERSION,
        vec![
            (id("zeta"), registration("file:///z")),
            (id("alpha"), registration("file:///a1")),
            (id("alpha"), registration("file:///a2")),
        ],
        vec![],
        vec![],
    );
    let ids: Vec<String> = manifest.repo_ids().into_iter().map(|r| r.into_string()).collect();
    assert_eq!(ids, vec!["alpha", "zeta"]);
    assert_eq!(manifest.repo(&id("alpha")).unwrap().source.as_str(), "file:///a2");
}

#[test]
fn insert_then_remove_repo() {
    let mut manifest = PersistedManifest::new();
    assert!(!manifest.contains_repo(&id("demo")));
    manifest.insert_repo(id("demo"), registration("file:///tmp/source"));
    assert!(manifest.contains_repo(&id("demo")));
    assert_eq!(manifest.repo(&id("demo")).unwrap().source.as_str(), "file:///tmp/source");
    let removed = manifest.remove_repo(&id("demo")).unwrap();
    assert_eq!(removed.source.as_str(), "file:///tmp/source");
    assert!(!manifest.contains_repo(&id("demo")));
    assert!(manifest.remove_repo(&id("demo")).is_none());
}

#[test]
fn replace_repo_mounts_keeps_other_repos_rows() {
    let mut manifest = PersistedManifest::from_parts(
        MANIFEST_VERSION,
        vec![(id("a"), registration("file:///a")), (id("b"), registration("file:///b"))],
        vec![],
        vec![row("a", "c1", "t1"), row("b", "c2", "t2")],
    );
    manifest.replace_repo_mounts(&id("a"), vec![row("a", "c3", "t3")]);
    let rows = manifest.repo_mounts();
    assert_eq!(rows.len(), 2);
    assert_eq!(rows[0].repo_id, id("b"));
    assert_eq!(rows[1].context.as_str(), "c3");
    manifest.clear_repo_mounts(&id("b"));
    assert_eq!(manifest.repo_mounts().len(), 1);
}

#[test]
fn applied_template_can_be_replaced_and_cleared() {
    let mut manifest = PersistedManifest::new();
    manifest.replace_applied_template(id("a"), PersistedTemplateBinding { template: TemplateId::new("one").unwrap() });
    manifest.replace_applied_template(id("a"), PersistedTemplateBinding { template: TemplateId::new("two").unwrap() });
    assert_eq!(manifest.repo_templates().len(), 1);
    assert_eq!(manifest.repo_templates()[0].1.template.as_str(), "two");
    manifest.clear_applied_template(&id("a"));
    assert!(manifest.repo_templates().is_empty());
}

#[test]
fn clearing_template_bindings_reports_and_restores() {
    let mut manifest = PersistedManifest::new();
    for name in ["a", "b", "c"] {
        manifest.insert_repo(id(name), registration("file:///s"));
    }
    manifest.replace_applied_template(id("a"), PersistedTemplateBinding { template: TemplateId::new("base").unwrap() });
    manifest.replace_applied_template(id("b"), PersistedTemplateBinding { template: TemplateId::new("other").unwrap() });
    manifest.replace_applied_template(id("c"), PersistedTemplateBinding { template: TemplateId::new("base").unwrap() });

    let cleared = manifest.clear_applied_template_bindings(&TemplateId::new("base").unwrap());
    assert_eq!(cleared, vec![id("a"), id("c")]);
    assert_eq!(manifest.repo_templates().len(), 1);
    assert_eq!(manifest.repo_templates()[0].0, id("b"));

    manifest.restore_applied_template_bindings(&TemplateId::new("base").unwrap(), cleared);
    assert_eq!(manifest.repo_templates().len(), 3);
    assert_eq!(manifest.repo_templates()[2].1.template.as_str(), "base");
}
