use agentbox::shared::error::{
    AttachError, Error, InfraFsError, InfraGitError, InfraMountError, MountWorkflowError,
    RepoWorkflowError, TemplateError, ValidationError, WorkspaceError,
};
use agentbox::shared::types::{CloneSource, RelativePath, RepoId, TemplateId};

fn repo_id() -> RepoId {
    RepoId::new("demo").expect("valid repo id")
}

fn template_id() -> TemplateId {
    TemplateId::new("default").expect("valid template id")
}

fn rel(path: &str) -> RelativePath {
    RelativePath::new(path, "test path").expect("valid relative path")
}

#[test]
fn typed_errors_convert_into_top_level_error() {
    assert!(matches!(
        Error::from(ValidationError::InvalidTemplateManifestVersion { actual: 2, expected: 1 }),
        Error::Validation(ValidationError::InvalidTemplateManifestVersion { actual: 2, expected: 1 })
    ));
    assert!(matches!(
        Error::from(WorkspaceError::RepoNotMaterialized { repo_id: repo_id() }),
        Error::Workspace(WorkspaceError::RepoNotMaterialized { .. })
    ));
    assert!(matches!(
        Error::from(AttachError::RepoNotRegistered { repo_id: repo_id() }),
        Error::Attach(AttachError::RepoNotRegistered { .. })
    ));
    assert!(matches!(
        Error::from(RepoWorkflowError::DestinationExistsNotGitRepo {
            repo_root: "/tmp/repo".to_string(),
        }),
        Error::Repo(RepoWorkflowError::DestinationExistsNotGitRepo { .. })
    ));
    assert!(matches!(
        Error::from(MountWorkflowError::MountAlreadyExists {
            repo_id: repo_id(),
            context: rel("ctx"),
            repo_path: rel("target"),
        }),
        Error::Mount(MountWorkflowError::MountAlreadyExists { .. })
    ));
    assert!(matches!(
        Error::from(TemplateError::TemplateMissing { template_id: template_id() }),
        Error::Template(TemplateError::TemplateMissing { .. })
    ));
    assert!(matches!(
        Error::from(InfraGitError::CloneFailed {
            clone_source: CloneSource::new("file:///tmp/source").expect("valid source"),
            stderr: "boom".to_string(),
        }),
        Error::InfraGit(InfraGitError::CloneFailed { .. })
    ));
    assert!(matches!(
        Error::from(InfraFsError::ImportContextPathNotEmpty { path: "/tmp/context".to_string() }),
        Error::InfraFs(InfraFsError::ImportContextPathNotEmpty { .. })
    ));
}

#[test]
fn adapter_helpers_preserve_context() {
    assert!(matches!(
        Error::io_path("/tmp/workspace".to_string(), "denied".to_string()),
        Error::IoPath { ref path, .. } if path == "/tmp/workspace"
    ));
    assert!(matches!(
        Error::unsupported_non_utf8_path("bad path".to_string()),
        Error::Workspace(WorkspaceError::UnsupportedNonUtf8Path { .. })
    ));
    assert!(matches!(
        Error::invalid_mount_field("bad utf8".to_string()),
        Error::InfraMount(InfraMountError::InvalidMountField { .. })
    ));
    assert!(matches!(
        Error::malformed_mount_table_entry(7, "missing separator".to_string()),
        Error::InfraMount(InfraMountError::MalformedMountTableEntry { line_no: 7, .. })
    ));
    assert!(matches!(
        Error::bind_mount_failed("/source".to_string(), "/target".to_string(), "boom".to_string()),
        Error::InfraMount(InfraMountError::BindMountFailed { .. })
    ));
    assert!(matches!(
        Error::unmount_failed("/target".to_string(), "boom".to_string()),
        Error::InfraMount(InfraMountError::UnmountFailed { .. })
    ));
}

#[test]
fn representative_display_strings_remain_stable() {
    assert_eq!(
        ValidationError::InvalidTemplateManifestVersion { actual: 2, expected: 1 }.message(),
        "unsupported template manifest version 2; expected 1"
    );
    assert_eq!(
        WorkspaceError::NoWorkspace { root: "/tmp/workspace".to_string() }.message(),
        "no agentbox workspace found in `/tmp/workspace`; run `agentbox init` first"
    );
    assert_eq!(
        TemplateError::TemplateMissing { template_id: template_id() }.message(),
        "template `default` does not exist"
    );
}

#[test]
fn top_level_messages_forward_to_the_inner_error() {
    let inner = MountWorkflowError::RepoNotRegistered { repo_id: repo_id() };
    let expected = inner.message();
    assert_eq!(Error::from(inner).message(), expected);
    assert_eq!(
        Error::malformed_mount_table_entry(7, "missing separator".to_string()).message(),
        "invalid mount table entry at line 7: missing separator"
    );
}
