use agentbox::shared::error::{Error, ValidationError};
use agentbox::shared::types::{
    is_scp_like, normalize_relative_path, validate_clone_source_value, validate_slug, CloneSource,
    RelativePath, RepoId, TemplateId,
};

#[test]
fn validate_slug_accepts_valid() {
    assert!(validate_slug("my-repo", "test").is_ok());
    assert!(validate_slug("repo_2", "test").is_ok());
    assert!(validate_slug("a", "test").is_ok());
    assert!(validate_slug("abc-def_123", "test").is_ok());
}

#[test]
fn validate_slug_rejects_invalid() {
    assert!(validate_slug("", "test").is_err());
    assert!(validate_slug("-repo", "test").is_err());
    assert!(validate_slug("MyRepo", "test").is_err());
    assert!(validate_slug("repo.name", "test").is_err());
    assert!(validate_slug("repo/name", "test").is_err());
    assert!(validate_slug("repo name", "test").is_err());
}

#[test]
fn normalize_relative_path_valid() {
    assert_eq!(normalize_relative_path("ai", "test").unwrap().as_str(), "ai");
    assert_eq!(normalize_relative_path("a/b/c", "test").unwrap().as_str(), "a/b/c");
    assert_eq!(normalize_relative_path("./a/./b", "test").unwrap().as_str(), "a/b");
    assert_eq!(normalize_relative_path(".loki", "test").unwrap().as_str(), ".loki");
}

#[test]
fn normalize_relative_path_rejects_invalid() {
    assert!(normalize_relative_path("", "test").is_err());
    assert!(normalize_relative_path("/abs", "test").is_err());
    assert!(normalize_relative_path("../escape", "test").is_err());
    assert!(normalize_relative_path("a/../b", "test").is_err());
    assert!(normalize_relative_path(".", "test").is_err());
    assert!(normalize_relative_path("./", "test").is_err());
}

#[test]
fn is_scp_like_accepts_valid() {
    assert!(is_scp_like("git@github.com:org/repo.git"));
    assert!(is_scp_like("user@host:path"));
    assert!(is_scp_like("deploy@192.168.1.1:repos/app"));
}

#[test]
fn is_scp_like_rejects_invalid() {
    assert!(!is_scp_like("https://github.com/org/repo.git"));
    assert!(!is_scp_like("no-at-sign:path"));
    assert!(!is_scp_like("user@:path"));
    assert!(!is_scp_like("@host:path"));
    assert!(!is_scp_like("user@host:"));
}

#[test]
fn is_scp_like_rejects_control_chars_in_host() {
    assert!(!is_scp_like("git@host\x00name:path"));
    assert!(!is_scp_like("git@host\x07name:path"));
    assert!(!is_scp_like("git@host\x1bname:path"));
    assert!(!is_scp_like("git@host\nname:path"));
    assert!(!is_scp_like("git@host\tname:path"));
}

#[test]
fn is_scp_like_rejects_spaces_in_host() {
    assert!(!is_scp_like("git@host name:path"));
}

#[test]
fn slug_and_path_accessors_roundtrip() {
    let repo_id = RepoId::new("demo").unwrap();
    let template_id = TemplateId::new("base").unwrap();
    let source = CloneSource::new("file:///tmp/source").unwrap();
    let relative = RelativePath::new("nested/path", "relative path").unwrap();

    assert_eq!(repo_id.as_str(), "demo");
    assert_eq!(repo_id.clone().into_string(), "demo");
    assert_eq!(template_id.as_str(), "base");
    assert_eq!(template_id.clone().into_string(), "base");
    assert_eq!(source.as_str(), "file:///tmp/source");
    assert_eq!(source.clone().into_string(), "file:///tmp/source");
    assert_eq!(relative.as_str(), "nested/path");
    assert_eq!(relative.clone().into_string(), "nested/path");
}

#[test]
fn path_and_slug_parse_from_strings() {
    assert_eq!("demo".parse::<RepoId>().unwrap().as_str(), "demo");
    assert_eq!("base".parse::<TemplateId>().unwrap().as_str(), "base");
    assert_eq!(
        "ssh://example.com/repo.git".parse::<CloneSource>().unwrap().as_str(),
        "ssh://example.com/repo.git"
    );
    assert_eq!(RelativePath::parse("nested/tool").unwrap().as_str(), "nested/tool");
}

#[test]
fn invalid_slug_reports_label_and_value() {
    match validate_slug("Bad", "template id") {
        Err(Error::Validation(ValidationError::InvalidSlug { label, value })) => {
            assert_eq!(label, "template id");
            assert_eq!(value, "Bad");
        }
        other => panic!("unexpected: {:?}", other),
    }
}

#[test]
fn repo_id_rejects_non_slug_with_repo_id_label() {
    let err = RepoId::new("Not Valid").unwrap_err();
    assert_eq!(
        err.message(),
        "invalid repo id `Not Valid`; expected slug starting with [a-z0-9_] and continuing with [a-z0-9_-]*"
    );
}

#[test]
fn normalize_relative_path_keeps_trailing_slash_out() {
    assert_eq!(normalize_relative_path("a/b/", "test").unwrap(), "a/b");
    assert_eq!(normalize_relative_path("a//b", "test").unwrap(), "a/b");
}

#[test]
fn clone_source_validation_accepts_known_schemes_only() {
    assert!(validate_clone_source_value("").is_err());
    assert!(validate_clone_source_value("/local/path").is_err());
    assert!(validate_clone_source_value("https://example.com/repo.git").is_ok());
    assert!(validate_clone_source_value("file:///srv/repo").is_ok());
    assert!(validate_clone_source_value("git@example.com:org/repo").is_ok());
}

#[test]
fn normalizing_a_normal_form_changes_nothing() {
    for raw in ["./a/./b", "a//b/", ".loki", "x/./y/z"] {
        let once = normalize_relative_path(raw, "test").unwrap();
        let twice = normalize_relative_path(&once, "test").unwrap();
        assert_eq!(once, twice);
    }
}
