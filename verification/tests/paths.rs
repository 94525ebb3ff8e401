use agentbox::shared::paths::{
    append_normalized_suffix, describe_non_utf8_path, join_path, resolve_relative,
    utf8_path_from_std, PathComponent,
};
use agentbox::shared::types::RelativePath;

#[test]
fn utf8_path_from_std_accepts_utf8_paths() {
    let path = b"/tmp/agentbox".to_vec();
    assert_eq!(utf8_path_from_std(path).unwrap(), "/tmp/agentbox");
}

#[test]
fn resolve_relative_joins_base_and_relative() {
    let relative = RelativePath::new("nested/config", "relative path").unwrap();
    assert_eq!(
        resolve_relative("/workspace/context", &relative),
        "/workspace/context/nested/config"
    );
}

#[test]
fn describe_non_utf8_os_str_renders_hex_bytes() {
    let value = vec![0x66, 0x6f, 0x80];
    assert_eq!(describe_non_utf8_path(&value), "non-UTF-8 bytes 0x666f80");
}

#[test]
fn utf8_path_from_std_rejects_non_utf8_paths() {
    let error = utf8_path_from_std(vec![0x66, 0x80]).unwrap_err();
    assert_eq!(
        error.message(),
        "path contains non-UTF-8 data and is unsupported: non-UTF-8 bytes 0x6680"
    );
}

#[test]
fn utf8_path_from_std_keeps_multibyte_text() {
    let path = "/tmp/ünïcode".as_bytes().to_vec();
    assert_eq!(utf8_path_from_std(path).unwrap(), "/tmp/ünïcode");
}

#[test]
fn join_path_inserts_one_separator() {
    assert_eq!(join_path("/a", "b"), "/a/b");
    assert_eq!(join_path("/a/", "b"), "/a/b");
    assert_eq!(join_path("", "b"), "b");
    assert_eq!(join_path("/", "b"), "/b");
}

#[test]
fn append_normalized_suffix_cleans_dot_segments() {
    let mut base = vec!["tmp".to_string()];
    let suffix = vec![
        PathComponent::Normal("agentbox".to_string()),
        PathComponent::CurDir,
        PathComponent::Normal("nested".to_string()),
        PathComponent::ParentDir,
        PathComponent::Normal("workspace".to_string()),
    ];
    append_normalized_suffix(&mut base, &suffix);
    assert_eq!(base, vec!["tmp", "agentbox", "workspace"]);
}

#[test]
fn append_normalized_suffix_never_climbs_above_root() {
    let mut base: Vec<String> = Vec::new();
    let suffix = vec![
        PathComponent::RootDir,
        PathComponent::ParentDir,
        PathComponent::ParentDir,
        PathComponent::Normal("etc".to_string()),
    ];
    append_normalized_suffix(&mut base, &suffix);
    assert_eq!(base, vec!["etc"]);
}
