use agentbox::inspection::evaluate::observed_mount_for_target;
use agentbox::inspection::status_view::{MountTableState, ObservedMount};
use agentbox::mounts::infra::{find_target_mount, is_expected_bind_mount_in, MountEntry};
use agentbox::mounts::ownership::OwnedMountRecord;
use agentbox::shared::types::{RelativePath, RepoId};

fn entry(source: &str, alias: &str, mount_point: &str) -> MountEntry {
    MountEntry {
        mount_id: 7,
        preferred_source: source.to_string(),
        source_aliases: vec![source.to_string(), alias.to_string()],
        mount_point: mount_point.to_string(),
        filesystem_type: "bind".to_string(),
    }
}

#[test]
fn mount_point_matches_target_as_a_path() {
    let mounts = vec![entry("/src", "/alias", "/x/")];
    assert!(find_target_mount(&mounts, "/x").is_some());
    assert!(find_target_mount(&mounts, "//x/./").is_some());
    assert!(find_target_mount(&mounts, "x").is_none());
    assert!(find_target_mount(&mounts, "/x/y/..").is_none());
    assert!(find_target_mount(&mounts, "/y").is_none());
}

#[test]
fn mount_source_and_aliases_match_as_paths() {
    let e = entry("/src", "/other/alias", "/x");
    assert!(e.matches_source("/src/"));
    assert!(e.matches_source("/other//alias"));
    assert!(!e.matches_source("/other/alias2"));
    assert!(!e.matches_source("src"));
    assert!(is_expected_bind_mount_in(&[e], "/src/.", "/x/"));
}

#[test]
fn leading_dot_component_is_kept() {
    let mounts = vec![entry("/src", "/alias", "./a")];
    assert!(find_target_mount(&mounts, "./a/").is_some());
    assert!(find_target_mount(&mounts, ".//a").is_some());
    assert!(find_target_mount(&mounts, "a").is_none());
}

#[test]
fn observed_mount_target_and_source_match_as_paths() {
    let observed = ObservedMount {
        mount_id: 3,
        preferred_source: "/s".to_string(),
        source_aliases: vec!["/s".to_string()],
        target: "/t/".to_string(),
        filesystem_type: "ext4".to_string(),
    };
    assert!(observed.matches_source("/s/"));
    let table = MountTableState::Available(vec![observed]);
    assert_eq!(observed_mount_for_target(&table, "/t").unwrap().mount_id, 3);
}

#[test]
fn receipt_source_root_matches_as_a_path() {
    let record = OwnedMountRecord {
        repo_id: RepoId::new("demo").unwrap(),
        context: RelativePath::new("ctx", "test").unwrap(),
        repo: RelativePath::new("target", "test").unwrap(),
        mount_id: 42,
        source_root: "/workspace/context/demo/ctx".to_string(),
        filesystem_type: "bind".to_string(),
    };
    assert!(record.matches_live_mount(42, "/workspace/context/demo/ctx/", "bind"));
    assert!(record.matches_live_mount(42, "/workspace//context/demo/ctx", "bind"));
    assert!(!record.matches_live_mount(42, "/workspace/context/demo", "bind"));
    assert!(!record.matches_live_mount(42, "/workspace/context/demo/ctx", "bind/"));
}
