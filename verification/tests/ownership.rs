use agentbox::mounts::ownership::{
    load_advisory, record_best_effort, remove_mount_best_effort, remove_repo_best_effort,
    state_from_persisted, MountOwnershipState, OwnedMountRecord,
};
use agentbox::shared::error::Error;
use agentbox::shared::mount_spec::MountSpec;
use agentbox::shared::types::{RelativePath, RepoId};

fn rel(path: &str) -> RelativePath {
    RelativePath::new(path, "test").expect("valid relative path")
}

fn owned_record() -> OwnedMountRecord {
    OwnedMountRecord {
        repo_id: RepoId::new("demo").expect("valid repo id"),
        context: rel("ctx"),
        repo: rel("target"),
        mount_id: 42,
        source_root: "/workspace/context/demo/ctx".to_string(),
        filesystem_type: "bind".to_string(),
    }
}

fn other_record() -> OwnedMountRecord {
    OwnedMountRecord {
        repo_id: RepoId::new("other").expect("valid repo id"),
        context: rel("ctx"),
        repo: rel("target"),
        mount_id: 43,
        source_root: "/workspace/context/other/ctx".to_string(),
        filesystem_type: "bind".to_string(),
    }
}

#[test]
fn state_upsert_replaces_existing_mount_spec_record() {
    let mut state = MountOwnershipState::new();
    let original = owned_record();
    let mut replacement = original.clone();
    replacement.mount_id = 84;

    state.upsert(original);
    state.upsert(replacement.clone());

    assert_eq!(state.records(), &vec![replacement]);
}

#[test]
fn remove_repo_drops_all_repo_records() {
    let mut state = MountOwnershipState::new();
    state.upsert(owned_record());
    state.upsert(other_record());

    state.remove_repo(&RepoId::new("demo").expect("valid repo id"));

    assert_eq!(state.records().len(), 1);
    assert_eq!(state.records()[0].repo_id.as_str(), "other");
}

#[test]
fn load_advisory_ignores_corrupt_receipts() {
    let state = load_advisory(Err(Error::TomlDeserialize { message: "not valid toml".to_string() }));
    assert!(state.records().is_empty());
}

#[test]
fn persisted_state_round_trips_records() {
    let state = state_from_persisted(1, vec![owned_record()], "/w/.agentbox/mounts.toml").unwrap();
    assert_eq!(state.records(), &vec![owned_record()]);
}

#[test]
fn persisted_state_rejects_unknown_version() {
    match state_from_persisted(2, vec![], "/w/state.toml") {
        Err(Error::IoPath { path, message }) => {
            assert_eq!(path, "/w/state.toml");
            assert_eq!(message, "unsupported mount ownership state version 2; expected 1");
        }
        other => panic!("unexpected: {:?}", other.map(|s| s.records().len())),
    }
}

#[test]
fn persisted_state_keeps_receipts_as_read() {
    let mut later = owned_record();
    later.mount_id = 99;
    let read = vec![other_record(), owned_record(), later.clone()];
    let state = state_from_persisted(1, read.clone(), "/p").unwrap();
    assert_eq!(state.records(), &read);
    let spec = MountSpec { context: rel("ctx"), repo: rel("target") };
    let demo = RepoId::new("demo").unwrap();
    assert_eq!(state.owned_mount(&demo, &spec), Some(&owned_record()));
    assert!(state.verifies_live_mount(&demo, &spec, 42, "/workspace/context/demo/ctx", "bind"));
    assert!(!state.verifies_live_mount(&demo, &spec, 99, "/workspace/context/demo/ctx", "bind"));
}

#[test]
fn upsert_sorts_receipts_read_out_of_order() {
    let mut state = state_from_persisted(1, vec![other_record(), owned_record()], "/p").unwrap();
    let mut replacement = owned_record();
    replacement.mount_id = 84;
    state.upsert(replacement.clone());
    assert_eq!(state.records(), &vec![replacement, other_record()]);
}

#[test]
fn upsert_drops_only_the_first_duplicate_and_keeps_order_among_equals() {
    let mut later = owned_record();
    later.mount_id = 99;
    let mut state = state_from_persisted(1, vec![owned_record(), later.clone()], "/p").unwrap();
    let mut replacement = owned_record();
    replacement.mount_id = 84;
    state.upsert(replacement.clone());
    assert_eq!(state.records(), &vec![later.clone(), replacement]);
    let spec = MountSpec { context: rel("ctx"), repo: rel("target") };
    let demo = RepoId::new("demo").unwrap();
    assert_eq!(state.owned_mount(&demo, &spec), Some(&later));
}

#[test]
fn upserted_receipt_verifies_its_live_mount() {
    let mut state = MountOwnershipState::new();
    state.upsert(owned_record());
    let spec = MountSpec { context: rel("ctx"), repo: rel("target") };
    let demo = RepoId::new("demo").unwrap();
    assert!(state.verifies_live_mount(&demo, &spec, 42, "/workspace/context/demo/ctx", "bind"));
    assert!(!state.verifies_live_mount(&demo, &spec, 43, "/workspace/context/demo/ctx", "bind"));
    assert!(!state.verifies_live_mount(&demo, &spec, 42, "/elsewhere", "bind"));
    assert!(!state.verifies_live_mount(&demo, &spec, 42, "/workspace/context/demo/ctx", "ext4"));
}

#[test]
fn remove_mount_returns_the_receipt() {
    let mut state = MountOwnershipState::new();
    state.upsert(owned_record());
    state.upsert(other_record());
    let spec = MountSpec { context: rel("ctx"), repo: rel("target") };
    let removed = state.remove_mount(&RepoId::new("demo").unwrap(), &spec);
    assert_eq!(removed, Some(owned_record()));
    assert_eq!(state.records(), &vec![other_record()]);
    assert_eq!(state.remove_mount(&RepoId::new("demo").unwrap(), &spec), None);
}

#[test]
fn best_effort_updates_follow_what_was_read() {
    let spec = MountSpec { context: rel("ctx"), repo: rel("target") };
    let demo = RepoId::new("demo").unwrap();
    let unreadable = || Err(Error::Io { message: "denied".to_string() });
    assert_eq!(record_best_effort(unreadable(), owned_record()).records(), &vec![owned_record()]);
    assert!(remove_mount_best_effort(unreadable(), &demo, &spec).is_none());
    assert!(remove_repo_best_effort(unreadable(), &demo).is_none());

    let mut state = MountOwnershipState::new();
    state.upsert(owned_record());
    let after = remove_mount_best_effort(Ok(state), &demo, &spec).unwrap();
    assert!(after.records().is_empty());
}
