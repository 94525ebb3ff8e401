use agentbox::inspection::status_view::{aggregate_mount_state, AggregateMountState, ObservedMount};

#[test]
fn aggregate_mount_state_reports_no_mounts() {
    assert_eq!(aggregate_mount_state(0, 0, 0, false), AggregateMountState::NoMounts);
}

#[test]
fn aggregate_mount_state_reports_unmounted() {
    assert_eq!(aggregate_mount_state(2, 0, 0, false), AggregateMountState::Unmounted);
}

#[test]
fn aggregate_mount_state_reports_unknown_when_inspection_unavailable() {
    assert_eq!(aggregate_mount_state(1, 0, 0, true), AggregateMountState::Unknown);
}

#[test]
fn aggregate_mount_state_reports_mounted_partial_and_conflicted() {
    assert_eq!(aggregate_mount_state(2, 2, 0, false), AggregateMountState::Mounted);
    assert_eq!(aggregate_mount_state(2, 1, 0, false), AggregateMountState::Partial);
    assert_eq!(aggregate_mount_state(2, 1, 1, false), AggregateMountState::Conflicted);
}

#[test]
fn aggregate_mount_state_display_covers_all_labels() {
    assert_eq!(AggregateMountState::NoMounts.label(), "no-mounts");
    assert_eq!(AggregateMountState::Unmounted.label(), "unmounted");
    assert_eq!(AggregateMountState::Mounted.label(), "mounted");
    assert_eq!(AggregateMountState::Partial.label(), "partial");
    assert_eq!(AggregateMountState::Conflicted.label(), "conflicted");
    assert_eq!(AggregateMountState::Unknown.label(), "unknown");
}

#[test]
fn observed_mount_matches_preferred_source_and_rejects_unlisted_aliases() {
    let mount = ObservedMount {
        mount_id: 42,
        preferred_source: "/workspace/context/demo/ctx".to_string(),
        source_aliases: vec!["/workspace/context/demo/ctx".to_string()],
        target: "/workspace/repos/demo/ctx".to_string(),
        filesystem_type: "bind".to_string(),
    };

    assert!(mount.matches_source("/workspace/context/demo/ctx"));
    assert!(!mount.matches_source("/mnt/root/workspace/context/demo/ctx"));
    assert!(!mount.matches_source("/workspace/context/demo/other"));
}

#[test]
fn aggregate_mount_state_unknown_wins_over_conflicts() {
    assert_eq!(aggregate_mount_state(3, 1, 2, true), AggregateMountState::Unknown);
    assert_eq!(aggregate_mount_state(0, 0, 0, true), AggregateMountState::Unknown);
}
