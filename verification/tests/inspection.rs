use agentbox::inspection::evaluate::{
    evaluate_repo_mounts_with_options, inspect_registered_repo, inspect_repo_lifecycle_preflight,
    observed_mount_for_target,
};
use agentbox::inspection::load_mount_table::{
    load_mount_table_for_mutating_workflow, load_mount_table_for_read_only_inspection,
    needs_mutating_mount_inspection, needs_read_only_mount_inspection,
    read_only_repo_needs_mount_inspection,
};
use agentbox::inspection::mount_list::registered_mount_rows;
use agentbox::inspection::status_view::{AggregateMountState, MountTableState, ObservedMount};
use agentbox::mounts::infra::MountEntry;
use agentbox::mounts::ownership::{MountOwnershipState, OwnedMountRecord};
use agentbox::shared::error::{Error, InfraMountError};
use agentbox::shared::mount_spec::MountSpec;
use agentbox::shared::types::{CloneSource, RelativePath, RepoId};
use agentbox::workspace::Workspace;

const SOURCE: &str = "/workspace/context/demo/ctx";
const TARGET: &str = "/workspace/repos/demo/target";

fn rel(s: &str) -> RelativePath {
    RelativePath::new(s, "test").unwrap()
}

fn demo() -> RepoId {
    RepoId::new("demo").unwrap()
}

fn ws() -> Workspace {
    Workspace::new("/workspace".to_string())
}

fn mounts() -> Vec<MountSpec> {
    vec![MountSpec { context: rel("ctx"), repo: rel("target") }]
}

fn observed(id: u64, source: &str, target: &str) -> ObservedMount {
    ObservedMount {
        mount_id: id,
        preferred_source: source.to_string(),
        source_aliases: vec![source.to_string()],
        target: target.to_string(),
        filesystem_type: "ext4".to_string(),
    }
}

fn table(entries: Vec<ObservedMount>) -> MountTableState {
    MountTableState::Available(entries)
}

fn receipt(id: u64, source: &str) -> MountOwnershipState {
    let mut state = MountOwnershipState::new();
    state.upsert(OwnedMountRecord {
        repo_id: demo(),
        context: rel("ctx"),
        repo: rel("target"),
        mount_id: id,
        source_root: source.to_string(),
        filesystem_type: "ext4".to_string(),
    });
    state
}

#[test]
fn matching_live_mount_is_active() {
    let status = inspect_registered_repo(&ws(), &demo(), &CloneSource::new("file:///s").unwrap(), &mounts(), &table(vec![observed(1, SOURCE, TARGET)]), &MountOwnershipState::new(), false, true);
    assert_eq!(status.mount_state, AggregateMountState::Mounted);
    assert!(status.mounts[0].active);
    assert!(!status.mounts[0].conflicting_mount);
    assert_eq!(status.context_root, "/workspace/context/demo");
    assert_eq!(status.repo_root, "/workspace/repos/demo");
}

#[test]
fn alias_only_source_is_conflict_without_receipt_and_active_with_one() {
    let live = table(vec![observed(4, "/@workspace/context/demo/ctx", TARGET)]);
    let status = inspect_registered_repo(&ws(), &demo(), &CloneSource::new("file:///s").unwrap(), &mounts(), &live, &MountOwnershipState::new(), false, true);
    assert_eq!(status.mount_state, AggregateMountState::Conflicted);
    let owned = receipt(4, "/@workspace/context/demo/ctx");
    let status = inspect_registered_repo(&ws(), &demo(), &CloneSource::new("file:///s").unwrap(), &mounts(), &live, &owned, false, true);
    assert_eq!(status.mount_state, AggregateMountState::Mounted);
}

#[test]
fn unavailable_table_degrades_to_unknown() {
    let status = inspect_registered_repo(&ws(), &demo(), &CloneSource::new("file:///s").unwrap(), &mounts(), &MountTableState::Unavailable("boom".to_string()), &MountOwnershipState::new(), false, true);
    assert_eq!(status.mount_state, AggregateMountState::Unknown);
    assert!(status.mounts[0].inspection_unavailable);
}

#[test]
fn unmaterialized_repo_ignores_live_mounts_unless_asked() {
    let live = table(vec![observed(1, SOURCE, TARGET)]);
    let eval = evaluate_repo_mounts_with_options(&ws(), &demo(), &mounts(), &live, None, false, false);
    assert_eq!(eval.mount_state, AggregateMountState::Unmounted);
    assert!(eval.active_mount_targets.is_empty());
    let eval = evaluate_repo_mounts_with_options(&ws(), &demo(), &mounts(), &live, None, true, false);
    assert_eq!(eval.mount_state, AggregateMountState::Mounted);
    assert_eq!(eval.active_mount_targets, vec![TARGET.to_string()]);
}

#[test]
fn lifecycle_preflight_reports_active_and_unverified_mounts() {
    let live = table(vec![observed(1, SOURCE, TARGET)]);
    let p = inspect_repo_lifecycle_preflight(&ws(), &demo(), &mounts(), &live, &MountOwnershipState::new(), false);
    assert!(p.has_active_mounts);
    assert!(!p.has_conflicting_mounts);
    assert_eq!(p.active_mount_targets, vec![TARGET.to_string()]);
    assert_eq!(p.unverified_active_mounts.len(), 1);
    assert_eq!(p.unverified_active_mounts[0].existing_source, SOURCE);
    let p = inspect_repo_lifecycle_preflight(&ws(), &demo(), &mounts(), &live, &receipt(1, SOURCE), false);
    assert!(p.unverified_active_mounts.is_empty());
}

#[test]
fn lifecycle_preflight_reports_conflicting_mounts() {
    let live = table(vec![observed(1, "/foreign", TARGET)]);
    let p = inspect_repo_lifecycle_preflight(&ws(), &demo(), &mounts(), &live, &MountOwnershipState::new(), true);
    assert!(p.has_conflicting_mounts);
    assert!(!p.has_active_mounts);
    assert!(p.materialized);
}

#[test]
fn observed_mount_lookup_by_target() {
    let live = table(vec![observed(1, "/a", "/x"), observed(2, "/b", TARGET)]);
    assert_eq!(observed_mount_for_target(&live, TARGET).unwrap().mount_id, 2);
    assert!(observed_mount_for_target(&live, "/none").is_none());
    assert!(observed_mount_for_target(&MountTableState::Unavailable("e".to_string()), TARGET).is_none());
}

#[test]
fn read_only_inspection_need() {
    assert!(!read_only_repo_needs_mount_inspection(0, Some(true)));
    assert!(read_only_repo_needs_mount_inspection(1, Some(true)));
    assert!(!read_only_repo_needs_mount_inspection(1, Some(false)));
    assert!(read_only_repo_needs_mount_inspection(1, None));
    assert!(!needs_read_only_mount_inspection(&vec![(0, Some(true)), (2, Some(false))]));
    assert!(needs_read_only_mount_inspection(&vec![(0, Some(true)), (2, None)]));
}

#[test]
fn mutating_inspection_need_propagates_stat_failures() {
    assert_eq!(needs_mutating_mount_inspection(vec![(0, Ok(true)), (1, Ok(false))]).unwrap(), false);
    assert_eq!(needs_mutating_mount_inspection(vec![(1, Ok(true))]).unwrap(), true);
    let error = needs_mutating_mount_inspection(vec![(1, Err(Error::Io { message: "stat".to_string() }))]).unwrap_err();
    assert!(matches!(error, Error::Io { .. }));
}

fn entry(id: u64) -> MountEntry {
    MountEntry {
        mount_id: id,
        preferred_source: SOURCE.to_string(),
        source_aliases: vec![SOURCE.to_string()],
        mount_point: TARGET.to_string(),
        filesystem_type: "ext4".to_string(),
    }
}

#[test]
fn read_only_loading_degrades_and_skips() {
    match load_mount_table_for_read_only_inspection(false, Ok(vec![entry(1)])) {
        MountTableState::Available(es) => assert!(es.is_empty()),
        other => panic!("unexpected: {:?}", other),
    }
    match load_mount_table_for_read_only_inspection(true, Ok(vec![entry(1)])) {
        MountTableState::Available(es) => {
            assert_eq!(es.len(), 1);
            assert_eq!(es[0].target, TARGET);
        }
        other => panic!("unexpected: {:?}", other),
    }
    match load_mount_table_for_read_only_inspection(true, Err(Error::InfraMount(InfraMountError::Unsupported))) {
        MountTableState::Unavailable(message) => assert_eq!(message, "bind mounts are only supported on Linux in agentbox v1"),
        other => panic!("unexpected: {:?}", other),
    }
}

#[test]
fn mutating_loading_propagates_failure() {
    let error = load_mount_table_for_mutating_workflow(true, Err(Error::malformed_mount_table_entry(3, "bad".to_string()))).unwrap_err();
    assert!(matches!(error, Error::InfraMount(InfraMountError::MalformedMountTableEntry { line_no: 3, .. })));
    assert!(load_mount_table_for_mutating_workflow(false, Err(Error::Io { message: "x".to_string() })).is_ok());
}

#[test]
fn mount_rows_pair_specs_with_status() {
    let status = inspect_registered_repo(&ws(), &demo(), &CloneSource::new("file:///s").unwrap(), &mounts(), &table(vec![]), &MountOwnershipState::new(), false, true);
    let rows = registered_mount_rows(&demo(), &mounts(), &status);
    assert_eq!(rows.len(), 1);
    assert_eq!(rows[0].repo_path.as_str(), "target");
    assert_eq!(rows[0].context_path.as_str(), "ctx");
    assert_eq!(rows[0].source, SOURCE);
    assert_eq!(rows[0].target, TARGET);
    assert!(rows[0].materialized);
    assert!(!rows[0].active);
}

use agentbox::inspection::evaluate::{lifecycle_preflights, repo_statuses, InspectionRepoSnapshot};

#[test]
fn statuses_follow_the_selected_repo_order() {
    let zulu = RepoId::new("zulu").unwrap();
    let snapshot = |id: &RepoId, materialized: bool| InspectionRepoSnapshot {
        repo_id: id.clone(),
        source: CloneSource::new("file:///s").unwrap(),
        repo_mounts: vec![],
        inspect_non_materialized_live_mounts: false,
        materialized,
    };
    let statuses = repo_statuses(&ws(), &vec![snapshot(&zulu, false), snapshot(&demo(), true)], &table(vec![]), &MountOwnershipState::new());
    assert_eq!(statuses.len(), 2);
    assert_eq!(statuses[0].repo_id, zulu);
    assert_eq!(statuses[0].mount_state, AggregateMountState::NoMounts);
    assert!(statuses[1].materialized);
}

#[test]
fn preflights_follow_the_selected_repo_order() {
    let live = table(vec![observed(1, SOURCE, TARGET)]);
    let other = RepoId::new("other").unwrap();
    let preflights = lifecycle_preflights(&ws(), &vec![(demo(), mounts(), true), (other.clone(), vec![], false)], &live, &MountOwnershipState::new());
    assert_eq!(preflights.len(), 2);
    assert!(preflights[0].has_active_mounts);
    assert_eq!(preflights[1].repo_id, other);
    assert!(!preflights[1].has_active_mounts);
}
