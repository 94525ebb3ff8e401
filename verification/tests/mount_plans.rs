use agentbox::mounts::infra::MountEntry;
use agentbox::mounts::mount::{
    outcome_of, plan_mounts, receipt_for_bound_mount, MountOutcome, PreparedMount, RepoMountInput,
};
use agentbox::mounts::ownership::{MountOwnershipState, OwnedMountRecord};
use agentbox::mounts::support::TargetFacts;
use agentbox::mounts::unmount::{flatten_selected, plan_unmounts, UnmountAction, UnmountOutcome};
use agentbox::shared::error::{Error, MountWorkflowError, WorkspaceError};
use agentbox::shared::mount_spec::MountSpec;
use agentbox::shared::types::{RelativePath, RepoId};
use agentbox::workspace::Workspace;

const SOURCE: &str = "/workspace/context/demo/ctx";
const TARGET: &str = "/workspace/repos/demo/target";

fn rel(s: &str) -> RelativePath {
    RelativePath::new(s, "test").unwrap()
}

fn demo() -> RepoId {
    RepoId::new("demo").unwrap()
}

fn spec(context: &str, repo: &str) -> MountSpec {
    MountSpec { context: rel(context), repo: rel(repo) }
}

fn ws() -> Workspace {
    Workspace::new("/workspace".to_string())
}

fn live(id: u64, source: &str, target: &str, fs: &str) -> MountEntry {
    MountEntry {
        mount_id: id,
        preferred_source: source.to_string(),
        source_aliases: vec![source.to_string()],
        mount_point: target.to_string(),
        filesystem_type: fs.to_string(),
    }
}

fn free_target() -> TargetFacts {
    TargetFacts {
        target_exists: false,
        source_exists: true,
        target_is_matching_subset_of_source: false,
        target_is_dir: false,
        target_is_directory_only_scaffolding: false,
        target_is_empty_dir: false,
    }
}

fn different_files() -> TargetFacts {
    TargetFacts {
        target_exists: true,
        source_exists: true,
        target_is_matching_subset_of_source: false,
        target_is_dir: true,
        target_is_directory_only_scaffolding: false,
        target_is_empty_dir: false,
    }
}

fn input(materialized: bool, mounts: Vec<(MountSpec, TargetFacts)>) -> Vec<RepoMountInput> {
    vec![RepoMountInput { repo_id: demo(), materialized, mounts }]
}

fn receipt(mount_id: u64, source_root: &str, fs: &str) -> OwnedMountRecord {
    OwnedMountRecord {
        repo_id: demo(),
        context: rel("ctx"),
        repo: rel("target"),
        mount_id,
        source_root: source_root.to_string(),
        filesystem_type: fs.to_string(),
    }
}

#[test]
fn mount_plan_binds_free_target() {
    let plan = plan_mounts(&ws(), &input(true, vec![(spec("ctx", "target"), free_target())]), &vec![], &MountOwnershipState::new()).unwrap();
    assert_eq!(plan.len(), 1);
    match &plan[0] {
        PreparedMount::Bind { repo_id, mount, source, target } => {
            assert_eq!(repo_id, &demo());
            assert_eq!(mount, &spec("ctx", "target"));
            assert_eq!(source, SOURCE);
            assert_eq!(target, TARGET);
        }
        other => panic!("unexpected: {:?}", other),
    }
}

#[test]
fn mount_plan_reports_already_mounted_for_exact_source() {
    let table = vec![live(7, SOURCE, TARGET, "ext4")];
    let plan = plan_mounts(&ws(), &input(true, vec![(spec("ctx", "target"), different_files())]), &table, &MountOwnershipState::new()).unwrap();
    assert!(matches!(&plan[0], PreparedMount::AlreadyMounted { .. }));
    match outcome_of(plan.into_iter().next().unwrap()) {
        MountOutcome::AlreadyMounted { source, target } => {
            assert_eq!(source, SOURCE);
            assert_eq!(target, TARGET);
        }
        other => panic!("unexpected: {:?}", other),
    }
}

#[test]
fn mount_plan_rejects_foreign_source_without_receipt() {
    let table = vec![live(12, "/@workspace/context/demo/ctx", TARGET, "btrfs")];
    let error = plan_mounts(&ws(), &input(true, vec![(spec("ctx", "target"), free_target())]), &table, &MountOwnershipState::new()).unwrap_err();
    match error {
        Error::Mount(MountWorkflowError::MountTargetAlreadyMounted { mount_source, target, existing_source }) => {
            assert_eq!(mount_source, SOURCE);
            assert_eq!(target, TARGET);
            assert_eq!(existing_source, "/@workspace/context/demo/ctx");
        }
        other => panic!("unexpected: {:?}", other),
    }
}

#[test]
fn mount_plan_accepts_foreign_source_verified_by_receipt() {
    let table = vec![live(12, "/@workspace/context/demo/ctx", TARGET, "btrfs")];
    let mut owned = MountOwnershipState::new();
    owned.upsert(receipt(12, "/@workspace/context/demo/ctx", "btrfs"));
    let plan = plan_mounts(&ws(), &input(true, vec![(spec("ctx", "target"), free_target())]), &table, &owned).unwrap();
    assert!(matches!(&plan[0], PreparedMount::AlreadyMounted { .. }));
}

#[test]
fn mount_plan_refuses_to_hide_different_files() {
    let error = plan_mounts(&ws(), &input(true, vec![(spec("ctx", "target"), different_files())]), &vec![], &MountOwnershipState::new()).unwrap_err();
    assert!(matches!(error, Error::Mount(MountWorkflowError::MountTargetWouldHideDifferentFiles { .. })));
}

#[test]
fn mount_plan_requires_materialized_repo() {
    let error = plan_mounts(&ws(), &input(false, vec![(spec("ctx", "target"), free_target())]), &vec![], &MountOwnershipState::new()).unwrap_err();
    assert!(matches!(error, Error::Workspace(WorkspaceError::RepoNotMaterialized { .. })));
}

#[test]
fn mount_plan_checks_every_mount_before_binding_any() {
    let mounts = vec![(spec("a", "x"), free_target()), (spec("b", "y"), different_files())];
    let error = plan_mounts(&ws(), &input(true, mounts), &vec![], &MountOwnershipState::new()).unwrap_err();
    match error {
        Error::Mount(MountWorkflowError::MountTargetWouldHideDifferentFiles { target, .. }) => {
            assert_eq!(target, "/workspace/repos/demo/y");
        }
        other => panic!("unexpected: {:?}", other),
    }
}

#[test]
fn receipt_captures_the_live_mount_after_binding() {
    let table = vec![live(5, "/other", "/elsewhere", "ext4"), live(9, SOURCE, TARGET, "ext4")];
    let rec = receipt_for_bound_mount(&demo(), &spec("ctx", "target"), TARGET, Ok(table)).unwrap();
    assert_eq!(rec, receipt(9, SOURCE, "ext4"));
    assert!(receipt_for_bound_mount(&demo(), &spec("ctx", "target"), TARGET, Ok(vec![])).is_none());
    assert!(receipt_for_bound_mount(&demo(), &spec("ctx", "target"), TARGET, Err(Error::Io { message: "x".to_string() })).is_none());
}

fn selection() -> Vec<(RepoId, MountSpec)> {
    flatten_selected(&vec![(demo(), vec![spec("ctx", "target")])])
}

#[test]
fn unmount_plan_refuses_foreign_source() {
    let table = vec![live(3, "/foreign", TARGET, "ext4")];
    let plan = plan_unmounts(&ws(), &selection(), &table, &MountOwnershipState::new(), false);
    assert_eq!(plan.len(), 1);
    match &plan[0] {
        UnmountAction::Refuse(Error::Mount(MountWorkflowError::UnmountTargetConflicts { expected_source, existing_source, target })) => {
            assert_eq!(expected_source, SOURCE);
            assert_eq!(existing_source, "/foreign");
            assert_eq!(target, TARGET);
        }
        other => panic!("unexpected: {:?}", other),
    }
}

#[test]
fn unmount_plan_requires_receipt_unless_overridden() {
    let table = vec![live(3, SOURCE, TARGET, "ext4")];
    let plan = plan_unmounts(&ws(), &selection(), &table, &MountOwnershipState::new(), false);
    assert!(matches!(
        &plan[0],
        UnmountAction::Refuse(Error::Mount(MountWorkflowError::UnmountTargetOwnershipUnverified { .. }))
    ));
    let plan = plan_unmounts(&ws(), &selection(), &table, &MountOwnershipState::new(), true);
    assert!(matches!(&plan[0], UnmountAction::Unmount { .. }));
    let mut owned = MountOwnershipState::new();
    owned.upsert(receipt(3, SOURCE, "ext4"));
    let plan = plan_unmounts(&ws(), &selection(), &table, &owned, false);
    match plan.into_iter().next().unwrap() {
        action @ UnmountAction::Unmount { .. } => {
            assert!(matches!(
                agentbox::mounts::unmount::outcome_of(action),
                Some(UnmountOutcome::Unmounted { .. })
            ));
        }
        other => panic!("unexpected: {:?}", other),
    }
}

#[test]
fn unmount_plan_reports_already_unmounted() {
    let plan = plan_unmounts(&ws(), &selection(), &vec![], &MountOwnershipState::new(), false);
    match plan.into_iter().next().unwrap() {
        action @ UnmountAction::AlreadyUnmounted { .. } => match agentbox::mounts::unmount::outcome_of(action) {
            Some(UnmountOutcome::AlreadyUnmounted { target }) => assert_eq!(target, TARGET),
            other => panic!("unexpected: {:?}", other),
        },
        other => panic!("unexpected: {:?}", other),
    }
}

#[test]
fn unmount_plan_stops_at_first_refusal() {
    let sel = flatten_selected(&vec![(demo(), vec![spec("a", "x"), spec("b", "y"), spec("c", "z")])]);
    let table = vec![live(3, "/foreign", "/workspace/repos/demo/y", "ext4")];
    let plan = plan_unmounts(&ws(), &sel, &table, &MountOwnershipState::new(), false);
    assert_eq!(plan.len(), 2);
    assert!(matches!(&plan[0], UnmountAction::AlreadyUnmounted { .. }));
    assert!(matches!(&plan[1], UnmountAction::Refuse(_)));
}

#[test]
fn flatten_selected_keeps_repo_order() {
    let a = RepoId::new("a").unwrap();
    let b = RepoId::new("b").unwrap();
    let flat = flatten_selected(&vec![(a.clone(), vec![spec("1", "1"), spec("2", "2")]), (b.clone(), vec![spec("3", "3")])]);
    assert_eq!(flat.len(), 3);
    assert_eq!(flat[0].0, a);
    assert_eq!(flat[2].0, b);
    assert_eq!(flat[1].1, spec("2", "2"));
}
