//! Deriving the status of a repo's mounts from the mount table and the
//! ownership receipts.
use vstd::prelude::*;

use crate::inspection::status_view::{
    aggregate_mount_state, aggregate_spec, observed_matches_source, observed_views,
    status_views, AggregateMountState, MountStatus, MountStatusView, MountTableState,
    MountTableView, ObservedMount, ObservedMountView, RegisteredMountStatus, RepoLifecyclePreflight,
    RepoStatus, UnverifiedActiveMount,
};
use crate::mounts::ownership::{verifies_live, MountOwnershipState, OwnedMountView};
use crate::shared::error::Error;
use crate::shared::mount_spec::{spec_views, MountSpec, MountSpecView};
use crate::shared::paths::{paths_equal, same_path};
use crate::shared::types::{CloneSource, RepoId};
use crate::workspace::{context_path_spec, repo_context_root_spec, repo_path_spec, repo_root_spec, Workspace};

verus! {

/// The index of the first observed mount at or after `i` whose target is,
/// as a path, `target`.
pub open spec fn observed_at_from(es: Seq<ObservedMountView>, target: Seq<char>, i: int) -> Option<int>
    decreases es.len() - i,
{
    if i < 0 || i >= es.len() {
        None
    } else if same_path(es[i].target, target) {
        Some(i)
    } else {
        observed_at_from(es, target, i + 1)
    }
}

/// The mount observed at `target`, if the table is available and has one.
pub open spec fn observed_for_target(t: MountTableView, target: Seq<char>) -> Option<ObservedMountView> {
    match t {
        MountTableView::Available(es) => match observed_at_from(es, target, 0) {
            Some(i) => Some(es[i]),
            None => None,
        },
        MountTableView::Unavailable(_) => None,
    }
}

/// The first observed mount whose target is, as a path, `target`.
pub fn observed_mount_for_target<'a>(mount_table: &'a MountTableState, target: &str) -> (r: Option<&'a ObservedMount>)
    ensures
        match (r, observed_for_target(mount_table@, target@)) {
            (Some(a), Some(b)) => a@ == b,
            (None, None) => true,
            _ => false,
        },
{
    match mount_table {
        MountTableState::Available(entries) => {
            let ghost es = observed_views(entries@);
            let mut i: usize = 0;
            while i < entries.len()
                invariant
                    es == observed_views(entries@),
                    mount_table@ == MountTableView::Available(es),
                    i <= entries.len(),
                    observed_at_from(es, target@, 0) == observed_at_from(es, target@, i as int),
                decreases entries.len() - i,
            {
                proof {
                    assert(es[i as int] == entries@[i as int]@);
                }
                if paths_equal(entries[i].target.as_str(), target) {
                    return Some(&entries[i]);
                }
                i = i + 1;
            }
            None
        },
        MountTableState::Unavailable(_) => None,
    }
}

/// A receipt (when receipts are consulted) vouches for the observed mount.
pub open spec fn owned_verifies(
    owned: Option<Seq<OwnedMountView>>,
    id: Seq<char>,
    spec: MountSpecView,
    e: ObservedMountView,
) -> bool {
    match owned {
        Some(o) => verifies_live(o, id, spec, e.mount_id, e.preferred_source, e.filesystem_type),
        None => false,
    }
}

/// What inspecting one mount finds.
pub struct MountEval {
    pub status: MountStatusView,
    pub active: bool,
    pub conflicting: bool,
    /// The source and target of an active mount no receipt vouches for.
    pub unverified: Option<(Seq<char>, Seq<char>)>,
}

/// Inspecting mount `spec` of `id`: when the table is unavailable nothing
/// is known; otherwise a mount at the target (if live mounts are looked
/// at) is active when it comes from the expected source or a receipt
/// vouches for it, and conflicting when it does neither.
pub open spec fn mount_eval(
    root: Seq<char>,
    id: Seq<char>,
    spec: MountSpecView,
    table: MountTableView,
    owned: Option<Seq<OwnedMountView>>,
    should_inspect: bool,
    unavailable: bool,
) -> MountEval {
    let source = context_path_spec(root, id, spec.context);
    let target = repo_path_spec(root, id, spec.repo);
    if unavailable {
        MountEval {
            status: MountStatusView {
                source,
                target,
                active: false,
                conflicting_mount: false,
                inspection_unavailable: true,
            },
            active: false,
            conflicting: false,
            unverified: None,
        }
    } else {
        let tm = if should_inspect {
            observed_for_target(table, target)
        } else {
            None
        };
        let active = match tm {
            Some(e) => observed_matches_source(e, source) || owned_verifies(owned, id, spec, e),
            None => false,
        };
        let conflicting = tm is Some && !active;
        let unverified = match tm {
            Some(e) => if active && owned is Some && !owned_verifies(owned, id, spec, e) {
                Some((e.preferred_source, target))
            } else {
                None
            },
            None => None,
        };
        MountEval {
            status: MountStatusView {
                source,
                target,
                active,
                conflicting_mount: conflicting,
                inspection_unavailable: false,
            },
            active,
            conflicting,
            unverified,
        }
    }
}

pub open spec fn count_active(es: Seq<MountEval>) -> nat
    decreases es.len(),
{
    if es.len() == 0 {
        0
    } else {
        count_active(es.drop_last()) + if es.last().active {
            1nat
        } else {
            0nat
        }
    }
}

pub open spec fn count_conflicting(es: Seq<MountEval>) -> nat
    decreases es.len(),
{
    if es.len() == 0 {
        0
    } else {
        count_conflicting(es.drop_last()) + if es.last().conflicting {
            1nat
        } else {
            0nat
        }
    }
}

/// The targets of the active mounts, in order.
pub open spec fn active_targets(es: Seq<MountEval>) -> Seq<Seq<char>>
    decreases es.len(),
{
    if es.len() == 0 {
        Seq::empty()
    } else if es.last().active {
        active_targets(es.drop_last()).push(es.last().status.target)
    } else {
        active_targets(es.drop_last())
    }
}

/// The active mounts no receipt vouches for, in order.
pub open spec fn unverified_mounts(es: Seq<MountEval>) -> Seq<(Seq<char>, Seq<char>)>
    decreases es.len(),
{
    if es.len() == 0 {
        Seq::empty()
    } else {
        match es.last().unverified {
            Some(u) => unverified_mounts(es.drop_last()).push(u),
            None => unverified_mounts(es.drop_last()),
        }
    }
}

/// Live mounts are looked at for a cloned repo, or when asked to.
pub open spec fn should_inspect(materialized: bool, inspect_when_not_materialized: bool) -> bool {
    materialized || inspect_when_not_materialized
}

/// The table is needed and unreadable.
pub open spec fn inspection_unavailable(
    materialized: bool,
    inspect_when_not_materialized: bool,
    mount_count: nat,
    table: MountTableView,
) -> bool {
    should_inspect(materialized, inspect_when_not_materialized) && mount_count > 0
        && table is Unavailable
}

/// The inspection of each mount of a repo, in order.
pub open spec fn mount_evals(
    root: Seq<char>,
    id: Seq<char>,
    mounts: Seq<MountSpecView>,
    table: MountTableView,
    owned: Option<Seq<OwnedMountView>>,
    materialized: bool,
    inspect_when_not_materialized: bool,
) -> Seq<MountEval> {
    mounts.map_values(
        |m: MountSpecView|
            mount_eval(
                root,
                id,
                m,
                table,
                owned,
                should_inspect(materialized, inspect_when_not_materialized),
                inspection_unavailable(materialized, inspect_when_not_materialized, mounts.len(), table),
            ),
    )
}

/// What inspecting a repo's mounts found.
#[derive(Debug)]
pub struct RepoMountEvaluation {
    pub materialized: bool,
    pub mount_state: AggregateMountState,
    pub mounts: Vec<MountStatus>,
    pub active_mount_targets: Vec<String>,
    pub unverified_active_mounts: Vec<UnverifiedActiveMount>,
    pub has_conflicting_mounts: bool,
}

pub open spec fn unverified_views(v: Seq<UnverifiedActiveMount>) -> Seq<(Seq<char>, Seq<char>)> {
    v.map_values(|u: UnverifiedActiveMount| (u.existing_source@, u.target@))
}

/// The evaluation matches the inspections of the mounts.
pub open spec fn evaluation_matches(r: RepoMountEvaluation, es: Seq<MountEval>, materialized: bool, unavailable: bool) -> bool {
    &&& r.materialized == materialized
    &&& status_views(r.mounts@) == es.map_values(|e: MountEval| e.status)
    &&& crate::mounts::infra::string_views(r.active_mount_targets@) == active_targets(es)
    &&& unverified_views(r.unverified_active_mounts@) == unverified_mounts(es)
    &&& r.mount_state == aggregate_spec(es.len(), count_active(es), count_conflicting(es), unavailable)
    &&& r.has_conflicting_mounts == (count_conflicting(es) > 0)
}

proof fn lemma_counts_bounded(es: Seq<MountEval>)
    ensures
        count_active(es) <= es.len(),
        count_conflicting(es) <= es.len(),
    decreases es.len(),
{
    if es.len() > 0 {
        lemma_counts_bounded(es.drop_last());
    }
}

fn evaluate_mount(
    workspace: &Workspace,
    repo_id: &RepoId,
    mount_spec: &MountSpec,
    mount_table: &MountTableState,
    owned_mounts: Option<&MountOwnershipState>,
    should_inspect: bool,
    unavailable: bool,
) -> (r: (MountStatus, Option<UnverifiedActiveMount>))
    ensures
        ({
            let e = mount_eval(
                workspace@,
                repo_id@,
                mount_spec@,
                mount_table@,
                match owned_mounts {
                    Some(o) => Some(o@),
                    None => None,
                },
                should_inspect,
                unavailable,
            );
            &&& r.0@ == e.status
            &&& match (r.1, e.unverified) {
                (Some(u), Some(v)) => (u.existing_source@, u.target@) == v,
                (None, None) => true,
                _ => false,
            }
        }),
{
    let ghost owned = match owned_mounts {
        Some(o) => Some(o@),
        None => None,
    };
    let source = workspace.context_path(repo_id, &mount_spec.context);
    let target = workspace.repo_path(repo_id, &mount_spec.repo);
    if unavailable {
        return (
            MountStatus {
                source,
                target,
                active: false,
                conflicting_mount: false,
                inspection_unavailable: true,
            },
            None,
        );
    }
    let target_mount = if should_inspect {
        observed_mount_for_target(mount_table, target.as_str())
    } else {
        None
    };
    let (active, conflicting, unverified) = match target_mount {
        Some(entry) => {
            let verified = match owned_mounts {
                Some(o) => o.verifies_live_mount(
                    repo_id,
                    mount_spec,
                    entry.mount_id,
                    entry.preferred_source.as_str(),
                    entry.filesystem_type.as_str(),
                ),
                None => false,
            };
            let active = entry.matches_source(source.as_str()) || verified;
            let unverified = if active && owned_mounts.is_some() && !verified {
                Some(UnverifiedActiveMount {
                    existing_source: entry.preferred_source.clone(),
                    target: target.clone(),
                })
            } else {
                None
            };
            (active, !active, unverified)
        },
        None => (false, false, None),
    };
    (
        MountStatus {
            source,
            target,
            active,
            conflicting_mount: conflicting,
            inspection_unavailable: false,
        },
        unverified,
    )
}

/// Inspects each mount of a repo. `materialized` is whether the repo is
/// cloned; live mounts are looked at for a cloned repo, or when
/// `inspect_when_not_materialized` asks for it.
pub fn evaluate_repo_mounts_with_options(
    workspace: &Workspace,
    repo_id: &RepoId,
    repo_mounts: &[MountSpec],
    mount_table: &MountTableState,
    owned_mounts: Option<&MountOwnershipState>,
    inspect_when_not_materialized: bool,
    materialized: bool,
) -> (r: RepoMountEvaluation)
    ensures
        evaluation_matches(
            r,
            mount_evals(
                workspace@,
                repo_id@,
                spec_views(repo_mounts@),
                mount_table@,
                match owned_mounts {
                    Some(o) => Some(o@),
                    None => None,
                },
                materialized,
                inspect_when_not_materialized,
            ),
            materialized,
            inspection_unavailable(
                materialized,
                inspect_when_not_materialized,
                repo_mounts@.len(),
                mount_table@,
            ),
        ),
{
    let ghost owned = match owned_mounts {
        Some(o) => Some(o@),
        None => None,
    };
    let ghost ms = spec_views(repo_mounts@);
    let ghost es = mount_evals(
        workspace@,
        repo_id@,
        ms,
        mount_table@,
        owned,
        materialized,
        inspect_when_not_materialized,
    );
    let should_inspect = materialized || inspect_when_not_materialized;
    let unavailable = should_inspect && repo_mounts.len() > 0 && match mount_table {
        MountTableState::Unavailable(_) => true,
        MountTableState::Available(_) => false,
    };
    let mut mounts: Vec<MountStatus> = Vec::new();
    let mut active_count: usize = 0;
    let mut conflicting_count: usize = 0;
    let mut active_mount_targets: Vec<String> = Vec::new();
    let mut unverified_active_mounts: Vec<UnverifiedActiveMount> = Vec::new();
    let mut i: usize = 0;
    proof {
        assert(es.take(0) =~= Seq::<MountEval>::empty());
        assert(status_views(mounts@) =~= Seq::<MountStatusView>::empty());
        assert(crate::mounts::infra::string_views(active_mount_targets@) =~= Seq::<Seq<char>>::empty());
        assert(unverified_views(unverified_active_mounts@) =~= Seq::<(Seq<char>, Seq<char>)>::empty());
    }
    while i < repo_mounts.len()
        invariant
            ms == spec_views(repo_mounts@),
            es == mount_evals(workspace@, repo_id@, ms, mount_table@, owned, materialized, inspect_when_not_materialized),
            owned == match owned_mounts {
                Some(o) => Some(o@),
                None => None,
            },
            should_inspect == crate::inspection::evaluate::should_inspect(materialized, inspect_when_not_materialized),
            unavailable == inspection_unavailable(materialized, inspect_when_not_materialized, ms.len(), mount_table@),
            es.len() == repo_mounts@.len(),
            i <= repo_mounts.len(),
            status_views(mounts@) == es.take(i as int).map_values(|e: MountEval| e.status),
            active_count == count_active(es.take(i as int)),
            conflicting_count == count_conflicting(es.take(i as int)),
            crate::mounts::infra::string_views(active_mount_targets@) == active_targets(es.take(i as int)),
            unverified_views(unverified_active_mounts@) == unverified_mounts(es.take(i as int)),
        decreases repo_mounts.len() - i,
    {
        let (status, unverified) = evaluate_mount(
            workspace,
            repo_id,
            &repo_mounts[i],
            mount_table,
            owned_mounts,
            should_inspect,
            unavailable,
        );
        let ghost e = es[i as int];
        proof {
            assert(ms[i as int] == repo_mounts@[i as int]@);
            assert(e == mount_eval(workspace@, repo_id@, ms[i as int], mount_table@, owned, should_inspect, unavailable));
            assert(es.take(i + 1).drop_last() =~= es.take(i as int));
            assert(es.take(i + 1).last() == e);
            lemma_counts_bounded(es.take(i as int));
            assert(e.active == status.active);
            assert(e.conflicting == status.conflicting_mount);
        }
        if status.active {
            active_count = active_count + 1;
            let ghost before = active_mount_targets@;
            active_mount_targets.push(status.target.clone());
            proof {
                assert(crate::mounts::infra::string_views(active_mount_targets@) =~= crate::mounts::infra::string_views(
                    before,
                ).push(e.status.target));
            }
        }
        if status.conflicting_mount {
            conflicting_count = conflicting_count + 1;
        }
        match unverified {
            Some(u) => {
                let ghost before = unverified_active_mounts@;
                unverified_active_mounts.push(u);
                proof {
                    assert(unverified_views(unverified_active_mounts@) =~= unverified_views(before).push(
                        e.unverified->Some_0,
                    ));
                }
            },
            None => {},
        }
        let ghost before_m = mounts@;
        mounts.push(status);
        proof {
            assert(status_views(mounts@) =~= status_views(before_m).push(e.status));
            assert(es.take(i + 1).map_values(|e: MountEval| e.status) =~= es.take(i as int).map_values(
                |e: MountEval| e.status,
            ).push(e.status));
        }
        i = i + 1;
    }
    proof {
        assert(es.take(repo_mounts.len() as int) =~= es);
    }
    let mount_state = aggregate_mount_state(repo_mounts.len(), active_count, conflicting_count, unavailable);
    RepoMountEvaluation {
        materialized,
        mount_state,
        mounts,
        active_mount_targets,
        unverified_active_mounts,
        has_conflicting_mounts: conflicting_count > 0,
    }
}

/// When the table was needed and unreadable, the state is unknown and
/// nothing is reported active or conflicting.
pub proof fn law_unavailable_table_reports_unknown(
    root: Seq<char>,
    id: Seq<char>,
    mounts: Seq<MountSpecView>,
    table: MountTableView,
    owned: Option<Seq<OwnedMountView>>,
    materialized: bool,
    inspect_when_not_materialized: bool,
)
    requires
        inspection_unavailable(materialized, inspect_when_not_materialized, mounts.len(), table),
    ensures
        ({
            let es = mount_evals(root, id, mounts, table, owned, materialized, inspect_when_not_materialized);
            &&& aggregate_spec(es.len(), count_active(es), count_conflicting(es), true) == AggregateMountState::Unknown
            &&& forall|i: int| 0 <= i < es.len() ==> (#[trigger] es[i]).status.inspection_unavailable
                && !es[i].active && !es[i].conflicting
        }),
{
}

/// No mount is both active and conflicting, and a conflicting mount is one
/// observed at its target.
pub proof fn law_active_and_conflicting_exclusive(
    root: Seq<char>,
    id: Seq<char>,
    spec: MountSpecView,
    table: MountTableView,
    owned: Option<Seq<OwnedMountView>>,
    should_inspect: bool,
    unavailable: bool,
)
    ensures
        ({
            let e = mount_eval(root, id, spec, table, owned, should_inspect, unavailable);
            &&& !(e.active && e.conflicting)
            &&& e.conflicting ==> should_inspect && observed_for_target(
                table,
                repo_path_spec(root, id, spec.repo),
            ) is Some
        }),
{
}

/// `r` is the status of repo `id` with source `source` and mounts `ms`,
/// inspected against `table` and the receipts `owned`.
pub open spec fn is_status_for(
    r: RepoStatus,
    root: Seq<char>,
    id: Seq<char>,
    source: Seq<char>,
    ms: Seq<MountSpecView>,
    table: MountTableView,
    owned: Seq<OwnedMountView>,
    inspect: bool,
    materialized: bool,
) -> bool {
    let es = mount_evals(root, id, ms, table, Some(owned), materialized, inspect);
    &&& r.repo_id@ == id
    &&& r.source@ == source
    &&& r.context_root@ == repo_context_root_spec(root, id)
    &&& r.repo_root@ == repo_root_spec(root, id)
    &&& r.materialized == materialized
    &&& status_views(r.mounts@) == es.map_values(|e: MountEval| e.status)
    &&& r.mount_state == aggregate_spec(
        es.len(),
        count_active(es),
        count_conflicting(es),
        inspection_unavailable(materialized, inspect, ms.len(), table),
    )
}

/// Inspects a registered repo for its status.
pub fn inspect_registered_repo(
    workspace: &Workspace,
    repo_id: &RepoId,
    source: &CloneSource,
    repo_mounts: &[MountSpec],
    mount_table: &MountTableState,
    owned_mounts: &MountOwnershipState,
    inspect_non_materialized_live_mounts: bool,
    materialized: bool,
) -> (r: RepoStatus)
    ensures
        is_status_for(
            r,
            workspace@,
            repo_id@,
            source@,
            spec_views(repo_mounts@),
            mount_table@,
            owned_mounts@,
            inspect_non_materialized_live_mounts,
            materialized,
        ),
{
    let context_root = workspace.repo_context_root(repo_id);
    let repo_root = workspace.repo_root(repo_id);
    let evaluation = evaluate_repo_mounts_with_options(
        workspace,
        repo_id,
        repo_mounts,
        mount_table,
        Some(owned_mounts),
        inspect_non_materialized_live_mounts,
        materialized,
    );
    RepoStatus {
        repo_id: repo_id.clone(),
        source: source.clone(),
        context_root,
        repo_root,
        materialized: evaluation.materialized,
        mount_state: evaluation.mount_state,
        mounts: evaluation.mounts,
    }
}

/// `r` is what detaching or dematerializing repo `id` with mounts `ms`
/// needs to know, inspected against `table` and the receipts `owned`; live
/// mounts are looked at whether or not the repo is cloned.
pub open spec fn is_preflight_for(
    r: RepoLifecyclePreflight,
    root: Seq<char>,
    id: Seq<char>,
    ms: Seq<MountSpecView>,
    table: MountTableView,
    owned: Seq<OwnedMountView>,
    materialized: bool,
) -> bool {
    let es = mount_evals(root, id, ms, table, Some(owned), materialized, true);
    &&& r.repo_id@ == id
    &&& r.materialized == materialized
    &&& r.has_active_mounts == (active_targets(es).len() > 0)
    &&& r.has_conflicting_mounts == (count_conflicting(es) > 0)
    &&& crate::mounts::infra::string_views(r.active_mount_targets@) == active_targets(es)
    &&& unverified_views(r.unverified_active_mounts@) == unverified_mounts(es)
}

/// The lifecycle facts of a repo, for the mutating workflows: live mounts
/// are always looked at.
pub fn inspect_repo_lifecycle_preflight(
    workspace: &Workspace,
    repo_id: &RepoId,
    repo_mounts: &[MountSpec],
    mount_table: &MountTableState,
    owned_mounts: &MountOwnershipState,
    materialized: bool,
) -> (r: RepoLifecyclePreflight)
    ensures
        is_preflight_for(
            r,
            workspace@,
            repo_id@,
            spec_views(repo_mounts@),
            mount_table@,
            owned_mounts@,
            materialized,
        ),
{
    let evaluation = evaluate_repo_mounts_with_options(
        workspace,
        repo_id,
        repo_mounts,
        mount_table,
        Some(owned_mounts),
        true,
        materialized,
    );
    RepoLifecyclePreflight {
        repo_id: repo_id.clone(),
        materialized: evaluation.materialized,
        has_active_mounts: evaluation.active_mount_targets.len() > 0,
        has_conflicting_mounts: evaluation.has_conflicting_mounts,
        active_mount_targets: evaluation.active_mount_targets,
        unverified_active_mounts: evaluation.unverified_active_mounts,
    }
}


/// A selected repo as read from the manifest and the file system.
#[derive(Debug)]
pub struct InspectionRepoSnapshot {
    pub repo_id: RepoId,
    pub source: CloneSource,
    pub repo_mounts: Vec<MountSpec>,
    /// Live mounts are looked at even when the repo is not cloned.
    pub inspect_non_materialized_live_mounts: bool,
    pub materialized: bool,
}

/// The status of each selected repo, in order.
pub fn repo_statuses(
    workspace: &Workspace,
    repos: &Vec<InspectionRepoSnapshot>,
    mount_table: &MountTableState,
    owned_mounts: &MountOwnershipState,
) -> (r: Vec<RepoStatus>)
    ensures
        r@.len() == repos@.len(),
        forall|i: int|
            0 <= i < r@.len() ==> is_status_for(
                #[trigger] r@[i],
                workspace@,
                repos@[i].repo_id@,
                repos@[i].source@,
                spec_views(repos@[i].repo_mounts@),
                mount_table@,
                owned_mounts@,
                repos@[i].inspect_non_materialized_live_mounts,
                repos@[i].materialized,
            ),
{
    let mut out: Vec<RepoStatus> = Vec::new();
    let mut i: usize = 0;
    while i < repos.len()
        invariant
            i <= repos.len(),
            out@.len() == i,
            forall|k: int|
                0 <= k < i ==> is_status_for(
                    #[trigger] out@[k],
                    workspace@,
                    repos@[k].repo_id@,
                    repos@[k].source@,
                    spec_views(repos@[k].repo_mounts@),
                    mount_table@,
                    owned_mounts@,
                    repos@[k].inspect_non_materialized_live_mounts,
                    repos@[k].materialized,
                ),
        decreases repos.len() - i,
    {
        let repo = &repos[i];
        let status = inspect_registered_repo(
            workspace,
            &repo.repo_id,
            &repo.source,
            repo.repo_mounts.as_slice(),
            mount_table,
            owned_mounts,
            repo.inspect_non_materialized_live_mounts,
            repo.materialized,
        );
        out.push(status);
        i = i + 1;
    }
    out
}

/// The lifecycle facts of each selected repo, given with its mounts and
/// whether it is cloned, in order.
pub fn lifecycle_preflights(
    workspace: &Workspace,
    repos: &Vec<(RepoId, Vec<MountSpec>, bool)>,
    mount_table: &MountTableState,
    owned_mounts: &MountOwnershipState,
) -> (r: Vec<RepoLifecyclePreflight>)
    ensures
        r@.len() == repos@.len(),
        forall|i: int|
            0 <= i < r@.len() ==> is_preflight_for(
                #[trigger] r@[i],
                workspace@,
                repos@[i].0@,
                spec_views(repos@[i].1@),
                mount_table@,
                owned_mounts@,
                repos@[i].2,
            ),
{
    let mut out: Vec<RepoLifecyclePreflight> = Vec::new();
    let mut i: usize = 0;
    while i < repos.len()
        invariant
            i <= repos.len(),
            out@.len() == i,
            forall|k: int|
                0 <= k < i ==> is_preflight_for(
                    #[trigger] out@[k],
                    workspace@,
                    repos@[k].0@,
                    spec_views(repos@[k].1@),
                    mount_table@,
                    owned_mounts@,
                    repos@[k].2,
                ),
        decreases repos.len() - i,
    {
        let (repo_id, repo_mounts, materialized) = &repos[i];
        let preflight = inspect_repo_lifecycle_preflight(
            workspace,
            repo_id,
            repo_mounts.as_slice(),
            mount_table,
            owned_mounts,
            *materialized,
        );
        out.push(preflight);
        i = i + 1;
    }
    out
}

} // verus!
