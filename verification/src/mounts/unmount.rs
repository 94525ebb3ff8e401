//! Deciding which registered mounts to unmount.
//!
//! The decisions rest on the mount table read before any change and on the
//! ownership receipts; the caller performs the unmounts in order and stops
//! at the first refusal or failure.
use vstd::prelude::*;

use crate::mounts::infra::{
    entry_matches_source, entry_views, find_target_mount, first_mount_at, MountEntry,
    MountEntryView,
};
use crate::mounts::ownership::{verifies_live, MountOwnershipState, OwnedMountView};
use crate::shared::error::{Error, MountWorkflowError};
use crate::shared::mount_spec::{spec_views, MountSpec, MountSpecView};
use crate::shared::types::RepoId;
use crate::workspace::{context_path_spec, repo_path_spec, Workspace};

verus! {

/// What happened to one registered mount when unmounting.
#[derive(Debug)]
pub enum UnmountOutcome {
    Unmounted { target: String },
    AlreadyUnmounted { target: String },
}

/// The flattened list of (repo, mount) pairs of a selection, in order.
pub open spec fn flat_mounts(sel: Seq<(Seq<char>, Seq<MountSpecView>)>) -> Seq<(Seq<char>, MountSpecView)>
    decreases sel.len(),
{
    if sel.len() == 0 {
        Seq::empty()
    } else {
        flat_mounts(sel.drop_last()) + sel.last().1.map_values(
            |m: MountSpecView| (sel.last().0, m),
        )
    }
}

pub open spec fn selection_views(v: Seq<(RepoId, Vec<MountSpec>)>) -> Seq<(Seq<char>, Seq<MountSpecView>)> {
    v.map_values(|p: (RepoId, Vec<MountSpec>)| (p.0@, spec_views(p.1@)))
}

pub open spec fn flat_views(v: Seq<(RepoId, MountSpec)>) -> Seq<(Seq<char>, MountSpecView)> {
    v.map_values(|p: (RepoId, MountSpec)| (p.0@, p.1@))
}

/// The (repo, mount) pairs of a selection, in order.
pub fn flatten_selected(selected: &Vec<(RepoId, Vec<MountSpec>)>) -> (r: Vec<(RepoId, MountSpec)>)
    ensures
        flat_views(r@) == flat_mounts(selection_views(selected@)),
{
    let ghost sel = selection_views(selected@);
    let mut out: Vec<(RepoId, MountSpec)> = Vec::new();
    let mut k: usize = 0;
    proof {
        assert(sel.take(0) =~= Seq::<(Seq<char>, Seq<MountSpecView>)>::empty());
        assert(flat_views(out@) =~= Seq::<(Seq<char>, MountSpecView)>::empty());
    }
    while k < selected.len()
        invariant
            sel == selection_views(selected@),
            k <= selected.len(),
            flat_views(out@) == flat_mounts(sel.take(k as int)),
        decreases selected.len() - k,
    {
        let id = &selected[k].0;
        let ms = &selected[k].1;
        let ghost base = flat_views(out@);
        let mut j: usize = 0;
        proof {
            assert(spec_views(ms@).take(0).map_values(|m: MountSpecView| (id@, m)) =~= Seq::<
                (Seq<char>, MountSpecView),
            >::empty());
            assert(flat_views(out@) =~= base + spec_views(ms@).take(0).map_values(
                |m: MountSpecView| (id@, m),
            ));
        }
        while j < ms.len()
            invariant
                j <= ms.len(),
                flat_views(out@) == base + spec_views(ms@).take(j as int).map_values(
                    |m: MountSpecView| (id@, m),
                ),
            decreases ms.len() - j,
        {
            let ghost before = flat_views(out@);
            out.push((id.clone(), ms[j].clone()));
            proof {
                assert(spec_views(ms@).take(j + 1).map_values(|m: MountSpecView| (id@, m))
                    =~= spec_views(ms@).take(j as int).map_values(|m: MountSpecView| (id@, m)).push(
                    (id@, ms@[j as int]@),
                ));
                assert(flat_views(out@) =~= before.push((id@, ms@[j as int]@)));
            }
            j = j + 1;
        }
        proof {
            assert(spec_views(ms@).take(ms.len() as int) =~= spec_views(ms@));
            assert(sel.take(k + 1).drop_last() =~= sel.take(k as int));
            assert(sel.take(k + 1).last() == sel[k as int]);
            assert(sel[k as int] == (id@, spec_views(ms@)));
        }
        k = k + 1;
    }
    proof {
        assert(sel.take(selected.len() as int) =~= sel);
    }
    out
}

/// The decision for one registered mount.
pub enum UnmountDecision {
    /// The target is mounted by us (or the caller accepts the risk): unmount it.
    Unmount { target: Seq<char> },
    /// Nothing is mounted at the target.
    AlreadyUnmounted { target: Seq<char> },
    /// The target is mounted from a source we cannot tie to this mount.
    Conflicts { expected_source: Seq<char>, existing_source: Seq<char>, target: Seq<char> },
    /// The target is mounted from the expected source but no receipt proves
    /// we made it.
    OwnershipUnverified { existing_source: Seq<char>, target: Seq<char> },
}

/// How mount `spec` of repo `id` is to be unmounted, given the mount table
/// and the receipts.
pub open spec fn unmount_decision(
    root: Seq<char>,
    id: Seq<char>,
    spec: MountSpecView,
    table: Seq<MountEntryView>,
    owned: Seq<OwnedMountView>,
    unsafe_unmount: bool,
) -> UnmountDecision {
    let source = context_path_spec(root, id, spec.context);
    let target = repo_path_spec(root, id, spec.repo);
    match first_mount_at(table, target) {
        None => UnmountDecision::AlreadyUnmounted { target },
        Some(i) => {
            let e = table[i];
            let verified = verifies_live(
                owned,
                id,
                spec,
                e.mount_id,
                e.preferred_source,
                e.filesystem_type,
            );
            if !entry_matches_source(e, source) && !verified {
                UnmountDecision::Conflicts {
                    expected_source: source,
                    existing_source: e.preferred_source,
                    target,
                }
            } else if !verified && !unsafe_unmount {
                UnmountDecision::OwnershipUnverified { existing_source: e.preferred_source, target }
            } else {
                UnmountDecision::Unmount { target }
            }
        },
    }
}

/// One step for the caller to take.
#[derive(Debug)]
pub enum UnmountAction {
    /// Unmount `target`, then drop the receipt of the mount.
    Unmount { repo_id: RepoId, mount: MountSpec, target: String },
    /// Drop the receipt of the mount; nothing is mounted.
    AlreadyUnmounted { repo_id: RepoId, mount: MountSpec, target: String },
    /// Stop with this error.
    Refuse(Error),
}

/// The action carries out the decision for mount `spec` of `id`.
pub open spec fn action_for(a: UnmountAction, id: Seq<char>, spec: MountSpecView, d: UnmountDecision) -> bool {
    match d {
        UnmountDecision::Unmount { target } => a matches UnmountAction::Unmount { repo_id, mount, target: t }
            && repo_id@ == id && mount@ == spec && t@ == target,
        UnmountDecision::AlreadyUnmounted { target } => a matches UnmountAction::AlreadyUnmounted {
            repo_id,
            mount,
            target: t,
        } && repo_id@ == id && mount@ == spec && t@ == target,
        UnmountDecision::Conflicts { expected_source, existing_source, target } => a matches UnmountAction::Refuse(
            Error::Mount(MountWorkflowError::UnmountTargetConflicts { expected_source: s, existing_source: x, target: t }),
        ) && s@ == expected_source && x@ == existing_source && t@ == target,
        UnmountDecision::OwnershipUnverified { existing_source, target } => a matches UnmountAction::Refuse(
            Error::Mount(MountWorkflowError::UnmountTargetOwnershipUnverified { existing_source: x, target: t }),
        ) && x@ == existing_source && t@ == target,
    }
}

fn decide_unmount(
    workspace: &Workspace,
    repo_id: &RepoId,
    mount_spec: &MountSpec,
    mount_table: &[MountEntry],
    owned_mounts: &MountOwnershipState,
    unsafe_unmount: bool,
) -> (r: UnmountAction)
    ensures
        action_for(
            r,
            repo_id@,
            mount_spec@,
            unmount_decision(
                workspace@,
                repo_id@,
                mount_spec@,
                entry_views(mount_table@),
                owned_mounts@,
                unsafe_unmount,
            ),
        ),
{
    let source = workspace.context_path(repo_id, &mount_spec.context);
    let target = workspace.repo_path(repo_id, &mount_spec.repo);
    match find_target_mount(mount_table, target.as_str()) {
        Some(existing) => {
            let verified = owned_mounts.verifies_live_mount(
                repo_id,
                mount_spec,
                existing.mount_id,
                existing.preferred_source.as_str(),
                existing.filesystem_type.as_str(),
            );
            if !existing.matches_source(source.as_str()) && !verified {
                return UnmountAction::Refuse(Error::Mount(MountWorkflowError::UnmountTargetConflicts {
                    expected_source: source,
                    existing_source: existing.preferred_source.clone(),
                    target,
                }));
            }
            if !verified && !unsafe_unmount {
                return UnmountAction::Refuse(Error::Mount(
                    MountWorkflowError::UnmountTargetOwnershipUnverified {
                        existing_source: existing.preferred_source.clone(),
                        target,
                    },
                ));
            }
            UnmountAction::Unmount { repo_id: repo_id.clone(), mount: mount_spec.clone(), target }
        },
        None => UnmountAction::AlreadyUnmounted {
            repo_id: repo_id.clone(),
            mount: mount_spec.clone(),
            target,
        },
    }
}

/// The actions for unmounting `mounts` in order: one per mount up to and
/// including the first refusal.
pub fn plan_unmounts(
    workspace: &Workspace,
    mounts: &Vec<(RepoId, MountSpec)>,
    mount_table: &Vec<MountEntry>,
    owned_mounts: &MountOwnershipState,
    unsafe_unmount: bool,
) -> (r: Vec<UnmountAction>)
    ensures
        r@.len() <= mounts@.len(),
        forall|i: int|
            0 <= i < r@.len() ==> action_for(
                #[trigger] r@[i],
                mounts@[i].0@,
                mounts@[i].1@,
                unmount_decision(
                    workspace@,
                    mounts@[i].0@,
                    mounts@[i].1@,
                    entry_views(mount_table@),
                    owned_mounts@,
                    unsafe_unmount,
                ),
            ),
        forall|i: int| 0 <= i < r@.len() - 1 ==> !(#[trigger] r@[i] is Refuse),
        r@.len() < mounts@.len() ==> r@.len() > 0 && r@[r@.len() - 1] is Refuse,
{
    let mut out: Vec<UnmountAction> = Vec::new();
    let mut i: usize = 0;
    while i < mounts.len()
        invariant
            i <= mounts.len(),
            out@.len() == i,
            forall|j: int|
                0 <= j < i ==> action_for(
                    #[trigger] out@[j],
                    mounts@[j].0@,
                    mounts@[j].1@,
                    unmount_decision(
                        workspace@,
                        mounts@[j].0@,
                        mounts@[j].1@,
                        entry_views(mount_table@),
                        owned_mounts@,
                        unsafe_unmount,
                    ),
                ),
            forall|j: int| 0 <= j < i ==> !(#[trigger] out@[j] is Refuse),
        decreases mounts.len() - i,
    {
        let action = decide_unmount(
            workspace,
            &mounts[i].0,
            &mounts[i].1,
            mount_table.as_slice(),
            owned_mounts,
            unsafe_unmount,
        );
        let refused = match &action {
            UnmountAction::Refuse(_) => true,
            _ => false,
        };
        out.push(action);
        if refused {
            return out;
        }
        i = i + 1;
    }
    out
}

/// What the caller reports for a carried-out action.
pub fn outcome_of(action: UnmountAction) -> (r: Option<UnmountOutcome>)
    ensures
        match action {
            UnmountAction::Unmount { target, .. } => r matches Some(UnmountOutcome::Unmounted { target: t })
                && t@ == target@,
            UnmountAction::AlreadyUnmounted { target, .. } => r matches Some(
                UnmountOutcome::AlreadyUnmounted { target: t },
            ) && t@ == target@,
            UnmountAction::Refuse(_) => r is None,
        },
{
    match action {
        UnmountAction::Unmount { target, .. } => Some(UnmountOutcome::Unmounted { target }),
        UnmountAction::AlreadyUnmounted { target, .. } => Some(UnmountOutcome::AlreadyUnmounted { target }),
        UnmountAction::Refuse(_) => None,
    }
}

/// An unmount is only ever planned for a target that is mounted, from the
/// expected source or with a receipt, and with a receipt unless the caller
/// allowed unverified unmounts.
pub proof fn law_unmount_only_owned(
    root: Seq<char>,
    id: Seq<char>,
    spec: MountSpecView,
    table: Seq<MountEntryView>,
    owned: Seq<OwnedMountView>,
    unsafe_unmount: bool,
)
    ensures
        unmount_decision(root, id, spec, table, owned, unsafe_unmount) is Unmount ==> {
            let target = repo_path_spec(root, id, spec.repo);
            &&& first_mount_at(table, target) is Some
            &&& {
                let e = table[first_mount_at(table, target)->Some_0];
                let verified = verifies_live(owned, id, spec, e.mount_id, e.preferred_source, e.filesystem_type);
                &&& (entry_matches_source(e, context_path_spec(root, id, spec.context)) || verified)
                &&& (unsafe_unmount || verified)
            }
        },
{
}

} // verus!
