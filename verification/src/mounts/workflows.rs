//! Registering, editing, removing and importing mounts, as changes of the
//! manifest. Checks that need the file system or the mount table take what
//! they showed as arguments.
use vstd::prelude::*;

use crate::mounts::infra::{entry_views, find_target_mount, first_mount_at, MountEntry};
use crate::mounts::store::{load_repo_mounts, replace_repo_mounts_tx};
use crate::mounts::support::{
    conflicts_with_any, conflicts_with_other, holds_mount, index_by_repo_path,
    map_mount_repo_error, mount_already_exists_error, mount_conflicts_error,
    mount_exists_or_conflicts_error, mount_not_found_error, mounts_with_added_mount,
    mounts_with_edited_mount, mounts_with_imported_mount, mounts_with_removed_mount,
};
use crate::persistence::manifest::{mounts_of, with_repo_mounts, PersistedManifest};
use crate::shared::error::{Error, InfraMountError, MountWorkflowError, WorkspaceError};
use crate::shared::mount_spec::{conflict_free, spec_views, MountSpec, MountSpecView};
use crate::shared::types::{RelativePath, RepoId};
use crate::workspace::{context_path_spec, repo_path_spec, Workspace};

verus! {

/// `e` reports, as a mount workflow error, that `id` is not registered.
pub open spec fn mount_repo_not_registered(e: Error, id: Seq<char>) -> bool {
    e matches Error::Mount(MountWorkflowError::RepoNotRegistered { repo_id }) && repo_id@ == id
}

/// A mount that was registered.
#[derive(Debug)]
pub struct AddedMount {
    pub repo_id: RepoId,
    pub mount: MountSpec,
}

/// Registers the mount `context_path -> repo_path` for a registered repo.
pub fn add_mount(
    manifest: &mut PersistedManifest,
    repo_id: RepoId,
    context_path: RelativePath,
    repo_path: RelativePath,
) -> (r: Result<AddedMount, Error>)
    ensures
        ({
            let ms = mounts_of(old(manifest)@.mounts, repo_id@);
            let m = MountSpecView { context: context_path@, repo: repo_path@ };
            &&& !old(manifest)@.repos.contains_key(repo_id@) ==> (r matches Err(e)
                && mount_repo_not_registered(e, repo_id@))
            &&& old(manifest)@.repos.contains_key(repo_id@) && holds_mount(ms, m) ==> (r matches Err(e)
                && mount_already_exists_error(e, repo_id@, m))
            &&& old(manifest)@.repos.contains_key(repo_id@) && !holds_mount(ms, m)
                && conflicts_with_any(ms, m) ==> (r matches Err(e) && mount_conflicts_error(
                e,
                repo_id@,
                m,
            ))
            &&& old(manifest)@.repos.contains_key(repo_id@) && !holds_mount(ms, m)
                && !conflicts_with_any(ms, m) && conflict_free(ms) ==> (r matches Ok(a) && a.repo_id@
                == repo_id@ && a.mount@ == m && final(manifest)@ == with_repo_mounts(
                old(manifest)@,
                repo_id@,
                ms.push(m),
            ))
            &&& r is Ok ==> final(manifest)@ == with_repo_mounts(old(manifest)@, repo_id@, ms.push(m))
            &&& r is Err ==> final(manifest)@ == old(manifest)@
        }),
{
    let mount = MountSpec { context: context_path, repo: repo_path };
    let mounts = match load_repo_mounts(manifest, &repo_id) {
        Ok(mounts) => mounts,
        Err(e) => return Err(map_mount_repo_error(e)),
    };
    let next = mounts_with_added_mount(&repo_id, mounts.as_slice(), mount.clone())?;
    proof {
        if conflict_free(spec_views(mounts@)) {
            crate::mounts::support::law_add_keeps_conflict_free(spec_views(mounts@), mount@);
        }
    }
    match replace_repo_mounts_tx(manifest, &repo_id, next) {
        Ok(()) => {},
        Err(e) => return Err(map_mount_repo_error(e)),
    }
    Ok(AddedMount { repo_id, mount })
}

/// A mount whose context path was changed.
#[derive(Debug)]
pub struct EditedMount {
    pub repo_id: RepoId,
    pub mount: MountSpec,
}

/// What editing a mount will write, once the old mount's target is checked.
#[derive(Debug)]
pub struct EditPlan {
    pub repo_id: RepoId,
    pub next_mounts: Vec<MountSpec>,
    pub previous_mount: MountSpec,
    pub updated_mount: MountSpec,
}

/// Finds the mount of a registered repo targeting `repo_path` and checks
/// that its new context path conflicts with no other mount.
pub fn plan_edit_mount(
    manifest: &PersistedManifest,
    repo_id: RepoId,
    repo_path: &RelativePath,
    new_context_path: RelativePath,
) -> (r: Result<EditPlan, Error>)
    ensures
        ({
            let ms = mounts_of(manifest@.mounts, repo_id@);
            let updated = MountSpecView { context: new_context_path@, repo: repo_path@ };
            &&& !manifest@.repos.contains_key(repo_id@) ==> (r matches Err(e) && mount_repo_not_registered(
                e,
                repo_id@,
            ))
            &&& manifest@.repos.contains_key(repo_id@) ==> match index_by_repo_path(ms, repo_path@) {
                None => r matches Err(e) && mount_not_found_error(e, repo_id@, repo_path@),
                Some(i) => if conflicts_with_other(ms, i, updated) {
                    r matches Err(e) && mount_conflicts_error(e, repo_id@, updated)
                } else {
                    r matches Ok(p) && p.repo_id@ == repo_id@ && spec_views(p.next_mounts@) == ms.update(
                        i,
                        updated,
                    ) && p.previous_mount@ == ms[i] && p.updated_mount@ == updated
                },
            }
        }),
{
    let mounts = match load_repo_mounts(manifest, &repo_id) {
        Ok(mounts) => mounts,
        Err(e) => return Err(map_mount_repo_error(e)),
    };
    proof {
        crate::mounts::support::lemma_index_by_repo_path_from(spec_views(mounts@), repo_path@, 0);
    }
    let (next_mounts, previous_mount, updated_mount) = mounts_with_edited_mount(
        &repo_id,
        mounts.as_slice(),
        repo_path,
        new_context_path,
    )?;
    Ok(EditPlan { repo_id, next_mounts, previous_mount, updated_mount })
}

/// Writes an edit once the old mount's target was checked (`target_check`
/// is what that check gave).
pub fn commit_edit_mount(manifest: &mut PersistedManifest, plan: EditPlan, target_check: Result<(), Error>) -> (r: Result<EditedMount, Error>)
    ensures
        r is Err ==> final(manifest)@ == old(manifest)@,
        target_check matches Err(e0) ==> (r matches Err(e) && e == e0),
        target_check is Ok && r is Ok ==> final(manifest)@ == with_repo_mounts(
            old(manifest)@,
            plan.repo_id@,
            spec_views(plan.next_mounts@),
        ) && r->Ok_0.repo_id@ == plan.repo_id@ && r->Ok_0.mount@ == plan.updated_mount@,
        target_check is Ok && old(manifest)@.repos.contains_key(plan.repo_id@) && conflict_free(
            spec_views(plan.next_mounts@),
        ) ==> r is Ok,
{
    match target_check {
        Err(e) => return Err(e),
        Ok(()) => {},
    }
    let EditPlan { repo_id, next_mounts, previous_mount: _, updated_mount } = plan;
    match replace_repo_mounts_tx(manifest, &repo_id, next_mounts) {
        Ok(()) => {},
        Err(e) => return Err(map_mount_repo_error(e)),
    }
    Ok(EditedMount { repo_id, mount: updated_mount })
}

/// A mount that was unregistered.
#[derive(Debug)]
pub struct RemovedMount {
    pub repo_id: RepoId,
    pub mount: MountSpec,
}

/// What removing a mount will write, once its target is checked.
#[derive(Debug)]
pub struct RemovePlan {
    pub repo_id: RepoId,
    pub next_mounts: Vec<MountSpec>,
    pub removed_mount: MountSpec,
}

/// Finds the mount of a registered repo targeting `repo_path`.
pub fn plan_remove_mount(manifest: &PersistedManifest, repo_id: RepoId, repo_path: &RelativePath) -> (r: Result<RemovePlan, Error>)
    ensures
        ({
            let ms = mounts_of(manifest@.mounts, repo_id@);
            &&& !manifest@.repos.contains_key(repo_id@) ==> (r matches Err(e) && mount_repo_not_registered(
                e,
                repo_id@,
            ))
            &&& manifest@.repos.contains_key(repo_id@) ==> match index_by_repo_path(ms, repo_path@) {
                None => r matches Err(e) && mount_not_found_error(e, repo_id@, repo_path@),
                Some(i) => r matches Ok(p) && p.repo_id@ == repo_id@ && spec_views(p.next_mounts@)
                    == ms.remove(i) && p.removed_mount@ == ms[i],
            }
        }),
{
    let mounts = match load_repo_mounts(manifest, &repo_id) {
        Ok(mounts) => mounts,
        Err(e) => return Err(map_mount_repo_error(e)),
    };
    proof {
        crate::mounts::support::lemma_index_by_repo_path_from(spec_views(mounts@), repo_path@, 0);
    }
    let (next_mounts, removed_mount) = mounts_with_removed_mount(&repo_id, mounts.as_slice(), repo_path)?;
    Ok(RemovePlan { repo_id, next_mounts, removed_mount })
}

/// Writes a removal once the mount's target was checked (`target_check` is
/// what that check gave).
pub fn commit_remove_mount(manifest: &mut PersistedManifest, plan: RemovePlan, target_check: Result<(), Error>) -> (r: Result<RemovedMount, Error>)
    ensures
        r is Err ==> final(manifest)@ == old(manifest)@,
        target_check matches Err(e0) ==> (r matches Err(e) && e == e0),
        target_check is Ok && r is Ok ==> final(manifest)@ == with_repo_mounts(
            old(manifest)@,
            plan.repo_id@,
            spec_views(plan.next_mounts@),
        ) && r->Ok_0.repo_id@ == plan.repo_id@ && r->Ok_0.mount@ == plan.removed_mount@,
        target_check is Ok && old(manifest)@.repos.contains_key(plan.repo_id@) && conflict_free(
            spec_views(plan.next_mounts@),
        ) ==> r is Ok,
{
    match target_check {
        Err(e) => return Err(e),
        Ok(()) => {},
    }
    let RemovePlan { repo_id, next_mounts, removed_mount } = plan;
    match replace_repo_mounts_tx(manifest, &repo_id, next_mounts) {
        Ok(()) => {},
        Err(e) => return Err(map_mount_repo_error(e)),
    }
    Ok(RemovedMount { repo_id, mount: removed_mount })
}

/// A directory that was moved into the context and mounted back.
#[derive(Debug)]
pub struct ImportedMount {
    pub repo_id: RepoId,
    pub mount: MountSpec,
}

/// The mount table to check an import against: what listing the mounts
/// gave, none when mounts are unsupported and nothing will be mounted, or
/// the listing's error.
pub fn import_mount_table(listed: Result<Vec<MountEntry>, Error>, no_mount: bool) -> (r: Result<Option<Vec<MountEntry>>, Error>)
    ensures
        match listed {
            Ok(t) => r matches Ok(Some(u)) && u@ == t@,
            Err(Error::InfraMount(InfraMountError::Unsupported)) => if no_mount {
                r matches Ok(None)
            } else {
                r matches Err(Error::InfraMount(InfraMountError::Unsupported))
            },
            Err(e0) => r matches Err(e) && e == e0,
        },
{
    match listed {
        Ok(table) => Ok(Some(table)),
        Err(Error::InfraMount(InfraMountError::Unsupported)) => {
            if no_mount {
                Ok(None)
            } else {
                Err(Error::InfraMount(InfraMountError::Unsupported))
            }
        },
        Err(error) => Err(error),
    }
}

/// What importing will do: the mount, the mounts before and after, and the
/// directory to move from the repo (`target`) into the context (`source`).
#[derive(Debug)]
pub struct ImportPlan {
    pub repo_id: RepoId,
    pub mount: MountSpec,
    pub existing_mounts: Vec<MountSpec>,
    pub next_mounts: Vec<MountSpec>,
    pub source: String,
    pub target: String,
}

/// Checks an import of the repo directory `repo_path` as the context path
/// `context_path` (the same path when none is given): the repo must be
/// registered and cloned, the mount must be new and free of conflicts, and
/// nothing may be mounted on the directory.
pub fn plan_import(
    workspace: &Workspace,
    manifest: &PersistedManifest,
    repo_id: RepoId,
    repo_path: RelativePath,
    context_path: Option<RelativePath>,
    materialized: bool,
    mount_table: &Option<Vec<MountEntry>>,
) -> (r: Result<ImportPlan, Error>)
    ensures
        ({
            let ms = mounts_of(manifest@.mounts, repo_id@);
            let m = MountSpecView {
                context: match context_path {
                    Some(c) => c@,
                    None => repo_path@,
                },
                repo: repo_path@,
            };
            let target = repo_path_spec(workspace@, repo_id@, m.repo);
            let mounted = match mount_table {
                Some(t) => first_mount_at(entry_views(t@), target) is Some,
                None => false,
            };
            &&& !manifest@.repos.contains_key(repo_id@) ==> (r matches Err(e) && mount_repo_not_registered(
                e,
                repo_id@,
            ))
            &&& manifest@.repos.contains_key(repo_id@) && !materialized ==> (r matches Err(
                Error::Workspace(WorkspaceError::RepoNotMaterialized { repo_id: id }),
            ) && id@ == repo_id@)
            &&& manifest@.repos.contains_key(repo_id@) && materialized && (holds_mount(ms, m)
                || conflicts_with_any(ms, m)) ==> (r matches Err(e) && mount_exists_or_conflicts_error(
                e,
                repo_id@,
                m,
            ))
            &&& manifest@.repos.contains_key(repo_id@) && materialized && !holds_mount(ms, m)
                && !conflicts_with_any(ms, m) && mounted ==> (r matches Err(
                Error::Mount(MountWorkflowError::ImportTargetAlreadyMounted { target: t }),
            ) && t@ == target)
            &&& manifest@.repos.contains_key(repo_id@) && materialized && !holds_mount(ms, m)
                && !conflicts_with_any(ms, m) && !mounted ==> (r matches Ok(p) && p.repo_id@
                == repo_id@ && p.mount@ == m && spec_views(p.existing_mounts@) == ms && spec_views(
                p.next_mounts@,
            ) == ms.push(m) && p.source@ == context_path_spec(workspace@, repo_id@, m.context)
                && p.target@ == target)
        }),
{
    let existing_mounts = match load_repo_mounts(manifest, &repo_id) {
        Ok(mounts) => mounts,
        Err(e) => return Err(map_mount_repo_error(e)),
    };
    if !materialized {
        return Err(Error::Workspace(WorkspaceError::RepoNotMaterialized { repo_id }));
    }
    let context = match context_path {
        Some(c) => c,
        None => repo_path.clone(),
    };
    let mount = MountSpec { context, repo: repo_path };
    let next_mounts = mounts_with_imported_mount(&repo_id, existing_mounts.as_slice(), mount.clone())?;
    let source = workspace.context_path(&repo_id, &mount.context);
    let target = workspace.repo_path(&repo_id, &mount.repo);
    match mount_table {
        Some(table) => {
            match find_target_mount(table.as_slice(), target.as_str()) {
                Some(_) => {
                    return Err(Error::Mount(MountWorkflowError::ImportTargetAlreadyMounted { target }));
                },
                None => {},
            }
        },
        None => {},
    }
    Ok(ImportPlan { repo_id, mount, existing_mounts, next_mounts, source, target })
}

} // verus!
