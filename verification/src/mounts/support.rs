//! Edits of a repo's mount list, and the checks that guard a change of a
//! mount's target.
use vstd::prelude::*;

use crate::mounts::infra::{
    entry_matches_source, entry_views, find_target_mount, first_mount_at, MountEntry,
};
use crate::shared::error::{
    Error, InfraMountError, MountWorkflowError, RepoWorkflowError, TemplateError,
};
use crate::shared::mount_spec::{
    conflict_free, lemma_specs_conflict_symmetric, mounts_conflict, spec_views, specs_conflict,
    MountSpec, MountSpecView,
};
use crate::shared::order::compare_text;
use crate::shared::types::{RelativePath, RepoId, TemplateId};
use crate::workspace::{context_path_spec, repo_path_spec, Workspace};

verus! {

/// `ms` holds a mount equal to `m`.
pub open spec fn holds_mount(ms: Seq<MountSpecView>, m: MountSpecView) -> bool {
    exists|i: int| 0 <= i < ms.len() && ms[i] == m
}

/// Some mount of `ms` conflicts with `m`.
pub open spec fn conflicts_with_any(ms: Seq<MountSpecView>, m: MountSpecView) -> bool {
    exists|i: int| 0 <= i < ms.len() && specs_conflict(#[trigger] ms[i], m)
}

/// The index of the first mount at or after `i` whose repo path is `p`.
pub open spec fn index_by_repo_path_from(ms: Seq<MountSpecView>, p: Seq<char>, i: int) -> Option<int>
    decreases ms.len() - i,
{
    if i < 0 || i >= ms.len() {
        None
    } else if ms[i].repo == p {
        Some(i)
    } else {
        index_by_repo_path_from(ms, p, i + 1)
    }
}

/// The index of the first mount whose repo path is `p`.
pub open spec fn index_by_repo_path(ms: Seq<MountSpecView>, p: Seq<char>) -> Option<int> {
    index_by_repo_path_from(ms, p, 0)
}

/// What the search finds is a mount with repo path `p`, and no earlier one
/// has it.
pub proof fn lemma_index_by_repo_path_from(ms: Seq<MountSpecView>, p: Seq<char>, i: int)
    requires
        0 <= i,
    ensures
        match index_by_repo_path_from(ms, p, i) {
            Some(k) => i <= k < ms.len() && ms[k].repo == p && forall|j: int|
                i <= j < k ==> (#[trigger] ms[j]).repo != p,
            None => forall|j: int| i <= j < ms.len() ==> (#[trigger] ms[j]).repo != p,
        },
    decreases ms.len() - i,
{
    if i < ms.len() && ms[i].repo != p {
        lemma_index_by_repo_path_from(ms, p, i + 1);
    }
}

/// A copy of a mount list.
pub fn clone_mounts(ms: &[MountSpec]) -> (r: Vec<MountSpec>)
    ensures
        spec_views(r@) == spec_views(ms@),
{
    let mut out: Vec<MountSpec> = Vec::new();
    let mut i: usize = 0;
    while i < ms.len()
        invariant
            i <= ms.len(),
            out@.len() == i,
            forall|j: int| 0 <= j < i ==> (#[trigger] out@[j])@ == ms@[j]@,
        decreases ms.len() - i,
    {
        out.push(ms[i].clone());
        i = i + 1;
    }
    proof {
        assert(spec_views(out@) =~= spec_views(ms@));
    }
    out
}

/// Whether `mounts` holds a mount equal to `mount`.
pub fn mount_exists(mounts: &[MountSpec], mount: &MountSpec) -> (r: bool)
    ensures
        r == holds_mount(spec_views(mounts@), mount@),
{
    let mut i: usize = 0;
    while i < mounts.len()
        invariant
            i <= mounts.len(),
            forall|j: int| 0 <= j < i ==> (#[trigger] mounts@[j])@ != mount@,
        decreases mounts.len() - i,
    {
        if mounts[i] == *mount {
            proof {
                assert(spec_views(mounts@)[i as int] == mount@);
            }
            return true;
        }
        i = i + 1;
    }
    proof {
        if holds_mount(spec_views(mounts@), mount@) {
            let j = choose|j: int| 0 <= j < mounts@.len() && spec_views(mounts@)[j] == mount@;
            assert(mounts@[j]@ == mount@);
        }
    }
    false
}

/// Whether some mount of `mounts` conflicts with `mount`.
pub fn mount_conflicts(mounts: &[MountSpec], mount: &MountSpec) -> (r: bool)
    ensures
        r == conflicts_with_any(spec_views(mounts@), mount@),
{
    let mut i: usize = 0;
    while i < mounts.len()
        invariant
            i <= mounts.len(),
            forall|j: int| 0 <= j < i ==> !specs_conflict((#[trigger] mounts@[j])@, mount@),
        decreases mounts.len() - i,
    {
        if mounts_conflict(&mounts[i], mount) {
            proof {
                assert(spec_views(mounts@)[i as int] == mounts@[i as int]@);
            }
            return true;
        }
        i = i + 1;
    }
    proof {
        if conflicts_with_any(spec_views(mounts@), mount@) {
            let j = choose|j: int|
                0 <= j < mounts@.len() && specs_conflict(#[trigger] spec_views(mounts@)[j], mount@);
            assert(spec_views(mounts@)[j] == mounts@[j]@);
        }
    }
    false
}

/// A repo that is not registered is reported as a mount workflow error.
pub fn map_mount_repo_error(error: Error) -> (r: Error)
    ensures
        error matches Error::Repo(RepoWorkflowError::RepoNotRegistered { repo_id }) ==> (r matches Error::Mount(
            MountWorkflowError::RepoNotRegistered { repo_id: id },
        ) && id@ == repo_id@),
        !(error is Repo && error->Repo_0 is RepoNotRegistered) ==> r == error,
{
    match error {
        Error::Repo(RepoWorkflowError::RepoNotRegistered { repo_id }) => Error::Mount(
            MountWorkflowError::RepoNotRegistered { repo_id },
        ),
        other => other,
    }
}

/// The index of the first mount targeting `repo_path`.
pub fn find_mount_index_by_repo_path(mounts: &[MountSpec], repo_path: &RelativePath) -> (r: Option<usize>)
    ensures
        match (r, index_by_repo_path(spec_views(mounts@), repo_path@)) {
            (Some(a), Some(b)) => a == b,
            (None, None) => true,
            _ => false,
        },
        r matches Some(a) ==> a < mounts@.len() && mounts@[a as int].repo@ == repo_path@,
{
    let ghost ms = spec_views(mounts@);
    let mut i: usize = 0;
    while i < mounts.len()
        invariant
            ms == spec_views(mounts@),
            i <= mounts.len(),
            index_by_repo_path(ms, repo_path@) == index_by_repo_path_from(ms, repo_path@, i as int),
        decreases mounts.len() - i,
    {
        proof {
            assert(ms[i as int] == mounts@[i as int]@);
        }
        if mounts[i].repo == *repo_path {
            return Some(i);
        }
        i = i + 1;
    }
    None
}

/// `e` reports that the mount `m` of `id` already exists.
pub open spec fn mount_already_exists_error(e: Error, id: Seq<char>, m: MountSpecView) -> bool {
    e matches Error::Mount(MountWorkflowError::MountAlreadyExists { repo_id, context, repo_path })
        && repo_id@ == id && context@ == m.context && repo_path@ == m.repo
}

/// `e` reports that the mount `m` of `id` conflicts with another.
pub open spec fn mount_conflicts_error(e: Error, id: Seq<char>, m: MountSpecView) -> bool {
    e matches Error::Mount(MountWorkflowError::MountConflicts { repo_id, context, repo_path })
        && repo_id@ == id && context@ == m.context && repo_path@ == m.repo
}

/// `e` reports that no mount of `id` targets `p`.
pub open spec fn mount_not_found_error(e: Error, id: Seq<char>, p: Seq<char>) -> bool {
    e matches Error::Mount(MountWorkflowError::MountNotFoundByRepoPath { repo_id, repo_path })
        && repo_id@ == id && repo_path@ == p
}

/// The mount list with `mount` appended, unless it is there already or
/// conflicts with a mount that is.
pub fn mounts_with_added_mount(repo_id: &RepoId, mounts: &[MountSpec], mount: MountSpec) -> (r: Result<Vec<MountSpec>, Error>)
    ensures
        holds_mount(spec_views(mounts@), mount@) ==> (r matches Err(e) && mount_already_exists_error(
            e,
            repo_id@,
            mount@,
        )),
        !holds_mount(spec_views(mounts@), mount@) && conflicts_with_any(spec_views(mounts@), mount@)
            ==> (r matches Err(e) && mount_conflicts_error(e, repo_id@, mount@)),
        !holds_mount(spec_views(mounts@), mount@) && !conflicts_with_any(spec_views(mounts@), mount@)
            ==> (r matches Ok(v) && spec_views(v@) == spec_views(mounts@).push(mount@)),
{
    if mount_exists(mounts, &mount) {
        return Err(Error::Mount(MountWorkflowError::MountAlreadyExists {
            repo_id: repo_id.clone(),
            context: mount.context.clone(),
            repo_path: mount.repo.clone(),
        }));
    }
    if mount_conflicts(mounts, &mount) {
        return Err(Error::Mount(MountWorkflowError::MountConflicts {
            repo_id: repo_id.clone(),
            context: mount.context.clone(),
            repo_path: mount.repo.clone(),
        }));
    }
    let mut next = clone_mounts(mounts);
    let ghost before = next@;
    let ghost mv = mount@;
    next.push(mount);
    proof {
        assert(spec_views(next@) =~= spec_views(before).push(mv));
    }
    Ok(next)
}

/// `e` reports that the mount `m` of `id` exists already or conflicts.
pub open spec fn mount_exists_or_conflicts_error(e: Error, id: Seq<char>, m: MountSpecView) -> bool {
    e matches Error::Mount(MountWorkflowError::MountExistsOrConflicts { repo_id, context, repo_path })
        && repo_id@ == id && context@ == m.context && repo_path@ == m.repo
}

/// The mount list with an imported mount appended, unless it is there
/// already or conflicts with a mount that is.
pub fn mounts_with_imported_mount(repo_id: &RepoId, mounts: &[MountSpec], mount: MountSpec) -> (r: Result<Vec<MountSpec>, Error>)
    ensures
        holds_mount(spec_views(mounts@), mount@) || conflicts_with_any(spec_views(mounts@), mount@)
            ==> (r matches Err(e) && mount_exists_or_conflicts_error(e, repo_id@, mount@)),
        !holds_mount(spec_views(mounts@), mount@) && !conflicts_with_any(spec_views(mounts@), mount@)
            ==> (r matches Ok(v) && spec_views(v@) == spec_views(mounts@).push(mount@)),
{
    if mount_exists(mounts, &mount) || mount_conflicts(mounts, &mount) {
        return Err(Error::Mount(MountWorkflowError::MountExistsOrConflicts {
            repo_id: repo_id.clone(),
            context: mount.context.clone(),
            repo_path: mount.repo.clone(),
        }));
    }
    let mut next = clone_mounts(mounts);
    let ghost before = next@;
    let ghost mv = mount@;
    next.push(mount);
    proof {
        assert(spec_views(next@) =~= spec_views(before).push(mv));
    }
    Ok(next)
}

/// Some mount other than the one at `skip` conflicts with `m`.
pub open spec fn conflicts_with_other(ms: Seq<MountSpecView>, skip: int, m: MountSpecView) -> bool {
    exists|i: int| 0 <= i < ms.len() && i != skip && specs_conflict(#[trigger] ms[i], m)
}

/// The mount list with the context of the mount targeting `repo_path`
/// changed to `new_context_path`; also the mount before and after.
pub fn mounts_with_edited_mount(
    repo_id: &RepoId,
    mounts: &[MountSpec],
    repo_path: &RelativePath,
    new_context_path: RelativePath,
) -> (r: Result<(Vec<MountSpec>, MountSpec, MountSpec), Error>)
    ensures
        match index_by_repo_path(spec_views(mounts@), repo_path@) {
            None => r matches Err(e) && mount_not_found_error(e, repo_id@, repo_path@),
            Some(i) => {
                let updated = MountSpecView { context: new_context_path@, repo: repo_path@ };
                if conflicts_with_other(spec_views(mounts@), i, updated) {
                    r matches Err(e) && mount_conflicts_error(e, repo_id@, updated)
                } else {
                    r matches Ok((v, prev, next)) && spec_views(v@) == spec_views(mounts@).update(
                        i,
                        updated,
                    ) && prev@ == mounts@[i]@ && next@ == updated
                }
            },
        },
{
    let ghost ms = spec_views(mounts@);
    let index = match find_mount_index_by_repo_path(mounts, repo_path) {
        Some(index) => index,
        None => {
            return Err(Error::Mount(MountWorkflowError::MountNotFoundByRepoPath {
                repo_id: repo_id.clone(),
                repo_path: repo_path.clone(),
            }));
        },
    };
    let previous = mounts[index].clone();
    let updated = MountSpec { context: new_context_path, repo: previous.repo.clone() };
    proof {
        assert(ms[index as int] == mounts@[index as int]@);
        assert(updated@ == MountSpecView { context: new_context_path@, repo: repo_path@ });
    }
    let ghost target_index = index_by_repo_path(ms, repo_path@);
    let ghost upd = updated@;
    let mut i: usize = 0;
    while i < mounts.len()
        invariant
            ms == spec_views(mounts@),
            target_index == Some(index as int),
            target_index == index_by_repo_path(ms, repo_path@),
            updated@ == upd,
            upd.context == new_context_path@,
            upd.repo == repo_path@,
            i <= mounts.len(),
            index < mounts.len(),
            forall|j: int| 0 <= j < i && j != index ==> !specs_conflict(#[trigger] ms[j], updated@),
        decreases mounts.len() - i,
    {
        proof {
            assert(ms[i as int] == mounts@[i as int]@);
        }
        if i != index && mounts_conflict(&mounts[i], &updated) {
            proof {
                assert(specs_conflict(ms[i as int], updated@));
                assert(conflicts_with_other(ms, index as int, upd));
            }
            let e = Error::Mount(MountWorkflowError::MountConflicts {
                repo_id: repo_id.clone(),
                context: updated.context.clone(),
                repo_path: updated.repo.clone(),
            });
            proof {
                assert(mount_conflicts_error(e, repo_id@, upd));
            }
            return Err(e);
        }
        i = i + 1;
    }
    let mut next = clone_mounts(mounts);
    let ghost before = next@;
    let copy = updated.clone();
    next.set(index, copy);
    proof {
        assert(spec_views(next@) =~= spec_views(before).update(index as int, updated@));
    }
    Ok((next, previous, updated))
}

/// The mount list without the mount targeting `repo_path`, and that mount.
pub fn mounts_with_removed_mount(repo_id: &RepoId, mounts: &[MountSpec], repo_path: &RelativePath) -> (r: Result<(Vec<MountSpec>, MountSpec), Error>)
    ensures
        match index_by_repo_path(spec_views(mounts@), repo_path@) {
            None => r matches Err(e) && mount_not_found_error(e, repo_id@, repo_path@),
            Some(i) => r matches Ok((v, removed)) && spec_views(v@) == spec_views(mounts@).remove(i)
                && removed@ == mounts@[i]@,
        },
{
    let index = match find_mount_index_by_repo_path(mounts, repo_path) {
        Some(index) => index,
        None => {
            return Err(Error::Mount(MountWorkflowError::MountNotFoundByRepoPath {
                repo_id: repo_id.clone(),
                repo_path: repo_path.clone(),
            }));
        },
    };
    let removed = mounts[index].clone();
    let mut next = clone_mounts(mounts);
    let ghost before = next@;
    let _ = next.remove(index);
    proof {
        assert(spec_views(next@) =~= spec_views(before).remove(index as int));
    }
    Ok((next, removed))
}

// ---------------------------------------------------------------------------
// Laws of the mount list edits
// ---------------------------------------------------------------------------

/// Adding a mount keeps a conflict-free list conflict-free.
pub proof fn law_add_keeps_conflict_free(ms: Seq<MountSpecView>, m: MountSpecView)
    requires
        conflict_free(ms),
        !conflicts_with_any(ms, m),
    ensures
        conflict_free(ms.push(m)),
{
    let n = ms.push(m);
    assert forall|i: int, j: int|
        0 <= i < n.len() && 0 <= j < n.len() && i != j implies !specs_conflict(
        #[trigger] n[i],
        #[trigger] n[j],
    ) by {
        if i == ms.len() {
            assert(!specs_conflict(ms[j], m));
            lemma_specs_conflict_symmetric(ms[j], m);
        } else if j == ms.len() {
            assert(!specs_conflict(ms[i], m));
        } else {
            assert(n[i] == ms[i] && n[j] == ms[j]);
        }
    }
}

/// Editing a mount's context keeps a conflict-free list conflict-free.
pub proof fn law_edit_keeps_conflict_free(ms: Seq<MountSpecView>, k: int, m: MountSpecView)
    requires
        conflict_free(ms),
        0 <= k < ms.len(),
        !conflicts_with_other(ms, k, m),
    ensures
        conflict_free(ms.update(k, m)),
{
    let n = ms.update(k, m);
    assert forall|i: int, j: int|
        0 <= i < n.len() && 0 <= j < n.len() && i != j implies !specs_conflict(
        #[trigger] n[i],
        #[trigger] n[j],
    ) by {
        if i == k {
            assert(!specs_conflict(ms[j], m));
            lemma_specs_conflict_symmetric(ms[j], m);
        } else if j == k {
            assert(!specs_conflict(ms[i], m));
        } else {
            assert(n[i] == ms[i] && n[j] == ms[j]);
        }
    }
}

/// Removing a mount keeps a conflict-free list conflict-free.
pub proof fn law_remove_keeps_conflict_free(ms: Seq<MountSpecView>, k: int)
    requires
        conflict_free(ms),
        0 <= k < ms.len(),
    ensures
        conflict_free(ms.remove(k)),
{
    let n = ms.remove(k);
    assert forall|i: int, j: int|
        0 <= i < n.len() && 0 <= j < n.len() && i != j implies !specs_conflict(
        #[trigger] n[i],
        #[trigger] n[j],
    ) by {
        let i2 = if i < k { i } else { i + 1 };
        let j2 = if j < k { j } else { j + 1 };
        assert(n[i] == ms[i2] && n[j] == ms[j2]);
    }
}

/// Adding a mount and then removing the mount at its repo path gives back
/// the list it was added to, and the added mount.
pub proof fn law_add_then_remove(ms: Seq<MountSpecView>, m: MountSpecView)
    requires
        !conflicts_with_any(ms, m),
    ensures
        index_by_repo_path(ms.push(m), m.repo) == Some(ms.len() as int),
        ms.push(m).remove(ms.len() as int) == ms,
{
    let n = ms.push(m);
    assert forall|j: int| 0 <= j < ms.len() implies (#[trigger] n[j]).repo != m.repo by {
        assert(n[j] == ms[j]);
        assert(!specs_conflict(ms[j], m));
    }
    lemma_index_by_repo_path_from(n, m.repo, 0);
    if index_by_repo_path(n, m.repo) != Some(ms.len() as int) {
        assert(n[ms.len() as int].repo == m.repo);
    }
    assert(n.remove(ms.len() as int) =~= ms);
}

// ---------------------------------------------------------------------------
// Guards on changing a mount's target
// ---------------------------------------------------------------------------

/// How a change of the mount `spec` of `id` is refused given the mount
/// table: the target is still mounted from the expected source, or mounted
/// from elsewhere; otherwise the change may go ahead.
pub open spec fn target_change_result(
    id: Seq<char>,
    spec: MountSpecView,
    target: Seq<char>,
    expected_source: Seq<char>,
    table: Seq<crate::mounts::infra::MountEntryView>,
    r: Result<(), Error>,
) -> bool {
    match first_mount_at(table, target) {
        None => r is Ok,
        Some(i) => if entry_matches_source(table[i], expected_source) {
            r matches Err(Error::Mount(
                MountWorkflowError::MountTargetStillMounted { repo_id, repo_path, target: t },
            )) && repo_id@ == id && repo_path@ == spec.repo && t@ == target
        } else {
            r matches Err(Error::Mount(
                MountWorkflowError::MountTargetConflictedForUpdate {
                    repo_id,
                    repo_path,
                    expected_source: s,
                    existing_source,
                    target: t,
                },
            )) && repo_id@ == id && repo_path@ == spec.repo && s@ == expected_source
                && existing_source@ == table[i].preferred_source && t@ == target
        },
    }
}

/// Refuses to change a mount whose target is mounted.
pub fn ensure_mount_target_can_change_in(
    repo_id: &RepoId,
    mount_spec: &MountSpec,
    target: String,
    expected_source: String,
    mount_table: &[MountEntry],
) -> (r: Result<(), Error>)
    ensures
        target_change_result(
            repo_id@,
            mount_spec@,
            target@,
            expected_source@,
            entry_views(mount_table@),
            r,
        ),
{
    match find_target_mount(mount_table, target.as_str()) {
        Some(existing) => {
            if existing.matches_source(expected_source.as_str()) {
                return Err(Error::Mount(MountWorkflowError::MountTargetStillMounted {
                    repo_id: repo_id.clone(),
                    repo_path: mount_spec.repo.clone(),
                    target,
                }));
            }
            Err(Error::Mount(MountWorkflowError::MountTargetConflictedForUpdate {
                repo_id: repo_id.clone(),
                repo_path: mount_spec.repo.clone(),
                expected_source,
                existing_source: existing.preferred_source.clone(),
                target,
            }))
        },
        None => Ok(()),
    }
}

/// Refuses to change a mount of a materialized repo whose target is
/// mounted. `mount_table` is what listing the mounts gave; a platform
/// without mount support does not block the change.
pub fn ensure_mount_target_can_change(
    workspace: &Workspace,
    repo_id: &RepoId,
    mount_spec: &MountSpec,
    materialized: bool,
    mount_table: Result<Vec<MountEntry>, Error>,
) -> (r: Result<(), Error>)
    ensures
        !materialized ==> r is Ok,
        materialized ==> match mount_table {
            Err(Error::InfraMount(InfraMountError::Unsupported)) => r is Ok,
            Err(e) => r == Err::<(), Error>(e),
            Ok(table) => target_change_result(
                repo_id@,
                mount_spec@,
                repo_path_spec(workspace@, repo_id@, mount_spec@.repo),
                context_path_spec(workspace@, repo_id@, mount_spec@.context),
                entry_views(table@),
                r,
            ),
        },
{
    if !materialized {
        return Ok(());
    }
    let target = workspace.repo_path(repo_id, &mount_spec.repo);
    let expected_source = workspace.context_path(repo_id, &mount_spec.context);
    let table = match mount_table {
        Ok(table) => table,
        Err(Error::InfraMount(InfraMountError::Unsupported)) => return Ok(()),
        Err(error) => return Err(error),
    };
    ensure_mount_target_can_change_in(repo_id, mount_spec, target, expected_source, table.as_slice())
}

/// What the file system shows of a mount's source and target.
#[derive(Debug, Clone, Copy)]
pub struct TargetFacts {
    pub target_exists: bool,
    pub source_exists: bool,
    /// Every file under the target is also under the source, with equal content.
    pub target_is_matching_subset_of_source: bool,
    pub target_is_dir: bool,
    /// The target holds directories only.
    pub target_is_directory_only_scaffolding: bool,
    pub target_is_empty_dir: bool,
}

/// Mounting over the target hides nothing the source does not hold.
pub open spec fn target_may_be_covered(f: TargetFacts) -> bool {
    ||| !f.target_exists
    ||| (f.source_exists && f.target_is_matching_subset_of_source)
    ||| (!f.source_exists && f.target_is_dir && f.target_is_directory_only_scaffolding)
    ||| (f.target_is_dir && f.target_is_empty_dir)
}

/// When the source does not exist, an existing target may be covered only
/// if it is a directory holding directories only (or nothing): a target that
/// is not a directory, or a directory that holds a file, is refused.
pub proof fn law_missing_source_covers_only_scaffolding(f: TargetFacts)
    requires
        f.target_exists,
        !f.source_exists,
    ensures
        target_may_be_covered(f) <==> (f.target_is_dir && (f.target_is_directory_only_scaffolding
            || f.target_is_empty_dir)),
{
}

/// A target that does not exist may always be covered; an existing target
/// whose source exists may be covered exactly when every file under it is
/// under the source with the same content, or it is an empty directory.
pub proof fn law_existing_source_covers_only_matching_or_empty(f: TargetFacts)
    requires
        f.source_exists,
    ensures
        !f.target_exists ==> target_may_be_covered(f),
        f.target_exists ==> (target_may_be_covered(f) <==> (f.target_is_matching_subset_of_source || (
        f.target_is_dir && f.target_is_empty_dir))),
{
}

/// Refuses a mount that would hide files of the target that differ from the
/// source.
pub fn ensure_mount_target_matches_source_or_is_empty(
    repo_id: &RepoId,
    mount: &MountSpec,
    source: &str,
    target: &str,
    facts: &TargetFacts,
) -> (r: Result<(), Error>)
    ensures
        target_may_be_covered(*facts) ==> r is Ok,
        !target_may_be_covered(*facts) ==> (r matches Err(Error::Mount(
            MountWorkflowError::MountTargetWouldHideDifferentFiles {
                repo_id: id,
                repo_path,
                mount_source,
                target: t,
            },
        )) && id@ == repo_id@ && repo_path@ == mount@.repo && mount_source@ == source@ && t@
            == target@),
{
    if !facts.target_exists {
        return Ok(());
    }
    if facts.source_exists && facts.target_is_matching_subset_of_source {
        return Ok(());
    }
    if !facts.source_exists && facts.target_is_dir && facts.target_is_directory_only_scaffolding {
        return Ok(());
    }
    if facts.target_is_dir && facts.target_is_empty_dir {
        return Ok(());
    }
    Err(Error::Mount(MountWorkflowError::MountTargetWouldHideDifferentFiles {
        repo_id: repo_id.clone(),
        repo_path: mount.repo.clone(),
        mount_source: source.to_owned(),
        target: target.to_owned(),
    }))
}

/// A repo's mounts after adding a template's, in order: a mount the list
/// already holds is kept once, and the first that conflicts with the list
/// stops the merge (`Err` carries it).
pub open spec fn template_merge(ms: Seq<MountSpecView>, ts: Seq<MountSpecView>) -> Result<
    Seq<MountSpecView>,
    MountSpecView,
>
    decreases ts.len(),
{
    if ts.len() == 0 {
        Ok(ms)
    } else {
        match template_merge(ms, ts.drop_last()) {
            Err(m) => Err(m),
            Ok(cur) => {
                let m = ts.last();
                if holds_mount(cur, m) {
                    Ok(cur)
                } else if conflicts_with_any(cur, m) {
                    Err(m)
                } else {
                    Ok(cur.push(m))
                }
            },
        }
    }
}

/// Merges a template's mounts into a repo's.
pub fn mounts_with_template_mounts(
    template_id: &TemplateId,
    repo_id: &RepoId,
    mounts: &[MountSpec],
    template_mounts: &[MountSpec],
) -> (r: Result<Vec<MountSpec>, Error>)
    ensures
        match template_merge(spec_views(mounts@), spec_views(template_mounts@)) {
            Ok(ms) => r matches Ok(v) && spec_views(v@) == ms,
            Err(m) => r matches Err(Error::Template(
                TemplateError::TemplateMountConflict { template_id: t, repo_id: id, context, repo_path },
            )) && t@ == template_id@ && id@ == repo_id@ && context@ == m.context && repo_path@ == m.repo,
        },
{
    let ghost ts = spec_views(template_mounts@);
    let mut merged = clone_mounts(mounts);
    let mut i: usize = 0;
    proof {
        assert(ts.take(0) =~= Seq::<MountSpecView>::empty());
    }
    while i < template_mounts.len()
        invariant
            i <= template_mounts.len(),
            ts == spec_views(template_mounts@),
            template_merge(spec_views(mounts@), ts.take(i as int)) == Ok::<
                Seq<MountSpecView>,
                MountSpecView,
            >(spec_views(merged@)),
        decreases template_mounts.len() - i,
    {
        proof {
            assert(ts.take(i + 1).drop_last() =~= ts.take(i as int));
            assert(ts.take(i + 1).last() == template_mounts@[i as int]@);
        }
        let mount = &template_mounts[i];
        if !mount_exists(merged.as_slice(), mount) {
            if mount_conflicts(merged.as_slice(), mount) {
                proof {
                    lemma_template_merge_stops(spec_views(mounts@), ts, i + 1);
                }
                return Err(Error::Template(TemplateError::TemplateMountConflict {
                    template_id: template_id.clone(),
                    repo_id: repo_id.clone(),
                    context: mount.context.clone(),
                    repo_path: mount.repo.clone(),
                }));
            }
            let ghost before = spec_views(merged@);
            merged.push(mount.clone());
            proof {
                assert(spec_views(merged@) =~= before.push(mount@));
            }
        }
        i = i + 1;
    }
    proof {
        assert(ts.take(i as int) =~= ts);
    }
    Ok(merged)
}

/// Once the merge stops at a mount, adding more mounts does not change it.
proof fn lemma_template_merge_stops(ms: Seq<MountSpecView>, ts: Seq<MountSpecView>, n: int)
    requires
        0 <= n <= ts.len(),
        template_merge(ms, ts.take(n)) is Err,
    ensures
        template_merge(ms, ts) == template_merge(ms, ts.take(n)),
    decreases ts.len() - n,
{
    if n < ts.len() {
        assert(ts.take(n + 1).drop_last() =~= ts.take(n));
        lemma_template_merge_stops(ms, ts, n + 1);
    } else {
        assert(ts.take(n) =~= ts);
    }
}

} // verus!
