//! The mounts registered in the manifest for each repo.
use vstd::prelude::*;

use crate::persistence::manifest::{
    mounts_in_rows, mounts_of, with_repo_mounts, PersistedManifest, PersistedRepoMount,
    mount_row_views, rows_for,
};
use crate::registry::store::{id_views, not_registered_error, selected_repo_ids_in_manifest};
use crate::shared::error::{Error, RepoWorkflowError};
use crate::shared::mount_spec::{
    conflict_free, first_conflicting_pair, mount_spec_error, spec_views, validate_mount_specs,
    MountSpec, MountSpecOwner, MountSpecView,
};
use crate::shared::types::RepoId;

verus! {

/// The mounts registered for `repo_id`, which must be registered.
pub fn load_repo_mounts(manifest: &PersistedManifest, repo_id: &RepoId) -> (r: Result<Vec<MountSpec>, Error>)
    ensures
        manifest@.repos.contains_key(repo_id@) ==> (r matches Ok(v) && spec_views(v@) == mounts_of(
            manifest@.mounts,
            repo_id@,
        )),
        !manifest@.repos.contains_key(repo_id@) ==> (r matches Err(e) && not_registered_error(
            e,
            repo_id@,
        )),
{
    if !manifest.contains_repo(repo_id) {
        return Err(Error::Repo(RepoWorkflowError::RepoNotRegistered { repo_id: repo_id.clone() }));
    }
    Ok(mounts_in_rows(manifest.repo_mounts(), repo_id))
}

pub open spec fn repo_mounts_views(v: Seq<(RepoId, Vec<MountSpec>)>) -> Seq<(Seq<char>, Seq<MountSpecView>)> {
    v.map_values(|p: (RepoId, Vec<MountSpec>)| (p.0@, spec_views(p.1@)))
}

/// The registered mounts of each of `repo_ids`, in the order given; the
/// first id that is not registered fails it.
pub fn repo_mounts_by_repo_in_manifest(manifest: &PersistedManifest, repo_ids: &[RepoId]) -> (r: Result<Vec<(RepoId, Vec<MountSpec>)>, Error>)
    ensures
        (forall|i: int| 0 <= i < repo_ids@.len() ==> manifest@.repos.contains_key(#[trigger] repo_ids@[i]@))
            ==> (r matches Ok(v) && v@.len() == repo_ids@.len() && forall|i: int|
            0 <= i < v@.len() ==> #[trigger] repo_mounts_views(v@)[i] == (
                repo_ids@[i]@,
                mounts_of(manifest@.mounts, repo_ids@[i]@),
            )),
        r matches Err(e) ==> exists|i: int|
            0 <= i < repo_ids@.len() && !manifest@.repos.contains_key(#[trigger] repo_ids@[i]@)
                && not_registered_error(e, repo_ids@[i]@) && forall|j: int|
                0 <= j < i ==> manifest@.repos.contains_key(#[trigger] repo_ids@[j]@),
{
    let mut out: Vec<(RepoId, Vec<MountSpec>)> = Vec::new();
    let mut i: usize = 0;
    while i < repo_ids.len()
        invariant
            i <= repo_ids.len(),
            out@.len() == i,
            forall|j: int| 0 <= j < i ==> manifest@.repos.contains_key(#[trigger] repo_ids@[j]@),
            forall|j: int|
                0 <= j < i ==> #[trigger] repo_mounts_views(out@)[j] == (
                    repo_ids@[j]@,
                    mounts_of(manifest@.mounts, repo_ids@[j]@),
                ),
        decreases repo_ids.len() - i,
    {
        match load_repo_mounts(manifest, &repo_ids[i]) {
            Ok(ms) => {
                let ghost before = out@;
                out.push((repo_ids[i].clone(), ms));
                proof {
                    assert(repo_mounts_views(out@) =~= repo_mounts_views(before).push(
                        (repo_ids@[i as int]@, mounts_of(manifest@.mounts, repo_ids@[i as int]@)),
                    ));
                }
            },
            Err(e) => {
                return Err(e);
            },
        }
        i = i + 1;
    }
    Ok(out)
}

/// The selected repos, each with its registered mounts.
pub fn selected_repo_mounts(manifest: &PersistedManifest, requested: Option<RepoId>) -> (r: Result<Vec<(RepoId, Vec<MountSpec>)>, Error>)
    ensures
        match requested {
            Some(id) => if manifest@.repos.contains_key(id@) {
                r matches Ok(v) && repo_mounts_views(v@) == seq![(id@, mounts_of(manifest@.mounts, id@))]
            } else {
                r matches Err(e) && not_registered_error(e, id@)
            },
            None => r matches Ok(v) && v@.len() == manifest@.repo_ids.len() && forall|i: int|
                0 <= i < v@.len() ==> #[trigger] repo_mounts_views(v@)[i] == (
                    manifest@.repo_ids[i],
                    mounts_of(manifest@.mounts, manifest@.repo_ids[i]),
                ),
        },
{
    manifest.check_wf();
    let ghost req = requested;
    let ids = selected_repo_ids_in_manifest(manifest, requested)?;
    let v = repo_mounts_by_repo_in_manifest(manifest, ids.as_slice());
    proof {
        match &v {
            Ok(v) => {
                assert forall|i: int| 0 <= i < v@.len() implies #[trigger] repo_mounts_views(v@)[i] == (
                    id_views(ids@)[i],
                    mounts_of(manifest@.mounts, id_views(ids@)[i]),
                ) by {
                    assert(id_views(ids@)[i] == ids@[i]@);
                }
                match req {
                    Some(id) => {
                        assert(id_views(ids@).len() == 1);
                        assert(id_views(ids@)[0] == id@);
                        assert(repo_mounts_views(v@) =~= seq![(id@, mounts_of(manifest@.mounts, id@))]);
                    },
                    None => {},
                }
            },
            Err(_) => {},
        }
    }
    v
}

/// The rows of repo `id` for mount specifications.
pub fn rows_for_mounts(repo_id: &RepoId, mounts: Vec<MountSpec>) -> (r: Vec<PersistedRepoMount>)
    ensures
        mount_row_views(r@) == rows_for(repo_id@, spec_views(mounts@)),
{
    let mut out: Vec<PersistedRepoMount> = Vec::new();
    let mut i: usize = 0;
    while i < mounts.len()
        invariant
            i <= mounts.len(),
            out@.len() == i,
            forall|j: int|
                0 <= j < i ==> (#[trigger] mount_row_views(out@)[j]) == rows_for(
                    repo_id@,
                    spec_views(mounts@),
                )[j],
        decreases mounts.len() - i,
    {
        let ghost before = out@;
        out.push(PersistedRepoMount {
            repo_id: repo_id.clone(),
            context: mounts[i].context.clone(),
            repo: mounts[i].repo.clone(),
        });
        proof {
            assert forall|j: int| 0 <= j < i + 1 implies (#[trigger] mount_row_views(out@)[j]) == rows_for(
                repo_id@,
                spec_views(mounts@),
            )[j] by {
                if j < i {
                    assert(mount_row_views(out@)[j] == mount_row_views(before)[j]);
                }
            }
        }
        i = i + 1;
    }
    proof {
        assert(mount_row_views(out@) =~= rows_for(repo_id@, spec_views(mounts@)));
    }
    out
}

/// Replaces the mounts of a registered repo after checking that they do
/// not conflict.
pub fn replace_repo_mounts_tx(manifest: &mut PersistedManifest, repo_id: &RepoId, mounts: Vec<MountSpec>) -> (r: Result<(), Error>)
    ensures
        !old(manifest)@.repos.contains_key(repo_id@) ==> (r matches Err(e) && not_registered_error(
            e,
            repo_id@,
        ) && final(manifest)@ == old(manifest)@),
        old(manifest)@.repos.contains_key(repo_id@) && !conflict_free(spec_views(mounts@)) ==> (r matches Err(
            e,
        ) && final(manifest)@ == old(manifest)@ && exists|i: int, j: int|
            first_conflicting_pair(spec_views(mounts@), i, j) && mount_spec_error(
                e,
                Some(repo_id@),
                mounts@[j]@,
                mounts@[i]@,
            )),
        old(manifest)@.repos.contains_key(repo_id@) && conflict_free(spec_views(mounts@)) ==> (r is Ok
            && final(manifest)@ == with_repo_mounts(old(manifest)@, repo_id@, spec_views(mounts@))),
{
    if !manifest.contains_repo(repo_id) {
        return Err(Error::Repo(RepoWorkflowError::RepoNotRegistered { repo_id: repo_id.clone() }));
    }
    let owner = MountSpecOwner::Repo(repo_id.clone());
    validate_mount_specs(&owner, mounts.as_slice())?;
    let ghost ms = spec_views(mounts@);
    let rows = rows_for_mounts(repo_id, mounts);
    manifest.replace_repo_mounts(repo_id, rows);
    Ok(())
}

/// Drops the mounts of `repo_id`.
pub fn clear_repo_mounts_tx(manifest: &mut PersistedManifest, repo_id: &RepoId)
    ensures
        final(manifest)@ == with_repo_mounts(old(manifest)@, repo_id@, Seq::empty()),
{
    manifest.clear_repo_mounts(repo_id);
    proof {
        assert(rows_for(repo_id@, Seq::<MountSpecView>::empty()) =~= Seq::empty());
        assert(crate::persistence::manifest::rows_without(old(manifest)@.mounts, repo_id@) + Seq::empty()
            =~= crate::persistence::manifest::rows_without(old(manifest)@.mounts, repo_id@));
    }
}

} // verus!
