//! Reading and changing the registered repos of a manifest.
use vstd::prelude::*;

use crate::persistence::manifest::{
    repo_lookup, with_repo, without_repo, PersistedManifest, PersistedRepoRegistration,
};
use crate::shared::error::{Error, RepoWorkflowError};
use crate::shared::types::{CloneSource, RepoId};

verus! {

/// A registered repo: where it is cloned from.
#[derive(Debug)]
pub struct RegisteredRepo {
    pub source: CloneSource,
}

impl View for RegisteredRepo {
    type V = Seq<char>;

    open spec fn view(&self) -> Seq<char> {
        self.source@
    }
}

impl Clone for RegisteredRepo {
    fn clone(&self) -> (r: Self)
        ensures
            r@ == self@,
    {
        RegisteredRepo { source: self.source.clone() }
    }
}

impl RegisteredRepo {
    /// The registration as stored in the manifest.
    pub fn from_registration(value: PersistedRepoRegistration) -> (r: RegisteredRepo)
        ensures
            r@ == value@,
    {
        RegisteredRepo { source: value.source }
    }

    /// The registration to store in the manifest.
    pub fn into_registration(self) -> (r: PersistedRepoRegistration)
        ensures
            r@ == self@,
    {
        PersistedRepoRegistration { source: self.source }
    }
}

/// `e` reports that `id` is not registered.
pub open spec fn not_registered_error(e: Error, id: Seq<char>) -> bool {
    e matches Error::Repo(RepoWorkflowError::RepoNotRegistered { repo_id }) && repo_id@ == id
}

/// `e` reports that `id` is already registered.
pub open spec fn already_registered_error(e: Error, id: Seq<char>) -> bool {
    e matches Error::Repo(RepoWorkflowError::RepoAlreadyRegistered { repo_id }) && repo_id@ == id
}

pub open spec fn id_views(v: Seq<RepoId>) -> Seq<Seq<char>> {
    v.map_values(|id: RepoId| id@)
}

/// The requested repo if it is registered, or every registered repo in id
/// order.
pub fn selected_repo_ids_in_manifest(manifest: &PersistedManifest, requested: Option<RepoId>) -> (r: Result<Vec<RepoId>, Error>)
    ensures
        match requested {
            Some(id) => if manifest@.repos.contains_key(id@) {
                r matches Ok(v) && id_views(v@) == seq![id@]
            } else {
                r matches Err(e) && not_registered_error(e, id@)
            },
            None => r matches Ok(v) && id_views(v@) == manifest@.repo_ids,
        },
        r matches Ok(v) ==> forall|i: int| 0 <= i < v@.len() ==> manifest@.repos.contains_key(#[trigger] v@[i]@),
{
    manifest.check_wf();
    match requested {
        Some(repo_id) => {
            if manifest.contains_repo(&repo_id) {
                let ghost id = repo_id@;
                let mut v: Vec<RepoId> = Vec::new();
                v.push(repo_id);
                proof {
                    assert(id_views(v@) =~= seq![id]);
                }
                Ok(v)
            } else {
                Err(Error::Repo(RepoWorkflowError::RepoNotRegistered { repo_id }))
            }
        },
        None => {
            let v = manifest.repo_ids();
            proof {
                assert forall|i: int| 0 <= i < v@.len() implies manifest@.repos.contains_key(#[trigger] v@[i]@) by {
                    assert(id_views(v@)[i] == v@[i]@);
                    assert(manifest@.repo_ids.contains(v@[i]@));
                }
            }
            Ok(v)
        },
    }
}

/// The registration of `repo_id`.
pub fn registered_repo_in_manifest(manifest: &PersistedManifest, repo_id: &RepoId) -> (r: Result<RegisteredRepo, Error>)
    ensures
        match repo_lookup(manifest@, repo_id@) {
            Some(s) => r matches Ok(x) && x@ == s,
            None => r matches Err(e) && not_registered_error(e, repo_id@),
        },
{
    match manifest.repo(repo_id) {
        Some(reg) => Ok(RegisteredRepo { source: reg.source.clone() }),
        None => Err(Error::Repo(RepoWorkflowError::RepoNotRegistered { repo_id: repo_id.clone() })),
    }
}

pub open spec fn pair_views(v: Seq<(RepoId, RegisteredRepo)>) -> Seq<(Seq<char>, Seq<char>)> {
    v.map_values(|p: (RepoId, RegisteredRepo)| (p.0@, p.1@))
}

/// The selected repos with their registrations.
pub fn selected_registered_repos_in_manifest(manifest: &PersistedManifest, requested: Option<RepoId>) -> (r: Result<Vec<(RepoId, RegisteredRepo)>, Error>)
    ensures
        match requested {
            Some(id) => if manifest@.repos.contains_key(id@) {
                r matches Ok(v) && pair_views(v@) == seq![(id@, manifest@.repos[id@])]
            } else {
                r matches Err(e) && not_registered_error(e, id@)
            },
            None => r matches Ok(v) && v@.len() == manifest@.repo_ids.len() && forall|i: int|
                0 <= i < v@.len() ==> (#[trigger] pair_views(v@)[i]) == (
                    manifest@.repo_ids[i],
                    manifest@.repos[manifest@.repo_ids[i]],
                ),
        },
{
    manifest.check_wf();
    let ghost req = requested;
    let ids = selected_repo_ids_in_manifest(manifest, requested)?;
    let ghost idv = id_views(ids@);
    let mut out: Vec<(RepoId, RegisteredRepo)> = Vec::new();
    let mut i: usize = 0;
    while i < ids.len()
        invariant
            idv == id_views(ids@),
            crate::persistence::manifest::view_wf(manifest@),
            forall|j: int| 0 <= j < idv.len() ==> manifest@.repos.contains_key(#[trigger] idv[j]),
            i <= ids.len(),
            out@.len() == i,
            forall|j: int|
                0 <= j < i ==> (#[trigger] pair_views(out@)[j]) == (idv[j], manifest@.repos[idv[j]]),
        decreases ids.len() - i,
    {
        proof {
            assert(idv[i as int] == ids@[i as int]@);
        }
        let repo = registered_repo_in_manifest(manifest, &ids[i]);
        match repo {
            Ok(repo) => {
                let ghost before = out@;
                out.push((ids[i].clone(), repo));
                proof {
                    assert(pair_views(out@) =~= pair_views(before).push(
                        (idv[i as int], manifest@.repos[idv[i as int]]),
                    ));
                }
            },
            Err(e) => {
                return Err(e);
            },
        }
        i = i + 1;
    }
    proof {
        match req {
            Some(id) => {
                assert(pair_views(out@) =~= seq![(id@, manifest@.repos[id@])]);
            },
            None => {},
        }
    }
    Ok(out)
}

/// Registers `repo_id`; fails, changing nothing, if it is registered.
pub fn register_repo_in_manifest(manifest: &mut PersistedManifest, repo_id: RepoId, repo: RegisteredRepo) -> (r: Result<(), Error>)
    ensures
        old(manifest)@.repos.contains_key(repo_id@) ==> (r matches Err(e) && already_registered_error(
            e,
            repo_id@,
        ) && final(manifest)@ == old(manifest)@),
        !old(manifest)@.repos.contains_key(repo_id@) ==> (r is Ok && final(manifest)@ == with_repo(
            old(manifest)@,
            repo_id@,
            repo@,
        )),
{
    if manifest.contains_repo(&repo_id) {
        return Err(Error::Repo(RepoWorkflowError::RepoAlreadyRegistered { repo_id }));
    }
    manifest.insert_repo(repo_id, repo.into_registration());
    Ok(())
}

/// Replaces the registration of a registered repo.
pub fn replace_registered_repo_in_manifest(manifest: &mut PersistedManifest, repo_id: &RepoId, repo: RegisteredRepo) -> (r: Result<(), Error>)
    ensures
        !old(manifest)@.repos.contains_key(repo_id@) ==> (r matches Err(e) && not_registered_error(
            e,
            repo_id@,
        ) && final(manifest)@ == old(manifest)@),
        old(manifest)@.repos.contains_key(repo_id@) ==> (r is Ok && final(manifest)@ == with_repo(
            old(manifest)@,
            repo_id@,
            repo@,
        )),
{
    if !manifest.contains_repo(repo_id) {
        return Err(Error::Repo(RepoWorkflowError::RepoNotRegistered { repo_id: repo_id.clone() }));
    }
    manifest.insert_repo(repo_id.clone(), repo.into_registration());
    Ok(())
}

/// Removes the registration of `repo_id`, returning it.
pub fn remove_registered_repo_record(manifest: &mut PersistedManifest, repo_id: &RepoId) -> (r: Result<RegisteredRepo, Error>)
    ensures
        match repo_lookup(old(manifest)@, repo_id@) {
            Some(s) => r matches Ok(x) && x@ == s && final(manifest)@ == without_repo(
                old(manifest)@,
                repo_id@,
            ),
            None => r matches Err(e) && not_registered_error(e, repo_id@) && final(manifest)@
                == without_repo(old(manifest)@, repo_id@),
        },
{
    match manifest.remove_repo(repo_id) {
        Some(reg) => Ok(RegisteredRepo::from_registration(reg)),
        None => Err(Error::Repo(RepoWorkflowError::RepoNotRegistered { repo_id: repo_id.clone() })),
    }
}

} // verus!
