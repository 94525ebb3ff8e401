//! Manifest updates that touch registrations, mounts and templates at once.
//! Each takes the manifest that was read and leaves the next one in place;
//! the caller writes it back only when the update succeeded.
use vstd::prelude::*;

use crate::mounts::store::{clear_repo_mounts_tx, replace_repo_mounts_tx};
use crate::persistence::manifest::{
    repo_lookup, with_repo, with_repo_mounts, with_templates, without_repo, ManifestView,
    PersistedManifest, PersistedTemplateBinding,
};
use crate::registry::store::{
    already_registered_error, not_registered_error, register_repo_in_manifest,
    remove_registered_repo_record, RegisteredRepo,
};
use crate::shared::error::{Error, RepoWorkflowError};
use crate::shared::mount_spec::{
    conflict_free, first_conflicting_pair, mount_spec_error, spec_views, validate_mount_specs,
    MountSpec, MountSpecOwner, MountSpecView,
};
use crate::shared::types::{RepoId, TemplateId};

verus! {

/// The manifest after attaching `id`: registered, with its mounts, and bound
/// to its template if it has one.
pub open spec fn attached(
    m: ManifestView,
    id: Seq<char>,
    source: Seq<char>,
    ms: Seq<MountSpecView>,
    template: Option<Seq<char>>,
) -> ManifestView {
    let registered = with_repo_mounts(with_repo(m, id, source), id, ms);
    match template {
        Some(t) => with_templates(registered, registered.templates.insert(id, t)),
        None => registered,
    }
}

/// Registers a repo with its mounts and template binding.
pub fn persist_attached_repo(
    manifest: &mut PersistedManifest,
    repo_id: RepoId,
    repo: RegisteredRepo,
    repo_mounts: Vec<MountSpec>,
    applied_template: Option<TemplateId>,
) -> (r: Result<(), Error>)
    ensures
        old(manifest)@.repos.contains_key(repo_id@) ==> (r matches Err(e) && already_registered_error(
            e,
            repo_id@,
        )),
        !old(manifest)@.repos.contains_key(repo_id@) ==> (r is Ok <==> conflict_free(
            spec_views(repo_mounts@),
        )),
        !old(manifest)@.repos.contains_key(repo_id@) && !conflict_free(spec_views(repo_mounts@))
            ==> (r matches Err(e) && exists|i: int, j: int|
            first_conflicting_pair(spec_views(repo_mounts@), i, j) && mount_spec_error(
                e,
                Some(repo_id@),
                repo_mounts@[j]@,
                repo_mounts@[i]@,
            )),
        r is Err ==> final(manifest)@ == old(manifest)@,
        r is Ok ==> final(manifest)@ == attached(
            old(manifest)@,
            repo_id@,
            repo@,
            spec_views(repo_mounts@),
            match applied_template {
                Some(t) => Some(t@),
                None => None,
            },
        ),
{
    let id = repo_id.clone();
    if manifest.contains_repo(&id) {
        return Err(Error::Repo(RepoWorkflowError::RepoAlreadyRegistered { repo_id }));
    }
    validate_mount_specs(&MountSpecOwner::Repo(id.clone()), repo_mounts.as_slice())?;
    register_repo_in_manifest(manifest, repo_id, repo)?;
    replace_repo_mounts_tx(manifest, &id, repo_mounts)?;
    match applied_template {
        Some(template) => {
            manifest.replace_applied_template(id, PersistedTemplateBinding { template });
        },
        None => {},
    }
    Ok(())
}

/// The manifest after removing `id` with its mounts and template binding.
pub open spec fn removed(m: ManifestView, id: Seq<char>) -> ManifestView {
    let without = with_repo_mounts(without_repo(m, id), id, Seq::empty());
    with_templates(without, without.templates.remove(id))
}

/// Removes a registered repo with its mounts and template binding,
/// returning its registration.
pub fn remove_registered_repo(manifest: &mut PersistedManifest, repo_id: &RepoId) -> (r: Result<RegisteredRepo, Error>)
    ensures
        match repo_lookup(old(manifest)@, repo_id@) {
            Some(s) => r matches Ok(x) && x@ == s && final(manifest)@ == removed(
                old(manifest)@,
                repo_id@,
            ),
            None => r matches Err(e) && not_registered_error(e, repo_id@),
        },
{
    let removed = remove_registered_repo_record(manifest, repo_id)?;
    clear_repo_mounts_tx(manifest, repo_id);
    manifest.clear_applied_template(repo_id);
    Ok(removed)
}

/// Replaces the mounts of a registered repo and binds it to a template.
pub fn apply_template_to_repo(
    manifest: &mut PersistedManifest,
    repo_id: &RepoId,
    updated_mounts: Vec<MountSpec>,
    applied_template: TemplateId,
) -> (r: Result<(), Error>)
    ensures
        !old(manifest)@.repos.contains_key(repo_id@) ==> (r matches Err(e) && not_registered_error(
            e,
            repo_id@,
        )),
        old(manifest)@.repos.contains_key(repo_id@) ==> (r is Ok <==> conflict_free(
            spec_views(updated_mounts@),
        )),
        r is Err ==> final(manifest)@ == old(manifest)@,
        r is Ok ==> final(manifest)@ == with_templates(
            with_repo_mounts(old(manifest)@, repo_id@, spec_views(updated_mounts@)),
            old(manifest)@.templates.insert(repo_id@, applied_template@),
        ),
{
    replace_repo_mounts_tx(manifest, repo_id, updated_mounts)?;
    manifest.replace_applied_template(
        repo_id.clone(),
        PersistedTemplateBinding { template: applied_template },
    );
    Ok(())
}

} // verus!
