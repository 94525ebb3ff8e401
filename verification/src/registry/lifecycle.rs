//! Attaching, detaching, cloning and removing the clone of registered
//! repos: the decisions, given what the file system and the mount table
//! show. The caller performs the clones, unmounts and removals in order.
use vstd::prelude::*;

use crate::inspection::status_view::RepoLifecyclePreflight;
use crate::persistence::composite::{attached, persist_attached_repo, remove_registered_repo, removed};
use crate::persistence::manifest::{repo_lookup, PersistedManifest};
use crate::registry::store::{registered_repo_in_manifest, RegisteredRepo};
use crate::shared::error::{
    AttachError, Error, InfraGitError, MountWorkflowError, RepoWorkflowError, WorkspaceError,
};
use crate::shared::mount_spec::{conflict_free, first_conflicting_pair, mount_spec_error, spec_views, MountSpec};
use crate::shared::text::{chars_of, is_unicode_whitespace, is_unicode_whitespace_exec, string_from_range};
use crate::shared::types::{CloneSource, RepoId, TemplateId};
use crate::workspace::{repo_context_root_spec, repo_root_spec, Workspace};

verus! {

/// Registry errors reported as attach errors.
pub fn map_attach_error(error: Error) -> (r: Error)
    ensures
        error matches Error::Repo(RepoWorkflowError::RepoAlreadyRegistered { repo_id }) ==> (r matches Error::Attach(
            AttachError::RepoAlreadyRegistered { repo_id: id },
        ) && id@ == repo_id@),
        error matches Error::Repo(RepoWorkflowError::RepoNotRegistered { repo_id }) ==> (r matches Error::Attach(
            AttachError::RepoNotRegistered { repo_id: id },
        ) && id@ == repo_id@),
        !(error matches Error::Repo(RepoWorkflowError::RepoAlreadyRegistered { .. })) && !(error matches Error::Repo(
            RepoWorkflowError::RepoNotRegistered { .. },
        )) ==> r == error,
{
    match error {
        Error::Repo(RepoWorkflowError::RepoAlreadyRegistered { repo_id }) => Error::Attach(
            AttachError::RepoAlreadyRegistered { repo_id },
        ),
        Error::Repo(RepoWorkflowError::RepoNotRegistered { repo_id }) => Error::Attach(
            AttachError::RepoNotRegistered { repo_id },
        ),
        other => other,
    }
}

/// A repo is cloned when its root exists and is a git work tree.
pub fn is_repo_materialized(repo_root_exists: bool, is_git_repo: bool) -> (r: bool)
    ensures
        r == (repo_root_exists && is_git_repo),
{
    repo_root_exists && is_git_repo
}

/// The root of a cloned repo; an error if it is not cloned.
pub fn require_materialized_repo(workspace: &Workspace, repo_id: &RepoId, materialized: bool) -> (r: Result<String, Error>)
    ensures
        materialized ==> (r matches Ok(p) && p@ == repo_root_spec(workspace@, repo_id@)),
        !materialized ==> (r matches Err(Error::Workspace(WorkspaceError::RepoNotMaterialized { repo_id: id }))
            && id@ == repo_id@),
{
    if !materialized {
        return Err(Error::Workspace(WorkspaceError::RepoNotMaterialized { repo_id: repo_id.clone() }));
    }
    Ok(workspace.repo_root(repo_id))
}

/// Registers a repo, with the mounts and template a prepared template
/// brings (none when attaching without a template).
pub fn attach_repo(
    manifest: &mut PersistedManifest,
    repo_id: RepoId,
    source: CloneSource,
    template: Option<(TemplateId, Vec<MountSpec>)>,
) -> (r: Result<RepoId, Error>)
    ensures
        old(manifest)@.repos.contains_key(repo_id@) ==> (r matches Err(Error::Attach(
            AttachError::RepoAlreadyRegistered { repo_id: id },
        )) && id@ == repo_id@),
        !old(manifest)@.repos.contains_key(repo_id@) && template is None ==> (r matches Ok(id) && id@
            == repo_id@ && final(manifest)@ == attached(
            old(manifest)@,
            repo_id@,
            source@,
            Seq::empty(),
            None,
        )),
        !old(manifest)@.repos.contains_key(repo_id@) && template is Some && conflict_free(
            spec_views(template->Some_0.1@),
        ) ==> (r matches Ok(id) && id@ == repo_id@ && final(manifest)@ == attached(
            old(manifest)@,
            repo_id@,
            source@,
            spec_views(template->Some_0.1@),
            Some(template->Some_0.0@),
        )),
        r is Err ==> final(manifest)@ == old(manifest)@,
        !old(manifest)@.repos.contains_key(repo_id@) && template is Some && !conflict_free(
            spec_views(template->Some_0.1@),
        ) ==> (r matches Err(e) && exists|i: int, j: int|
            first_conflicting_pair(spec_views(template->Some_0.1@), i, j) && mount_spec_error(
                e,
                Some(repo_id@),
                template->Some_0.1@[j]@,
                template->Some_0.1@[i]@,
            )),
{
    let repo = RegisteredRepo { source };
    let (mounts, template_id) = match template {
        Some((t, ms)) => (ms, Some(t)),
        None => (Vec::new(), None),
    };
    proof {
        assert(spec_views(mounts@) =~= Seq::empty() || template is Some);
        if template is None {
            assert(conflict_free(spec_views(mounts@)));
        }
    }
    match persist_attached_repo(manifest, repo_id.clone(), repo, mounts, template_id) {
        Ok(()) => Ok(repo_id),
        Err(e) => Err(map_attach_error(e)),
    }
}

/// Undoes an attach whose context directory could not be created: the
/// registration is removed again.
pub fn rollback_attach(manifest: &mut PersistedManifest, repo_id: &RepoId) -> (r: Result<(), Error>)
    ensures
        match repo_lookup(old(manifest)@, repo_id@) {
            Some(_) => r is Ok && final(manifest)@ == removed(old(manifest)@, repo_id@),
            None => r matches Err(Error::Attach(AttachError::RepoNotRegistered { repo_id: id })) && id@
                == repo_id@,
        },
{
    match remove_registered_repo(manifest, repo_id) {
        Ok(_) => Ok(()),
        Err(e) => Err(map_attach_error(e)),
    }
}

/// A detached repo and where its context files stay.
#[derive(Debug)]
pub struct DetachedRepo {
    pub repo_id: RepoId,
    pub context_root: String,
}

/// What detaching will do before unregistering: the targets to unmount and
/// whether to drop the receipts and the clone.
#[derive(Debug)]
pub struct DetachPlan {
    pub unmount_targets: Vec<String>,
    pub teardown: bool,
}

/// Why detaching is refused, in the order the checks are made: the repo
/// is not registered; it has conflicting mounts; without `force`, it is
/// cloned or has active mounts; with `force`, an active mount has no
/// receipt and unverified unmounts are not allowed.
pub open spec fn detach_refusal(
    registered: bool,
    p: RepoLifecyclePreflight,
    force: bool,
    unsafe_unmount: bool,
    e: Error,
    id: Seq<char>,
) -> bool {
    if !registered {
        e matches Error::Attach(AttachError::RepoNotRegistered { repo_id }) && repo_id@ == id
    } else if p.has_conflicting_mounts {
        e matches Error::Attach(AttachError::RepoHasConflictingMounts { repo_id }) && repo_id@ == id
    } else if !force && p.materialized {
        e matches Error::Attach(AttachError::RepoStillMaterialized { repo_id }) && repo_id@ == id
    } else if !force && p.has_active_mounts {
        e matches Error::Attach(AttachError::RepoHasActiveMounts { repo_id }) && repo_id@ == id
    } else if force && (p.materialized || p.has_active_mounts) && !unsafe_unmount
        && p.unverified_active_mounts@.len() > 0 {
        e matches Error::Mount(
            MountWorkflowError::UnmountTargetOwnershipUnverified { existing_source, target },
        ) && existing_source@ == p.unverified_active_mounts@[0].existing_source@ && target@
            == p.unverified_active_mounts@[0].target@
    } else {
        false
    }
}

/// Detaching goes ahead.
pub open spec fn detach_allowed(registered: bool, p: RepoLifecyclePreflight, force: bool, unsafe_unmount: bool) -> bool {
    &&& registered
    &&& !p.has_conflicting_mounts
    &&& (force || (!p.materialized && !p.has_active_mounts))
    &&& !(force && (p.materialized || p.has_active_mounts) && !unsafe_unmount
        && p.unverified_active_mounts@.len() > 0)
}

/// Checks a detach of `repo_id` against its lifecycle facts.
pub fn plan_detach(
    manifest: &PersistedManifest,
    repo_id: &RepoId,
    force: bool,
    unsafe_unmount: bool,
    preflight: &RepoLifecyclePreflight,
) -> (r: Result<DetachPlan, Error>)
    ensures
        detach_allowed(manifest@.repos.contains_key(repo_id@), *preflight, force, unsafe_unmount) ==> (r matches Ok(
            plan,
        ) && plan.teardown == (force && (preflight.materialized || preflight.has_active_mounts))
            && crate::mounts::infra::string_views(plan.unmount_targets@) == if plan.teardown {
            crate::mounts::infra::string_views(preflight.active_mount_targets@)
        } else {
            Seq::<Seq<char>>::empty()
        }),
        !detach_allowed(manifest@.repos.contains_key(repo_id@), *preflight, force, unsafe_unmount) ==> (r matches Err(
            e,
        ) && detach_refusal(
            manifest@.repos.contains_key(repo_id@),
            *preflight,
            force,
            unsafe_unmount,
            e,
            repo_id@,
        )),
{
    match registered_repo_in_manifest(manifest, repo_id) {
        Ok(_) => {},
        Err(e) => return Err(map_attach_error(e)),
    }
    if preflight.has_conflicting_mounts {
        return Err(Error::Attach(AttachError::RepoHasConflictingMounts { repo_id: repo_id.clone() }));
    }
    if !force {
        if preflight.materialized {
            return Err(Error::Attach(AttachError::RepoStillMaterialized { repo_id: repo_id.clone() }));
        }
        if preflight.has_active_mounts {
            return Err(Error::Attach(AttachError::RepoHasActiveMounts { repo_id: repo_id.clone() }));
        }
        return Ok(DetachPlan { unmount_targets: Vec::new(), teardown: false });
    }
    if preflight.materialized || preflight.has_active_mounts {
        if !unsafe_unmount && preflight.unverified_active_mounts.len() > 0 {
            let mount = &preflight.unverified_active_mounts[0];
            return Err(Error::Mount(MountWorkflowError::UnmountTargetOwnershipUnverified {
                existing_source: mount.existing_source.clone(),
                target: mount.target.clone(),
            }));
        }
        let targets = crate::mounts::infra::clone_strings(&preflight.active_mount_targets);
        return Ok(DetachPlan { unmount_targets: targets, teardown: true });
    }
    Ok(DetachPlan { unmount_targets: Vec::new(), teardown: false })
}

/// Unregisters a detached repo with its mounts and template binding.
pub fn commit_detach(workspace: &Workspace, manifest: &mut PersistedManifest, repo_id: RepoId) -> (r: Result<DetachedRepo, Error>)
    ensures
        match repo_lookup(old(manifest)@, repo_id@) {
            Some(_) => r matches Ok(d) && d.repo_id@ == repo_id@ && d.context_root@ == repo_context_root_spec(
                workspace@,
                repo_id@,
            ) && final(manifest)@ == removed(old(manifest)@, repo_id@),
            None => r matches Err(Error::Attach(AttachError::RepoNotRegistered { repo_id: id })) && id@
                == repo_id@,
        },
{
    match remove_registered_repo(manifest, &repo_id) {
        Ok(_) => {},
        Err(e) => return Err(map_attach_error(e)),
    }
    let context_root = workspace.repo_context_root(&repo_id);
    Ok(DetachedRepo { repo_id, context_root })
}

/// Detaching never goes ahead for a repo with conflicting mounts, nor
/// without `force` for a cloned repo or one with active mounts, nor past an
/// active mount without a receipt unless unverified unmounts are allowed.
pub proof fn law_detach_guards(registered: bool, p: RepoLifecyclePreflight, force: bool, unsafe_unmount: bool)
    ensures
        detach_allowed(registered, p, force, unsafe_unmount) ==> !p.has_conflicting_mounts,
        detach_allowed(registered, p, force, unsafe_unmount) && !force ==> !p.materialized
            && !p.has_active_mounts,
        detach_allowed(registered, p, force, unsafe_unmount) && !unsafe_unmount && (p.materialized
            || p.has_active_mounts) ==> p.unverified_active_mounts@.len() == 0,
{
}

// ---------------------------------------------------------------------------
// Removing clones
// ---------------------------------------------------------------------------

/// What happened to one selected repo when removing clones.
#[derive(Debug)]
pub enum DematerializeOutcome {
    Dematerialized { repo_id: RepoId },
    AlreadyDematerialized { repo_id: RepoId },
}

/// One step for the caller: remove the clone, report it already gone, or
/// stop with an error.
#[derive(Debug)]
pub enum DematerializeAction {
    RemoveRoot { repo_id: RepoId },
    AlreadyDematerialized { repo_id: RepoId },
    Refuse(Error),
}

/// The action for one repo: refused when it has conflicting or active
/// mounts, removal when cloned, nothing otherwise.
pub open spec fn dematerialize_action_for(a: DematerializeAction, p: RepoLifecyclePreflight) -> bool {
    if p.has_conflicting_mounts {
        a matches DematerializeAction::Refuse(Error::Repo(RepoWorkflowError::RepoHasConflictingMounts { repo_id }))
            && repo_id@ == p.repo_id@
    } else if p.has_active_mounts {
        a matches DematerializeAction::Refuse(Error::Repo(RepoWorkflowError::RepoHasActiveMounts { repo_id }))
            && repo_id@ == p.repo_id@
    } else if p.materialized {
        a matches DematerializeAction::RemoveRoot { repo_id } && repo_id@ == p.repo_id@
    } else {
        a matches DematerializeAction::AlreadyDematerialized { repo_id } && repo_id@ == p.repo_id@
    }
}

/// The actions for removing the clones of the selected repos, in order, up
/// to and including the first refusal.
pub fn dematerialize_repos(preflights: &Vec<RepoLifecyclePreflight>) -> (r: Vec<DematerializeAction>)
    ensures
        r@.len() <= preflights@.len(),
        forall|i: int| 0 <= i < r@.len() ==> dematerialize_action_for(#[trigger] r@[i], preflights@[i]),
        forall|i: int| 0 <= i < r@.len() - 1 ==> !(#[trigger] r@[i] is Refuse),
        r@.len() < preflights@.len() ==> r@.len() > 0 && r@[r@.len() - 1] is Refuse,
{
    let mut out: Vec<DematerializeAction> = Vec::new();
    let mut i: usize = 0;
    while i < preflights.len()
        invariant
            i <= preflights.len(),
            out@.len() == i,
            forall|j: int| 0 <= j < i ==> dematerialize_action_for(#[trigger] out@[j], preflights@[j]),
            forall|j: int| 0 <= j < i ==> !(#[trigger] out@[j] is Refuse),
        decreases preflights.len() - i,
    {
        let p = &preflights[i];
        let repo_id = p.repo_id.clone();
        if p.has_conflicting_mounts {
            out.push(DematerializeAction::Refuse(Error::Repo(RepoWorkflowError::RepoHasConflictingMounts {
                repo_id,
            })));
            return out;
        }
        if p.has_active_mounts {
            out.push(DematerializeAction::Refuse(Error::Repo(RepoWorkflowError::RepoHasActiveMounts {
                repo_id,
            })));
            return out;
        }
        if p.materialized {
            out.push(DematerializeAction::RemoveRoot { repo_id });
        } else {
            out.push(DematerializeAction::AlreadyDematerialized { repo_id });
        }
        i = i + 1;
    }
    out
}

/// A clone is only removed for a repo without active or conflicting mounts.
pub proof fn law_dematerialize_guards(a: DematerializeAction, p: RepoLifecyclePreflight)
    requires
        dematerialize_action_for(a, p),
    ensures
        a is RemoveRoot ==> !p.has_active_mounts && !p.has_conflicting_mounts && p.materialized,
{
}

// ---------------------------------------------------------------------------
// Cloning
// ---------------------------------------------------------------------------

/// What happened to one selected repo when cloning.
#[derive(Debug)]
pub enum MaterializeOutcome {
    Materialized { repo_id: RepoId, repo_root: String },
    AlreadyMaterialized { repo_id: RepoId, repo_root: String },
}

/// A selected repo with what the file system shows of its root.
#[derive(Debug)]
pub struct MaterializeInput {
    pub repo_id: RepoId,
    pub repo: RegisteredRepo,
    pub repo_root_exists: bool,
    pub is_git_repo: bool,
}

/// One step for the caller.
#[derive(Debug)]
pub enum MaterializeAction {
    Clone { repo_id: RepoId, source: CloneSource, repo_root: String },
    AlreadyMaterialized { repo_id: RepoId, repo_root: String },
    Refuse(Error),
}

/// The action for one repo: nothing when already cloned, refused when its
/// root exists but is not a git work tree, a clone otherwise.
pub open spec fn materialize_action_for(a: MaterializeAction, root: Seq<char>, m: MaterializeInput) -> bool {
    let repo_root = repo_root_spec(root, m.repo_id@);
    if m.repo_root_exists && m.is_git_repo {
        a matches MaterializeAction::AlreadyMaterialized { repo_id, repo_root: p } && repo_id@ == m.repo_id@
            && p@ == repo_root
    } else if m.repo_root_exists {
        a matches MaterializeAction::Refuse(Error::Repo(RepoWorkflowError::DestinationExistsNotGitRepo { repo_root: p }))
            && p@ == repo_root
    } else {
        a matches MaterializeAction::Clone { repo_id, source, repo_root: p } && repo_id@ == m.repo_id@ && source@
            == m.repo@ && p@ == repo_root
    }
}

/// The actions for cloning the selected repos, in order, up to and
/// including the first refusal.
pub fn materialize_repos(workspace: &Workspace, repos: &Vec<MaterializeInput>) -> (r: Vec<MaterializeAction>)
    ensures
        r@.len() <= repos@.len(),
        forall|i: int| 0 <= i < r@.len() ==> materialize_action_for(#[trigger] r@[i], workspace@, repos@[i]),
        forall|i: int| 0 <= i < r@.len() - 1 ==> !(#[trigger] r@[i] is Refuse),
        r@.len() < repos@.len() ==> r@.len() > 0 && r@[r@.len() - 1] is Refuse,
{
    let mut out: Vec<MaterializeAction> = Vec::new();
    let mut i: usize = 0;
    while i < repos.len()
        invariant
            i <= repos.len(),
            out@.len() == i,
            forall|j: int| 0 <= j < i ==> materialize_action_for(#[trigger] out@[j], workspace@, repos@[j]),
            forall|j: int| 0 <= j < i ==> !(#[trigger] out@[j] is Refuse),
        decreases repos.len() - i,
    {
        let m = &repos[i];
        let repo_root = workspace.repo_root(&m.repo_id);
        if m.repo_root_exists {
            if m.is_git_repo {
                out.push(MaterializeAction::AlreadyMaterialized { repo_id: m.repo_id.clone(), repo_root });
            } else {
                out.push(MaterializeAction::Refuse(Error::Repo(
                    RepoWorkflowError::DestinationExistsNotGitRepo { repo_root },
                )));
                return out;
            }
        } else {
            out.push(MaterializeAction::Clone {
                repo_id: m.repo_id.clone(),
                source: m.repo.source.clone(),
                repo_root,
            });
        }
        i = i + 1;
    }
    out
}

/// `s` without leading and trailing Unicode white space.
pub open spec fn trimmed(s: Seq<char>) -> Seq<char>
    decreases s.len(),
{
    if s.len() > 0 && is_unicode_whitespace(s[0]) {
        trimmed(s.drop_first())
    } else if s.len() > 0 && is_unicode_whitespace(s.last()) {
        trimmed(s.drop_last())
    } else {
        s
    }
}

proof fn lemma_trimmed_range(s: Seq<char>, lo: int, hi: int)
    requires
        0 <= lo <= hi <= s.len(),
        forall|i: int| 0 <= i < lo ==> is_unicode_whitespace(#[trigger] s[i]),
        forall|i: int| hi <= i < s.len() ==> is_unicode_whitespace(#[trigger] s[i]),
        lo == hi || (!is_unicode_whitespace(s[lo]) && !is_unicode_whitespace(s[hi - 1])),
    ensures
        trimmed(s) == s.subrange(lo, hi),
    decreases s.len(),
{
    if s.len() > 0 && is_unicode_whitespace(s[0]) {
        if lo == 0 {
            if lo == hi {
                lemma_trimmed_range(s.drop_first(), 0, 0);
                assert(s.drop_first().subrange(0, 0) =~= s.subrange(lo, hi));
            }
        } else {
            lemma_trimmed_range(s.drop_first(), lo - 1, hi - 1);
            assert(s.drop_first().subrange(lo - 1, hi - 1) =~= s.subrange(lo, hi));
        }
        if lo == 0 && lo != hi {
            assert(!is_unicode_whitespace(s[lo]));
        }
    } else if s.len() > 0 && is_unicode_whitespace(s.last()) {
        if hi == s.len() {
            if lo == hi {
                if lo > 0 {
                    assert(is_unicode_whitespace(s[0]));
                }
                lemma_trimmed_range(s.drop_last(), s.len() - 1, s.len() - 1);
                assert(s.drop_last().subrange(s.len() - 1, s.len() - 1) =~= s.subrange(lo, hi));
            } else {
                assert(!is_unicode_whitespace(s[hi - 1]));
            }
        } else {
            if lo == hi && lo == s.len() {
                lemma_trimmed_range(s.drop_last(), lo - 1, lo - 1);
            } else {
                lemma_trimmed_range(s.drop_last(), lo, hi);
                assert(s.drop_last().subrange(lo, hi) =~= s.subrange(lo, hi));
            }
            if lo == hi && lo == s.len() {
                assert(s.drop_last().subrange(lo - 1, lo - 1) =~= s.subrange(lo, hi));
            }
        }
    } else {
        if lo > 0 {
            assert(is_unicode_whitespace(s[0]));
        }
        if hi < s.len() {
            assert(is_unicode_whitespace(s[s.len() - 1]));
        }
        assert(s.subrange(lo, hi) =~= s);
    }
}

/// The error of a failed clone, with the text git wrote to its error
/// stream trimmed of white space.
pub fn clone_failed_error(source: &CloneSource, stderr: &str) -> (r: Error)
    ensures
        r matches Error::InfraGit(InfraGitError::CloneFailed { clone_source, stderr: e })
            && clone_source@ == source@ && e@ == trimmed(stderr@),
{
    let v = chars_of(stderr);
    let mut lo: usize = 0;
    while lo < v.len() && is_unicode_whitespace_exec(v[lo])
        invariant
            lo <= v.len(),
            forall|i: int| 0 <= i < lo ==> is_unicode_whitespace(#[trigger] v@[i]),
        decreases v.len() - lo,
    {
        lo = lo + 1;
    }
    let mut hi: usize = v.len();
    while hi > lo && is_unicode_whitespace_exec(v[hi - 1])
        invariant
            lo <= hi <= v.len(),
            forall|i: int| hi <= i < v.len() ==> is_unicode_whitespace(#[trigger] v@[i]),
        decreases hi - lo,
    {
        hi = hi - 1;
    }
    proof {
        if lo < v.len() {
            assert(!is_unicode_whitespace(v@[lo as int]) || lo == hi);
        }
        lemma_trimmed_range(v@, lo as int, hi as int);
    }
    let text = string_from_range(&v, lo, hi);
    Error::InfraGit(InfraGitError::CloneFailed { clone_source: source.clone(), stderr: text })
}

} // verus!
