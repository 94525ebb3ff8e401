//! Bind-mount specifications and the rules that keep a set of them free of
//! overlaps.
use vstd::prelude::*;

use crate::shared::error::{Error, ValidationError};
use crate::shared::text::{chars_eq, chars_of, has_prefix};
use crate::shared::types::{RelativePath, RepoId};

verus! {

/// A bind-mount specification mapping a context path to a repo path.
#[derive(Debug)]
pub struct MountSpec {
    /// Relative path within the repo's context directory (mount source).
    pub context: RelativePath,
    /// Relative path within the cloned repository (mount target).
    pub repo: RelativePath,
}

/// The texts of a mount specification's two paths.
pub struct MountSpecView {
    pub context: Seq<char>,
    pub repo: Seq<char>,
}

impl View for MountSpec {
    type V = MountSpecView;

    open spec fn view(&self) -> MountSpecView {
        MountSpecView { context: self.context@, repo: self.repo@ }
    }
}

impl Clone for MountSpec {
    fn clone(&self) -> (r: Self)
        ensures
            r@ == self@,
    {
        MountSpec { context: self.context.clone(), repo: self.repo.clone() }
    }
}

impl PartialEq for MountSpec {
    fn eq(&self, other: &Self) -> (r: bool) {
        self.context == other.context && self.repo == other.repo
    }
}

impl Eq for MountSpec {

}

impl vstd::std_specs::cmp::PartialEqSpecImpl for MountSpec {
    open spec fn obeys_eq_spec() -> bool {
        true
    }

    open spec fn eq_spec(&self, other: &MountSpec) -> bool {
        self@ == other@
    }
}

/// The views of a list of mount specifications.
pub open spec fn spec_views(ms: Seq<MountSpec>) -> Seq<MountSpecView> {
    ms.map_values(|m: MountSpec| m@)
}

/// Identifies who owns a set of mount specs, for error message context.
#[derive(Debug)]
pub enum MountSpecOwner {
    Repo(RepoId),
    Template,
}

/// The repo id of an owner, `None` for a template.
pub open spec fn owner_id(owner: MountSpecOwner) -> Option<Seq<char>> {
    match owner {
        MountSpecOwner::Repo(id) => Some(id@),
        MountSpecOwner::Template => None,
    }
}

/// `inner` lies strictly inside the directory `outer` (component-wise:
/// `outer` followed by `/` begins `inner`).
pub open spec fn path_within(inner: Seq<char>, outer: Seq<char>) -> bool {
    has_prefix(inner, outer + seq!['/'])
}

/// Two normalized relative paths overlap when they are equal or one lies
/// inside the other.
pub open spec fn paths_overlap(a: Seq<char>, b: Seq<char>) -> bool {
    a == b || path_within(a, b) || path_within(b, a)
}

/// Two mounts conflict when their context paths or their repo paths overlap.
pub open spec fn specs_conflict(a: MountSpecView, b: MountSpecView) -> bool {
    paths_overlap(a.context, b.context) || paths_overlap(a.repo, b.repo)
}

/// No two distinct entries of the list conflict.
pub open spec fn conflict_free(ms: Seq<MountSpecView>) -> bool {
    forall|i: int, j: int|
        0 <= i < ms.len() && 0 <= j < ms.len() && i != j ==> !specs_conflict(
            #[trigger] ms[i],
            #[trigger] ms[j],
        )
}

/// Overlap is reflexive and symmetric.
pub proof fn lemma_paths_overlap_reflexive_symmetric(a: Seq<char>, b: Seq<char>)
    ensures
        paths_overlap(a, a),
        paths_overlap(a, b) == paths_overlap(b, a),
{
}

/// Conflict between mount specifications is symmetric.
pub proof fn lemma_specs_conflict_symmetric(a: MountSpecView, b: MountSpecView)
    ensures
        specs_conflict(a, b) == specs_conflict(b, a),
{
}

fn path_within_exec(inner: &Vec<char>, outer: &Vec<char>) -> (r: bool)
    ensures
        r == path_within(inner@, outer@),
{
    if inner.len() <= outer.len() {
        proof {
            assert(!path_within(inner@, outer@));
        }
        return false;
    }
    let mut i: usize = 0;
    while i < outer.len()
        invariant
            outer.len() < inner.len(),
            i <= outer.len(),
            forall|j: int| 0 <= j < i ==> inner@[j] == outer@[j],
        decreases outer.len() - i,
    {
        if inner[i] != outer[i] {
            proof {
                assert(inner@.take((outer@.len() + 1) as int)[i as int] != (outer@ + seq!['/'])[i as int]);
            }
            return false;
        }
        i = i + 1;
    }
    let r = inner[outer.len()] == '/';
    proof {
        if r {
            assert(inner@.take((outer@.len() + 1) as int) =~= outer@ + seq!['/']);
        } else {
            assert(inner@.take((outer@.len() + 1) as int)[outer@.len() as int] != (outer@ + seq!['/'])[outer@.len() as int]);
        }
    }
    r
}

/// Whether two relative paths are equal or one lies inside the other.
pub fn relative_paths_overlap(first: &RelativePath, second: &RelativePath) -> (r: bool)
    ensures
        r == paths_overlap(first@, second@),
{
    let a = chars_of(first.as_str());
    let b = chars_of(second.as_str());
    chars_eq(&a, &b) || path_within_exec(&a, &b) || path_within_exec(&b, &a)
}

/// Whether two mounts share or nest their context paths or their repo paths.
pub fn mounts_conflict(first: &MountSpec, second: &MountSpec) -> (r: bool)
    ensures
        r == specs_conflict(first@, second@),
{
    relative_paths_overlap(&first.context, &second.context) || relative_paths_overlap(
        &first.repo,
        &second.repo,
    )
}

/// The pair `(j, i)` with `j < i` is the first conflicting pair in the order
/// in which `validate_mount_specs` scans: each mount against those before it.
pub open spec fn first_conflicting_pair(ms: Seq<MountSpecView>, i: int, j: int) -> bool {
    &&& 0 <= j < i < ms.len()
    &&& specs_conflict(ms[j], ms[i])
    &&& forall|i2: int, j2: int|
        0 <= j2 < i2 < ms.len() && (i2 < i || (i2 == i && j2 < j)) ==> !specs_conflict(
            #[trigger] ms[j2],
            #[trigger] ms[i2],
        )
}

/// The error reported for the conflicting pair `existing` (earlier) and
/// `mount` (later), by the first check that fails: same context, nested
/// context, same repo path, nested repo path.
pub open spec fn mount_spec_error(
    e: Error,
    owner: Option<Seq<char>>,
    existing: MountSpecView,
    mount: MountSpecView,
) -> bool {
    match owner {
        Some(id) => if existing.context == mount.context {
            e matches Error::Validation(
                ValidationError::DuplicateRepoMountContext { repo_id: r, context: c },
            ) && r@ == id && c@ == mount.context
        } else if paths_overlap(existing.context, mount.context) {
            e matches Error::Validation(
                ValidationError::OverlappingRepoMountContext { repo_id: r, first: f, second: s },
            ) && r@ == id && f@ == existing.context && s@ == mount.context
        } else if existing.repo == mount.repo {
            e matches Error::Validation(
                ValidationError::DuplicateRepoMountTarget { repo_id: r, repo_path: p },
            ) && r@ == id && p@ == mount.repo
        } else {
            e matches Error::Validation(
                ValidationError::OverlappingRepoMountTarget { repo_id: r, first: f, second: s },
            ) && r@ == id && f@ == existing.repo && s@ == mount.repo
        },
        None => if existing.context == mount.context {
            e matches Error::Validation(ValidationError::DuplicateTemplateMountContext { context: c })
                && c@ == mount.context
        } else if paths_overlap(existing.context, mount.context) {
            e matches Error::Validation(
                ValidationError::OverlappingTemplateMountContext { first: f, second: s },
            ) && f@ == existing.context && s@ == mount.context
        } else if existing.repo == mount.repo {
            e matches Error::Validation(
                ValidationError::DuplicateTemplateMountTarget { repo_path: p },
            ) && p@ == mount.repo
        } else {
            e matches Error::Validation(
                ValidationError::OverlappingTemplateMountTarget { first: f, second: s },
            ) && f@ == existing.repo && s@ == mount.repo
        },
    }
}

fn conflict_error(owner: &MountSpecOwner, existing: &MountSpec, mount: &MountSpec) -> (e: Error)
    requires
        specs_conflict(existing@, mount@),
    ensures
        mount_spec_error(e, owner_id(*owner), existing@, mount@),
{
    if existing.context == mount.context {
        match owner {
            MountSpecOwner::Repo(repo_id) => Error::Validation(
                ValidationError::DuplicateRepoMountContext {
                    repo_id: repo_id.clone(),
                    context: mount.context.clone(),
                },
            ),
            MountSpecOwner::Template => Error::Validation(
                ValidationError::DuplicateTemplateMountContext { context: mount.context.clone() },
            ),
        }
    } else if relative_paths_overlap(&existing.context, &mount.context) {
        match owner {
            MountSpecOwner::Repo(repo_id) => Error::Validation(
                ValidationError::OverlappingRepoMountContext {
                    repo_id: repo_id.clone(),
                    first: existing.context.clone(),
                    second: mount.context.clone(),
                },
            ),
            MountSpecOwner::Template => Error::Validation(
                ValidationError::OverlappingTemplateMountContext {
                    first: existing.context.clone(),
                    second: mount.context.clone(),
                },
            ),
        }
    } else if existing.repo == mount.repo {
        match owner {
            MountSpecOwner::Repo(repo_id) => Error::Validation(
                ValidationError::DuplicateRepoMountTarget {
                    repo_id: repo_id.clone(),
                    repo_path: mount.repo.clone(),
                },
            ),
            MountSpecOwner::Template => Error::Validation(
                ValidationError::DuplicateTemplateMountTarget { repo_path: mount.repo.clone() },
            ),
        }
    } else {
        match owner {
            MountSpecOwner::Repo(repo_id) => Error::Validation(
                ValidationError::OverlappingRepoMountTarget {
                    repo_id: repo_id.clone(),
                    first: existing.repo.clone(),
                    second: mount.repo.clone(),
                },
            ),
            MountSpecOwner::Template => Error::Validation(
                ValidationError::OverlappingTemplateMountTarget {
                    first: existing.repo.clone(),
                    second: mount.repo.clone(),
                },
            ),
        }
    }
}

/// Checks that no two mounts conflict; on failure reports the first
/// conflicting pair in scan order.
pub fn validate_mount_specs(owner: &MountSpecOwner, mounts: &[MountSpec]) -> (r: Result<(), Error>)
    ensures
        r is Ok <==> conflict_free(spec_views(mounts@)),
        r matches Err(e) ==> exists|i: int, j: int|
            first_conflicting_pair(spec_views(mounts@), i, j) && mount_spec_error(
                e,
                owner_id(*owner),
                mounts@[j]@,
                mounts@[i]@,
            ),
{
    let ghost views = spec_views(mounts@);
    let mut i: usize = 0;
    while i < mounts.len()
        invariant
            views == spec_views(mounts@),
            views.len() == mounts@.len(),
            i <= mounts.len(),
            forall|i2: int, j2: int|
                0 <= j2 < i2 < i ==> !specs_conflict(#[trigger] views[j2], #[trigger] views[i2]),
        decreases mounts.len() - i,
    {
        let mut j: usize = 0;
        while j < i
            invariant
                views == spec_views(mounts@),
                views.len() == mounts@.len(),
                j <= i < mounts.len(),
                forall|i2: int, j2: int|
                    0 <= j2 < i2 < i ==> !specs_conflict(#[trigger] views[j2], #[trigger] views[i2]),
                forall|j2: int| 0 <= j2 < j ==> !specs_conflict(#[trigger] views[j2], views[i as int]),
            decreases i - j,
        {
            if mounts_conflict(&mounts[j], &mounts[i]) {
                let e = conflict_error(owner, &mounts[j], &mounts[i]);
                proof {
                    assert(views[i as int] == mounts@[i as int]@);
                    assert(views[j as int] == mounts@[j as int]@);
                    assert forall|i2: int, j2: int|
                        0 <= j2 < i2 < views.len() && (i2 < i || (i2 == i && j2 < j)) implies !specs_conflict(
                            #[trigger] views[j2],
                            #[trigger] views[i2],
                        ) by {
                        if i2 == i {
                            assert(!specs_conflict(views[j2], views[i as int]));
                        }
                    }
                    assert(first_conflicting_pair(views, i as int, j as int));
                }
                return Err(e);
            }
            proof {
                assert(views[i as int] == mounts@[i as int]@);
                assert(views[j as int] == mounts@[j as int]@);
            }
            j = j + 1;
        }
        i = i + 1;
    }
    proof {
        assert forall|a: int, b: int|
            0 <= a < views.len() && 0 <= b < views.len() && a != b implies !specs_conflict(
            #[trigger] views[a],
            #[trigger] views[b],
        ) by {
            if a < b {
                assert(!specs_conflict(views[a], views[b]));
            } else {
                assert(!specs_conflict(views[b], views[a]));
            }
        }
    }
    Ok(())
}

} // verus!
