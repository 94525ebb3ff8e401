//! Deciding which registered mounts to bind.
//!
//! Every selected mount is checked before anything is bound: a repo that
//! is not cloned, a target mounted from elsewhere, or a target whose files
//! the mount would hide stops the whole command. The caller then binds the
//! prepared mounts in order.
use vstd::prelude::*;

use crate::mounts::infra::{
    entry_matches_source, entry_views, find_target_mount, first_mount_at, MountEntry,
    MountEntryView,
};
use crate::mounts::ownership::{verifies_live, MountOwnershipState, OwnedMountRecord, OwnedMountView};
use crate::mounts::support::{
    ensure_mount_target_matches_source_or_is_empty, target_may_be_covered, TargetFacts,
};
use crate::shared::error::{Error, MountWorkflowError, WorkspaceError};
use crate::shared::mount_spec::{MountSpec, MountSpecView};
use crate::shared::types::RepoId;
use crate::workspace::{context_path_spec, repo_path_spec, Workspace};

verus! {

/// What happened to one registered mount when mounting.
#[derive(Debug)]
pub enum MountOutcome {
    Mounted { source: String, target: String },
    AlreadyMounted { source: String, target: String },
}

/// A selected repo with what the file system shows of it: whether it is
/// cloned, and for each mount what its source and target hold.
#[derive(Debug)]
pub struct RepoMountInput {
    pub repo_id: RepoId,
    pub materialized: bool,
    pub mounts: Vec<(MountSpec, TargetFacts)>,
}

pub struct RepoMountInputView {
    pub repo_id: Seq<char>,
    pub materialized: bool,
    pub mounts: Seq<(MountSpecView, TargetFacts)>,
}

impl View for RepoMountInput {
    type V = RepoMountInputView;

    open spec fn view(&self) -> RepoMountInputView {
        RepoMountInputView {
            repo_id: self.repo_id@,
            materialized: self.materialized,
            mounts: self.mounts@.map_values(|p: (MountSpec, TargetFacts)| (p.0@, p.1)),
        }
    }
}

pub open spec fn input_views(v: Seq<RepoMountInput>) -> Seq<RepoMountInputView> {
    v.map_values(|r: RepoMountInput| r@)
}

/// One step of checking the selection.
pub enum MountStep {
    /// The target is already mounted from this mount's source.
    Already { source: Seq<char>, target: Seq<char> },
    /// The target is free: bind the source onto it.
    Bind { repo_id: Seq<char>, spec: MountSpecView, source: Seq<char>, target: Seq<char> },
    /// The repo is not cloned.
    NotMaterialized { repo_id: Seq<char> },
    /// The target is mounted from another source.
    TargetBusy { source: Seq<char>, target: Seq<char>, existing_source: Seq<char> },
    /// Mounting would hide files of the target that the source lacks.
    WouldHide { repo_id: Seq<char>, repo_path: Seq<char>, source: Seq<char>, target: Seq<char> },
}

pub open spec fn is_failure(s: MountStep) -> bool {
    s is NotMaterialized || s is TargetBusy || s is WouldHide
}

/// The step for mount `spec` of repo `id`.
pub open spec fn mount_step(
    root: Seq<char>,
    id: Seq<char>,
    spec: MountSpecView,
    facts: TargetFacts,
    table: Seq<MountEntryView>,
    owned: Seq<OwnedMountView>,
) -> MountStep {
    let source = context_path_spec(root, id, spec.context);
    let target = repo_path_spec(root, id, spec.repo);
    match first_mount_at(table, target) {
        Some(i) => {
            let e = table[i];
            if entry_matches_source(e, source) || verifies_live(
                owned,
                id,
                spec,
                e.mount_id,
                e.preferred_source,
                e.filesystem_type,
            ) {
                MountStep::Already { source, target }
            } else {
                MountStep::TargetBusy { source, target, existing_source: e.preferred_source }
            }
        },
        None => if target_may_be_covered(facts) {
            MountStep::Bind { repo_id: id, spec, source, target }
        } else {
            MountStep::WouldHide { repo_id: id, repo_path: spec.repo, source, target }
        },
    }
}

/// The steps of one repo: its clone check, then each of its mounts.
pub open spec fn repo_steps(
    root: Seq<char>,
    r: RepoMountInputView,
    table: Seq<MountEntryView>,
    owned: Seq<OwnedMountView>,
) -> Seq<MountStep> {
    (if r.materialized {
        Seq::<MountStep>::empty()
    } else {
        seq![MountStep::NotMaterialized { repo_id: r.repo_id }]
    }) + r.mounts.map_values(
        |p: (MountSpecView, TargetFacts)| mount_step(root, r.repo_id, p.0, p.1, table, owned),
    )
}

/// The steps of the whole selection, in order.
pub open spec fn all_steps(
    root: Seq<char>,
    rs: Seq<RepoMountInputView>,
    table: Seq<MountEntryView>,
    owned: Seq<OwnedMountView>,
) -> Seq<MountStep>
    decreases rs.len(),
{
    if rs.len() == 0 {
        Seq::empty()
    } else {
        all_steps(root, rs.drop_last(), table, owned) + repo_steps(root, rs.last(), table, owned)
    }
}

/// The first failing step at or after `i`.
pub open spec fn first_failure_from(s: Seq<MountStep>, i: int) -> Option<int>
    decreases s.len() - i,
{
    if i < 0 || i >= s.len() {
        None
    } else if is_failure(s[i]) {
        Some(i)
    } else {
        first_failure_from(s, i + 1)
    }
}

/// The error a failing step stops with.
pub open spec fn step_error(s: MountStep, e: Error) -> bool {
    match s {
        MountStep::NotMaterialized { repo_id } => e matches Error::Workspace(
            WorkspaceError::RepoNotMaterialized { repo_id: id },
        ) && id@ == repo_id,
        MountStep::TargetBusy { source, target, existing_source } => e matches Error::Mount(
            MountWorkflowError::MountTargetAlreadyMounted { mount_source, target: t, existing_source: x },
        ) && mount_source@ == source && t@ == target && x@ == existing_source,
        MountStep::WouldHide { repo_id, repo_path, source, target } => e matches Error::Mount(
            MountWorkflowError::MountTargetWouldHideDifferentFiles {
                repo_id: id,
                repo_path: p,
                mount_source,
                target: t,
            },
        ) && id@ == repo_id && p@ == repo_path && mount_source@ == source && t@ == target,
        _ => false,
    }
}

/// A checked mount, ready to bind or already in place.
#[derive(Debug)]
pub enum PreparedMount {
    Bind { repo_id: RepoId, mount: MountSpec, source: String, target: String },
    AlreadyMounted { source: String, target: String },
}

/// The prepared mount carries out the step.
pub open spec fn prepared_for(p: PreparedMount, s: MountStep) -> bool {
    match s {
        MountStep::Already { source, target } => p matches PreparedMount::AlreadyMounted { source: a, target: b }
            && a@ == source && b@ == target,
        MountStep::Bind { repo_id, spec, source, target } => p matches PreparedMount::Bind {
            repo_id: id,
            mount,
            source: a,
            target: b,
        } && id@ == repo_id && mount@ == spec && a@ == source && b@ == target,
        _ => false,
    }
}

fn check_mount(
    workspace: &Workspace,
    repo_id: &RepoId,
    mount_spec: &MountSpec,
    facts: &TargetFacts,
    mount_table: &[MountEntry],
    owned_mounts: &MountOwnershipState,
) -> (r: Result<PreparedMount, Error>)
    ensures
        match r {
            Ok(p) => !is_failure(
                mount_step(
                    workspace@,
                    repo_id@,
                    mount_spec@,
                    *facts,
                    entry_views(mount_table@),
                    owned_mounts@,
                ),
            ) && prepared_for(
                p,
                mount_step(
                    workspace@,
                    repo_id@,
                    mount_spec@,
                    *facts,
                    entry_views(mount_table@),
                    owned_mounts@,
                ),
            ),
            Err(e) => is_failure(
                mount_step(
                    workspace@,
                    repo_id@,
                    mount_spec@,
                    *facts,
                    entry_views(mount_table@),
                    owned_mounts@,
                ),
            ) && step_error(
                mount_step(
                    workspace@,
                    repo_id@,
                    mount_spec@,
                    *facts,
                    entry_views(mount_table@),
                    owned_mounts@,
                ),
                e,
            ),
        },
{
    let source = workspace.context_path(repo_id, &mount_spec.context);
    let target = workspace.repo_path(repo_id, &mount_spec.repo);
    match find_target_mount(mount_table, target.as_str()) {
        Some(existing) => {
            let verified = owned_mounts.verifies_live_mount(
                repo_id,
                mount_spec,
                existing.mount_id,
                existing.preferred_source.as_str(),
                existing.filesystem_type.as_str(),
            );
            if existing.matches_source(source.as_str()) || verified {
                return Ok(PreparedMount::AlreadyMounted { source, target });
            }
            Err(Error::Mount(MountWorkflowError::MountTargetAlreadyMounted {
                mount_source: source,
                target,
                existing_source: existing.preferred_source.clone(),
            }))
        },
        None => {
            ensure_mount_target_matches_source_or_is_empty(
                repo_id,
                mount_spec,
                source.as_str(),
                target.as_str(),
                facts,
            )?;
            Ok(PreparedMount::Bind { repo_id: repo_id.clone(), mount: mount_spec.clone(), source, target })
        },
    }
}

/// Checks every selected mount, in order, and prepares them all; the first
/// failing check stops it with its error.
pub fn plan_mounts(
    workspace: &Workspace,
    selected: &Vec<RepoMountInput>,
    mount_table: &Vec<MountEntry>,
    owned_mounts: &MountOwnershipState,
) -> (r: Result<Vec<PreparedMount>, Error>)
    ensures
        ({
            let steps = all_steps(workspace@, input_views(selected@), entry_views(mount_table@), owned_mounts@);
            match first_failure_from(steps, 0) {
                None => r matches Ok(ps) && ps@.len() == steps.len() && forall|i: int|
                    0 <= i < ps@.len() ==> prepared_for(#[trigger] ps@[i], steps[i]),
                Some(i) => r matches Err(e) && step_error(steps[i], e),
            }
        }),
{
    let ghost rs = input_views(selected@);
    let ghost table = entry_views(mount_table@);
    let ghost owned = owned_mounts@;
    let ghost root = workspace@;
    let mut out: Vec<PreparedMount> = Vec::new();
    let mut k: usize = 0;
    proof {
        assert(rs.take(0) =~= Seq::<RepoMountInputView>::empty());
    }
    while k < selected.len()
        invariant
            rs == input_views(selected@),
            table == entry_views(mount_table@),
            owned == owned_mounts@,
            root == workspace@,
            k <= selected.len(),
            out@.len() == all_steps(root, rs.take(k as int), table, owned).len(),
            forall|i: int|
                0 <= i < out@.len() ==> prepared_for(
                    #[trigger] out@[i],
                    all_steps(root, rs.take(k as int), table, owned)[i],
                ),
            forall|i: int|
                0 <= i < out@.len() ==> !is_failure(
                    #[trigger] all_steps(root, rs.take(k as int), table, owned)[i],
                ),
        decreases selected.len() - k,
    {
        let repo = &selected[k];
        let ghost rv = rs[k as int];
        let ghost prefix = all_steps(root, rs.take(k as int), table, owned);
        let ghost steps_k = repo_steps(root, rv, table, owned);
        proof {
            assert(rs.take(k + 1).drop_last() =~= rs.take(k as int));
            assert(rs.take(k + 1).last() == rv);
            assert(all_steps(root, rs.take(k + 1), table, owned) == prefix + steps_k);
            assert(rv == repo@);
        }
        if !repo.materialized {
            proof {
                lemma_first_failure_at(prefix + steps_k, prefix.len() as int);
                lemma_first_failure_prefix(
                    all_steps(root, rs.take(k + 1), table, owned),
                    all_steps(root, rs, table, owned),
                    rs,
                    k + 1,
                    root,
                    table,
                    owned,
                    prefix.len() as int,
                );
            }
            return Err(Error::Workspace(WorkspaceError::RepoNotMaterialized {
                repo_id: repo.repo_id.clone(),
            }));
        }
        let ghost mounts_k = rv.mounts;
        let mut j: usize = 0;
        proof {
            assert(steps_k =~= mounts_k.map_values(
                |p: (MountSpecView, TargetFacts)| mount_step(root, rv.repo_id, p.0, p.1, table, owned),
            ));
        }
        while j < repo.mounts.len()
            invariant
                rs == input_views(selected@),
                table == entry_views(mount_table@),
                owned == owned_mounts@,
                root == workspace@,
                k < selected.len(),
                rv == rs[k as int],
                rv == repo@,
                repo.materialized,
                prefix == all_steps(root, rs.take(k as int), table, owned),
                steps_k == repo_steps(root, rv, table, owned),
                prefix + steps_k == all_steps(root, rs.take(k + 1), table, owned),
                j <= repo.mounts.len(),
                out@.len() == prefix.len() + j,
                forall|i: int| 0 <= i < out@.len() ==> prepared_for(#[trigger] out@[i], (prefix + steps_k)[i]),
                forall|i: int| 0 <= i < out@.len() ==> !is_failure(#[trigger] (prefix + steps_k)[i]),
            decreases repo.mounts.len() - j,
        {
            let (mount_spec, facts) = &repo.mounts[j];
            proof {
                assert(rv.mounts[j as int] == (mount_spec@, *facts));
                assert(steps_k[j as int] == mount_step(root, rv.repo_id, mount_spec@, *facts, table, owned));
                assert((prefix + steps_k)[out@.len() as int] == steps_k[j as int]);
            }
            match check_mount(
                workspace,
                &repo.repo_id,
                mount_spec,
                facts,
                mount_table.as_slice(),
                owned_mounts,
            ) {
                Ok(p) => {
                    out.push(p);
                },
                Err(e) => {
                    proof {
                        lemma_first_failure_at(prefix + steps_k, out@.len() as int);
                        lemma_first_failure_prefix(
                            prefix + steps_k,
                            all_steps(root, rs, table, owned),
                            rs,
                            k + 1,
                            root,
                            table,
                            owned,
                            out@.len() as int,
                        );
                    }
                    return Err(e);
                },
            }
            j = j + 1;
        }
        proof {
            assert(out@.len() == (prefix + steps_k).len());
        }
        k = k + 1;
    }
    proof {
        assert(rs.take(selected.len() as int) =~= rs);
        lemma_no_failure(all_steps(root, rs, table, owned), 0);
    }
    Ok(out)
}

proof fn lemma_first_failure_at(s: Seq<MountStep>, k: int)
    requires
        0 <= k < s.len(),
        is_failure(s[k]),
        forall|i: int| 0 <= i < k ==> !is_failure(#[trigger] s[i]),
    ensures
        first_failure_from(s, 0) == Some(k),
{
    lemma_first_failure_walk(s, 0, k);
}

proof fn lemma_first_failure_walk(s: Seq<MountStep>, i: int, k: int)
    requires
        0 <= i <= k < s.len(),
        is_failure(s[k]),
        forall|j: int| 0 <= j < k ==> !is_failure(#[trigger] s[j]),
    ensures
        first_failure_from(s, i) == Some(k),
    decreases k - i,
{
    if i < k {
        lemma_first_failure_walk(s, i + 1, k);
    }
}

proof fn lemma_no_failure(s: Seq<MountStep>, i: int)
    requires
        0 <= i,
        forall|j: int| i <= j < s.len() ==> !is_failure(#[trigger] s[j]),
    ensures
        first_failure_from(s, i) is None,
    decreases s.len() - i,
{
    if i < s.len() {
        lemma_no_failure(s, i + 1);
    }
}

/// The steps of a prefix of the selection begin the steps of the whole.
proof fn lemma_all_steps_prefix(
    rs: Seq<RepoMountInputView>,
    n: int,
    root: Seq<char>,
    table: Seq<MountEntryView>,
    owned: Seq<OwnedMountView>,
)
    requires
        0 <= n <= rs.len(),
    ensures
        all_steps(root, rs.take(n), table, owned).len() <= all_steps(root, rs, table, owned).len(),
        forall|i: int|
            0 <= i < all_steps(root, rs.take(n), table, owned).len() ==> #[trigger] all_steps(
                root,
                rs.take(n),
                table,
                owned,
            )[i] == all_steps(root, rs, table, owned)[i],
    decreases rs.len() - n,
{
    if n < rs.len() {
        lemma_all_steps_prefix(rs, n + 1, root, table, owned);
        assert(rs.take(n + 1).drop_last() =~= rs.take(n));
        let a = all_steps(root, rs.take(n), table, owned);
        let b = all_steps(root, rs.take(n + 1), table, owned);
        assert(b == a + repo_steps(root, rs.take(n + 1).last(), table, owned));
        assert forall|i: int| 0 <= i < a.len() implies #[trigger] a[i] == all_steps(root, rs, table, owned)[i] by {
            assert(b[i] == a[i]);
        }
    } else {
        assert(rs.take(n) =~= rs);
    }
}

/// A failure found in the steps of a prefix is the first failure of all.
proof fn lemma_first_failure_prefix(
    pre: Seq<MountStep>,
    all: Seq<MountStep>,
    rs: Seq<RepoMountInputView>,
    n: int,
    root: Seq<char>,
    table: Seq<MountEntryView>,
    owned: Seq<OwnedMountView>,
    k: int,
)
    requires
        0 <= n <= rs.len(),
        pre == all_steps(root, rs.take(n), table, owned),
        all == all_steps(root, rs, table, owned),
        first_failure_from(pre, 0) == Some(k),
        0 <= k < pre.len(),
        is_failure(pre[k]),
        forall|i: int| 0 <= i < k ==> !is_failure(#[trigger] pre[i]),
    ensures
        first_failure_from(all, 0) == Some(k),
        all[k] == pre[k],
{
    lemma_all_steps_prefix(rs, n, root, table, owned);
    assert(pre[k] == all[k]);
    assert forall|i: int| 0 <= i < k implies !is_failure(#[trigger] all[i]) by {
        assert(pre[i] == all[i]);
    }
    lemma_first_failure_at(all, k);
}

/// What the caller reports for a bound or already-present mount.
pub fn outcome_of(prepared: PreparedMount) -> (r: MountOutcome)
    ensures
        match prepared {
            PreparedMount::Bind { source, target, .. } => r matches MountOutcome::Mounted { source: s, target: t }
                && s@ == source@ && t@ == target@,
            PreparedMount::AlreadyMounted { source, target } => r matches MountOutcome::AlreadyMounted {
                source: s,
                target: t,
            } && s@ == source@ && t@ == target@,
        },
{
    match prepared {
        PreparedMount::Bind { source, target, .. } => MountOutcome::Mounted { source, target },
        PreparedMount::AlreadyMounted { source, target } => MountOutcome::AlreadyMounted { source, target },
    }
}

/// The receipt to record after binding mount `spec` of `repo_id` onto
/// `target`: the live mount found at the target in the table read after
/// the bind; none if the table could not be read or shows nothing there.
pub fn receipt_for_bound_mount(
    repo_id: &RepoId,
    mount_spec: &MountSpec,
    target: &str,
    mount_table: Result<Vec<MountEntry>, Error>,
) -> (r: Option<OwnedMountRecord>)
    ensures
        match mount_table {
            Err(_) => r is None,
            Ok(table) => match first_mount_at(entry_views(table@), target@) {
                None => r is None,
                Some(i) => r matches Some(rec) && rec@.repo_id == repo_id@ && rec@.context
                    == mount_spec@.context && rec@.repo == mount_spec@.repo && rec@.mount_id
                    == table@[i]@.mount_id && rec@.source_root == table@[i]@.preferred_source
                    && rec@.filesystem_type == table@[i]@.filesystem_type,
            },
        },
{
    let table = match mount_table {
        Ok(table) => table,
        Err(_) => return None,
    };
    match find_target_mount(table.as_slice(), target) {
        Some(live) => Some(OwnedMountRecord {
            repo_id: repo_id.clone(),
            context: mount_spec.context.clone(),
            repo: mount_spec.repo.clone(),
            mount_id: live.mount_id,
            source_root: live.preferred_source.clone(),
            filesystem_type: live.filesystem_type.clone(),
        }),
        None => None,
    }
}

/// A mount is only bound onto a target that nothing is mounted on.
pub proof fn law_bind_only_free_targets(
    root: Seq<char>,
    id: Seq<char>,
    spec: MountSpecView,
    facts: TargetFacts,
    table: Seq<MountEntryView>,
    owned: Seq<OwnedMountView>,
)
    ensures
        mount_step(root, id, spec, facts, table, owned) is Bind ==> first_mount_at(
            table,
            repo_path_spec(root, id, spec.repo),
        ) is None && target_may_be_covered(facts),
{
}

} // verus!
