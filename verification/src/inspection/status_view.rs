//! Read models of repo and mount status.
use vstd::prelude::*;

use crate::mounts::infra::{clone_strings, string_views, MountEntry};
use crate::shared::paths::{paths_equal, same_path};
use crate::shared::types::{CloneSource, RelativePath, RepoId};

verus! {

/// Summary of a repo's mount activity across all its mount specs.
#[derive(Debug, Clone, Copy, PartialEq, Eq, Structural)]
pub enum AggregateMountState {
    NoMounts,
    Unmounted,
    Mounted,
    Partial,
    Conflicted,
    /// Mount inspection was needed but the mount table could not be read.
    Unknown,
}

/// The label shown for a mount state.
pub open spec fn mount_state_label(s: AggregateMountState) -> Seq<char> {
    match s {
        AggregateMountState::NoMounts => "no-mounts"@,
        AggregateMountState::Unmounted => "unmounted"@,
        AggregateMountState::Mounted => "mounted"@,
        AggregateMountState::Partial => "partial"@,
        AggregateMountState::Conflicted => "conflicted"@,
        AggregateMountState::Unknown => "unknown"@,
    }
}

impl AggregateMountState {
    /// The label shown for this state (its display form).
    pub fn label(&self) -> (r: &'static str)
        ensures
            r@ == mount_state_label(*self),
    {
        match self {
            AggregateMountState::NoMounts => "no-mounts",
            AggregateMountState::Unmounted => "unmounted",
            AggregateMountState::Mounted => "mounted",
            AggregateMountState::Partial => "partial",
            AggregateMountState::Conflicted => "conflicted",
            AggregateMountState::Unknown => "unknown",
        }
    }
}

/// The state of a repo's mounts from their counts: unknown when the mount
/// table was needed and unreadable, else no mounts, conflicted if any mount
/// conflicts, unmounted if none is active, mounted if all are, or partial.
pub open spec fn aggregate_spec(mount_count: nat, active_count: nat, conflicting_count: nat, inspection_unavailable: bool) -> AggregateMountState {
    if inspection_unavailable {
        AggregateMountState::Unknown
    } else if mount_count == 0 {
        AggregateMountState::NoMounts
    } else if conflicting_count > 0 {
        AggregateMountState::Conflicted
    } else if active_count == 0 {
        AggregateMountState::Unmounted
    } else if active_count == mount_count {
        AggregateMountState::Mounted
    } else {
        AggregateMountState::Partial
    }
}

/// The overall state from the counts: unknown when the table could not be
/// read; otherwise no mounts when there are none; otherwise conflicted as
/// soon as one mount is conflicting, whatever the number active; and with no
/// conflict, mounted when all are active, unmounted when none is, partial
/// in between.
pub proof fn law_aggregate_state(m: nat, active: nat, conflicting: nat, unavailable: bool)
    requires
        active <= m,
    ensures
        unavailable ==> aggregate_spec(m, active, conflicting, unavailable) == AggregateMountState::Unknown,
        !unavailable && m == 0 ==> aggregate_spec(m, active, conflicting, unavailable)
            == AggregateMountState::NoMounts,
        !unavailable && m > 0 && conflicting > 0 ==> aggregate_spec(m, active, conflicting, unavailable)
            == AggregateMountState::Conflicted,
        !unavailable && m > 0 && conflicting == 0 ==> (aggregate_spec(m, active, conflicting, unavailable)
            == AggregateMountState::Mounted <==> active == m),
        !unavailable && m > 0 && conflicting == 0 ==> (aggregate_spec(m, active, conflicting, unavailable)
            == AggregateMountState::Unmounted <==> active == 0),
        !unavailable && m > 0 && conflicting == 0 ==> (aggregate_spec(m, active, conflicting, unavailable)
            == AggregateMountState::Partial <==> 0 < active < m),
{
}

/// The overall mount state of a repo from the counts of its mounts.
pub fn aggregate_mount_state(
    mount_count: usize,
    active_count: usize,
    conflicting_count: usize,
    inspection_unavailable: bool,
) -> (r: AggregateMountState)
    ensures
        r == aggregate_spec(
            mount_count as nat,
            active_count as nat,
            conflicting_count as nat,
            inspection_unavailable,
        ),
{
    if inspection_unavailable {
        AggregateMountState::Unknown
    } else if mount_count == 0 {
        AggregateMountState::NoMounts
    } else if conflicting_count > 0 {
        AggregateMountState::Conflicted
    } else if active_count == 0 {
        AggregateMountState::Unmounted
    } else if active_count == mount_count {
        AggregateMountState::Mounted
    } else {
        AggregateMountState::Partial
    }
}

/// Runtime status of a single mount spec (active, conflicting, etc.).
#[derive(Debug)]
pub struct MountStatus {
    pub source: String,
    pub target: String,
    pub active: bool,
    pub conflicting_mount: bool,
    /// `true` when the mount table could not be read and mount state is unknown.
    pub inspection_unavailable: bool,
}

pub struct MountStatusView {
    pub source: Seq<char>,
    pub target: Seq<char>,
    pub active: bool,
    pub conflicting_mount: bool,
    pub inspection_unavailable: bool,
}

impl View for MountStatus {
    type V = MountStatusView;

    open spec fn view(&self) -> MountStatusView {
        MountStatusView {
            source: self.source@,
            target: self.target@,
            active: self.active,
            conflicting_mount: self.conflicting_mount,
            inspection_unavailable: self.inspection_unavailable,
        }
    }
}

pub open spec fn status_views(v: Seq<MountStatus>) -> Seq<MountStatusView> {
    v.map_values(|m: MountStatus| m@)
}

/// Complete runtime status snapshot for a registered repository.
#[derive(Debug)]
pub struct RepoStatus {
    pub repo_id: RepoId,
    pub source: CloneSource,
    pub context_root: String,
    pub repo_root: String,
    pub materialized: bool,
    pub mount_state: AggregateMountState,
    pub mounts: Vec<MountStatus>,
}

/// Flattened runtime status for a single registered mount rule.
#[derive(Debug)]
pub struct RegisteredMountStatus {
    pub repo_id: RepoId,
    pub repo_path: RelativePath,
    pub context_path: RelativePath,
    pub source: String,
    pub target: String,
    pub materialized: bool,
    pub active: bool,
    pub conflicting_mount: bool,
    pub inspection_unavailable: bool,
}

/// Observed mount-table row normalized for inspection workflows.
#[derive(Debug)]
pub struct ObservedMount {
    pub mount_id: u64,
    /// The source path we prefer to show for this observed mount.
    pub preferred_source: String,
    /// Every source path that should be treated as equivalent for matching.
    pub source_aliases: Vec<String>,
    pub target: String,
    pub filesystem_type: String,
}

pub struct ObservedMountView {
    pub mount_id: u64,
    pub preferred_source: Seq<char>,
    pub source_aliases: Seq<Seq<char>>,
    pub target: Seq<char>,
    pub filesystem_type: Seq<char>,
}

impl View for ObservedMount {
    type V = ObservedMountView;

    open spec fn view(&self) -> ObservedMountView {
        ObservedMountView {
            mount_id: self.mount_id,
            preferred_source: self.preferred_source@,
            source_aliases: string_views(self.source_aliases@),
            target: self.target@,
            filesystem_type: self.filesystem_type@,
        }
    }
}

pub open spec fn observed_views(v: Seq<ObservedMount>) -> Seq<ObservedMountView> {
    v.map_values(|m: ObservedMount| m@)
}

/// `source` is, as a path, the observed mount's preferred source or one of
/// its aliases.
pub open spec fn observed_matches_source(m: ObservedMountView, source: Seq<char>) -> bool {
    same_path(m.preferred_source, source) || exists|j: int|
        0 <= j < m.source_aliases.len() && same_path(#[trigger] m.source_aliases[j], source)
}

impl ObservedMount {
    /// Whether `source` names this mount's source.
    pub fn matches_source(&self, source: &str) -> (r: bool)
        ensures
            r == observed_matches_source(self@, source@),
    {
        if paths_equal(self.preferred_source.as_str(), source) {
            return true;
        }
        let mut i: usize = 0;
        while i < self.source_aliases.len()
            invariant
                i <= self.source_aliases.len(),
                forall|j: int| 0 <= j < i ==> !same_path(#[trigger] self.source_aliases@[j]@, source@),
            decreases self.source_aliases.len() - i,
        {
            if paths_equal(self.source_aliases[i].as_str(), source) {
                proof {
                    assert(string_views(self.source_aliases@)[i as int] == self.source_aliases@[i as int]@);
                    assert(same_path(self@.source_aliases[i as int], source@));
                }
                return true;
            }
            i = i + 1;
        }
        proof {
            assert forall|j: int| 0 <= j < string_views(self.source_aliases@).len() implies !same_path(
                #[trigger] string_views(self.source_aliases@)[j],
                source@,
            ) by {
                assert(string_views(self.source_aliases@)[j] == self.source_aliases@[j]@);
            }
        }
        false
    }
}

/// The mount table to use for inspection, or why it could not be loaded.
#[derive(Debug)]
pub enum MountTableState {
    Available(Vec<ObservedMount>),
    Unavailable(String),
}

pub enum MountTableView {
    Available(Seq<ObservedMountView>),
    Unavailable(Seq<char>),
}

impl View for MountTableState {
    type V = MountTableView;

    open spec fn view(&self) -> MountTableView {
        match self {
            MountTableState::Available(es) => MountTableView::Available(observed_views(es@)),
            MountTableState::Unavailable(m) => MountTableView::Unavailable(m@),
        }
    }
}

/// A mount-table entry as an observed mount: its mount point is the target.
pub open spec fn observed_from_entry(e: crate::mounts::infra::MountEntryView) -> ObservedMountView {
    ObservedMountView {
        mount_id: e.mount_id,
        preferred_source: e.preferred_source,
        source_aliases: e.source_aliases,
        target: e.mount_point,
        filesystem_type: e.filesystem_type,
    }
}

/// The mount-table entries as observed mounts, in order.
pub fn observed_mounts(entries: Vec<MountEntry>) -> (r: Vec<ObservedMount>)
    ensures
        observed_views(r@) == crate::mounts::infra::entry_views(entries@).map_values(
            |e: crate::mounts::infra::MountEntryView| observed_from_entry(e),
        ),
{
    let mut out: Vec<ObservedMount> = Vec::new();
    let mut i: usize = 0;
    while i < entries.len()
        invariant
            i <= entries.len(),
            out@.len() == i,
            forall|j: int| 0 <= j < i ==> (#[trigger] out@[j])@ == observed_from_entry(entries@[j]@),
        decreases entries.len() - i,
    {
        let e = &entries[i];
        out.push(ObservedMount {
            mount_id: e.mount_id,
            preferred_source: e.preferred_source.clone(),
            source_aliases: clone_strings(&e.source_aliases),
            target: e.mount_point.clone(),
            filesystem_type: e.filesystem_type.clone(),
        });
        i = i + 1;
    }
    proof {
        assert(observed_views(out@) =~= crate::mounts::infra::entry_views(entries@).map_values(
            |e: crate::mounts::infra::MountEntryView| observed_from_entry(e),
        ));
    }
    out
}

/// An active mount whose receipt does not vouch for it.
#[derive(Debug)]
pub struct UnverifiedActiveMount {
    pub existing_source: String,
    pub target: String,
}

/// What repo workflows need to know before detaching or dematerializing.
#[derive(Debug)]
pub struct RepoLifecyclePreflight {
    pub repo_id: RepoId,
    pub materialized: bool,
    pub has_active_mounts: bool,
    pub has_conflicting_mounts: bool,
    pub active_mount_targets: Vec<String>,
    pub unverified_active_mounts: Vec<UnverifiedActiveMount>,
}

} // verus!
