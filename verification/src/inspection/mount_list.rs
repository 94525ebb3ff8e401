//! The flat list of registered mounts with their runtime status.
use vstd::prelude::*;

use crate::inspection::status_view::{RegisteredMountStatus, RepoStatus};
use crate::shared::mount_spec::{spec_views, MountSpec};
use crate::shared::types::RepoId;

verus! {

/// One row per mount of a repo, pairing each mount with its status (as
/// many rows as there are both).
pub fn registered_mount_rows(repo_id: &RepoId, repo_mounts: &Vec<MountSpec>, status: &RepoStatus) -> (r: Vec<RegisteredMountStatus>)
    ensures
        r@.len() == if repo_mounts@.len() <= status.mounts@.len() {
            repo_mounts@.len()
        } else {
            status.mounts@.len()
        },
        forall|i: int|
            0 <= i < r@.len() ==> {
                &&& (#[trigger] r@[i]).repo_id@ == repo_id@
                &&& r@[i].repo_path@ == repo_mounts@[i].repo@
                &&& r@[i].context_path@ == repo_mounts@[i].context@
                &&& r@[i].source@ == status.mounts@[i].source@
                &&& r@[i].target@ == status.mounts@[i].target@
                &&& r@[i].materialized == status.materialized
                &&& r@[i].active == status.mounts@[i].active
                &&& r@[i].conflicting_mount == status.mounts@[i].conflicting_mount
                &&& r@[i].inspection_unavailable == status.mounts@[i].inspection_unavailable
            },
{
    let mut rows: Vec<RegisteredMountStatus> = Vec::new();
    let mut i: usize = 0;
    while i < repo_mounts.len() && i < status.mounts.len()
        invariant
            i <= repo_mounts.len(),
            i <= status.mounts.len(),
            rows@.len() == i,
            forall|j: int|
                0 <= j < i ==> {
                    &&& (#[trigger] rows@[j]).repo_id@ == repo_id@
                    &&& rows@[j].repo_path@ == repo_mounts@[j].repo@
                    &&& rows@[j].context_path@ == repo_mounts@[j].context@
                    &&& rows@[j].source@ == status.mounts@[j].source@
                    &&& rows@[j].target@ == status.mounts@[j].target@
                    &&& rows@[j].materialized == status.materialized
                    &&& rows@[j].active == status.mounts@[j].active
                    &&& rows@[j].conflicting_mount == status.mounts@[j].conflicting_mount
                    &&& rows@[j].inspection_unavailable == status.mounts@[j].inspection_unavailable
                },
        decreases repo_mounts.len() - i,
    {
        let m = &repo_mounts[i];
        let st = &status.mounts[i];
        rows.push(RegisteredMountStatus {
            repo_id: repo_id.clone(),
            repo_path: m.repo.clone(),
            context_path: m.context.clone(),
            source: st.source.clone(),
            target: st.target.clone(),
            materialized: status.materialized,
            active: st.active,
            conflicting_mount: st.conflicting_mount,
            inspection_unavailable: st.inspection_unavailable,
        });
        i = i + 1;
    }
    rows
}

} // verus!
