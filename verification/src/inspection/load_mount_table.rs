//! When the mount table has to be read for an inspection, and what an
//! inspection makes of reading it.
use vstd::prelude::*;

use crate::inspection::status_view::{observed_mounts, observed_views, observed_from_entry, MountTableState, MountTableView};
use crate::mounts::infra::{entry_views, MountEntry, MountEntryView};
use crate::shared::error::Error;
use crate::shared::messages::error_text;

verus! {

/// A repo needs its live mounts looked at when it has mounts and its root
/// exists (`root_exists`), or when whether it exists is unknown (`None`).
pub fn read_only_repo_needs_mount_inspection(mount_count: usize, root_exists: Option<bool>) -> (r: bool)
    ensures
        r == (mount_count > 0 && match root_exists {
            Some(b) => b,
            None => true,
        }),
{
    mount_count > 0 && match root_exists {
        Some(b) => b,
        None => true,
    }
}

pub open spec fn repo_needs_inspection(p: (usize, Option<bool>)) -> bool {
    p.0 > 0 && match p.1 {
        Some(b) => b,
        None => true,
    }
}

/// Read-only inspection reads the table when some repo needs it.
pub fn needs_read_only_mount_inspection(repos: &Vec<(usize, Option<bool>)>) -> (r: bool)
    ensures
        r == exists|i: int| 0 <= i < repos@.len() && repo_needs_inspection(#[trigger] repos@[i]),
{
    let mut i: usize = 0;
    while i < repos.len()
        invariant
            i <= repos.len(),
            forall|j: int| 0 <= j < i ==> !repo_needs_inspection(#[trigger] repos@[j]),
        decreases repos.len() - i,
    {
        let (count, exists) = repos[i];
        if read_only_repo_needs_mount_inspection(count, exists) {
            proof {
                assert(repo_needs_inspection(repos@[i as int]));
            }
            return true;
        }
        i = i + 1;
    }
    false
}

/// The first repo at or after `i` with mounts whose root check failed or
/// found the root.
pub open spec fn first_mutating_need_from(repos: Seq<(usize, Result<bool, Error>)>, i: int) -> Option<int>
    decreases repos.len() - i,
{
    if i < 0 || i >= repos.len() {
        None
    } else if repos[i].0 > 0 && !(repos[i].1 == Ok::<bool, Error>(false)) {
        Some(i)
    } else {
        first_mutating_need_from(repos, i + 1)
    }
}

/// Mutating workflows read the table when some repo with mounts has a root;
/// a failed check of a root (for a repo with mounts) is an error.
pub fn needs_mutating_mount_inspection(repos: Vec<(usize, Result<bool, Error>)>) -> (r: Result<bool, Error>)
    ensures
        match first_mutating_need_from(repos@, 0) {
            None => r == Ok::<bool, Error>(false),
            Some(i) => match repos@[i].1 {
                Ok(_) => r == Ok::<bool, Error>(true),
                Err(e) => r == Err::<bool, Error>(e),
            },
        },
{
    let ghost input = repos@;
    let mut rest = repos;
    let mut i: usize = 0;
    let n = rest.len();
    proof {
        assert(input.skip(0) =~= input);
    }
    while rest.len() > 0
        invariant
            n == input.len(),
            input == repos@,
            i + rest@.len() == n,
            rest@ == input.skip(i as int),
            first_mutating_need_from(input, 0) == first_mutating_need_from(input, i as int),
        decreases rest@.len(),
    {
        let ghost before = rest@;
        let item = rest.remove(0);
        proof {
            assert(before[0] == input[i as int]);
            assert(item == input[i as int]);
            assert(rest@ =~= input.skip(i + 1));
        }
        let (count, check) = item;
        proof {
            if count > 0 && !(check == Ok::<bool, Error>(false)) {
                assert(first_mutating_need_from(input, i as int) == Some(i as int));
            } else {
                assert(first_mutating_need_from(input, i as int) == first_mutating_need_from(input, i + 1));
            }
        }
        if count > 0 {
            match check {
                Ok(false) => {},
                Ok(true) => return Ok(true),
                Err(e) => return Err(e),
            }
        }
        i = i + 1;
    }
    proof {
        assert(first_mutating_need_from(input, i as int) is None);
    }
    Ok(false)
}

/// The table for a read-only inspection: empty when no repo needs it,
/// otherwise what reading it gave, or why it could not be read.
pub fn load_mount_table_for_read_only_inspection(needed: bool, listed: Result<Vec<MountEntry>, Error>) -> (r: MountTableState)
    ensures
        !needed ==> r@ == MountTableView::Available(Seq::empty()),
        needed ==> match listed {
            Ok(es) => r@ == MountTableView::Available(
                entry_views(es@).map_values(|e: MountEntryView| observed_from_entry(e)),
            ),
            Err(e) => r@ == MountTableView::Unavailable(error_text(e)),
        },
{
    if !needed {
        let r = MountTableState::Available(Vec::new());
        proof {
            assert(observed_views(Seq::empty()) =~= Seq::empty());
        }
        return r;
    }
    match listed {
        Ok(entries) => MountTableState::Available(observed_mounts(entries)),
        Err(error) => MountTableState::Unavailable(error.message()),
    }
}

/// The table for a mutating workflow: empty when no repo needs it,
/// otherwise what reading it gave; a failed read is an error.
pub fn load_mount_table_for_mutating_workflow(needed: bool, listed: Result<Vec<MountEntry>, Error>) -> (r: Result<MountTableState, Error>)
    ensures
        !needed ==> (r matches Ok(t) && t@ == MountTableView::Available(Seq::empty())),
        needed ==> match listed {
            Ok(es) => r matches Ok(t) && t@ == MountTableView::Available(
                entry_views(es@).map_values(|e: MountEntryView| observed_from_entry(e)),
            ),
            Err(e0) => r matches Err(e) && e == e0,
        },
{
    if !needed {
        let r = MountTableState::Available(Vec::new());
        proof {
            assert(observed_views(Seq::empty()) =~= Seq::empty());
        }
        return Ok(r);
    }
    match listed {
        Ok(entries) => Ok(MountTableState::Available(observed_mounts(entries))),
        Err(error) => Err(error),
    }
}

} // verus!
