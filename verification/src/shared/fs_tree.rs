//! Comparing directory trees.
//!
//! A tree is read once into a `TreeNode` snapshot: directories with their
//! entries, regular files with their executable bit, length and an id by
//! which the reader finds the file again, symlinks with their target, and
//! other entries by kind. The comparison decides everything but the file
//! contents; it returns the pairs of files whose contents must be equal,
//! which the reader then compares.
use vstd::prelude::*;

use crate::shared::error::{Error, InfraFsError};

verus! {

/// How two trees are compared: `Exact` wants the same entries on both
/// sides; `Subset` allows the right side extra entries and lets the left
/// side have directories missing on the right as long as they hold only
/// directories.
#[derive(Debug, Clone, Copy, PartialEq, Eq, Structural)]
pub enum TreeComparison {
    Exact,
    Subset,
}

/// The kind of an entry that is neither a directory, a file nor a symlink.
#[derive(Debug, Clone, Copy, PartialEq, Eq, Structural)]
pub enum SpecialKind {
    BlockDevice,
    CharDevice,
    Fifo,
    Socket,
    Other,
}

/// A snapshot of a file-system entry; symlinks are not followed.
#[derive(Debug)]
pub enum TreeNode {
    /// A directory with its entries, by name.
    Dir(Vec<(Vec<u8>, TreeNode)>),
    /// A regular file.
    File { executable: bool, len: u64, id: u64 },
    /// A symlink with its target.
    Symlink(Vec<u8>),
    Special(SpecialKind),
}

/// Whether a permission mode has any executable bit set.
pub open spec fn mode_executable(mode: u32) -> bool {
    mode & 0o111u32 != 0
}

/// Whether two files agree on being executable, by their modes.
pub fn executable_bits_match(left_mode: u32, right_mode: u32) -> (r: bool)
    ensures
        r == (mode_executable(left_mode) == mode_executable(right_mode)),
{
    (left_mode & 0o111u32 != 0) == (right_mode & 0o111u32 != 0)
}

/// The first entry at or after `j` named `name`.
pub open spec fn child_index_from(cs: Seq<(Vec<u8>, TreeNode)>, name: Seq<u8>, j: int) -> Option<int>
    decreases cs.len() - j,
{
    if j < 0 || j >= cs.len() {
        None
    } else if cs[j].0@ == name {
        Some(j)
    } else {
        child_index_from(cs, name, j + 1)
    }
}

/// The first entry named `name`.
pub open spec fn child_index(cs: Seq<(Vec<u8>, TreeNode)>, name: Seq<u8>) -> Option<int> {
    child_index_from(cs, name, 0)
}

/// The entry found by name is in range and has that name.
pub proof fn lemma_child_index_from(cs: Seq<(Vec<u8>, TreeNode)>, name: Seq<u8>, j: int)
    ensures
        child_index_from(cs, name, j) matches Some(k) ==> 0 <= j <= k < cs.len() && cs[k].0@ == name,
    decreases cs.len() - j,
{
    if j >= 0 && j < cs.len() && cs[j].0@ != name {
        lemma_child_index_from(cs, name, j + 1);
    }
}

/// Every name of `a` is also a name in `b`.
pub open spec fn names_covered(a: Seq<(Vec<u8>, TreeNode)>, b: Seq<(Vec<u8>, TreeNode)>) -> bool {
    forall|i: int| 0 <= i < a.len() ==> child_index(b, #[trigger] a[i].0@) is Some
}

/// A directory that holds, at any depth, only directories.
pub open spec fn is_scaffolding(n: TreeNode) -> bool
    decreases n, 0int,
{
    match n {
        TreeNode::Dir(cs) => all_scaffolding_from(cs@, 0),
        _ => false,
    }
}

pub open spec fn all_scaffolding_from(cs: Seq<(Vec<u8>, TreeNode)>, i: int) -> bool
    decreases cs, cs.len() - i,
{
    if i < 0 || i >= cs.len() {
        true
    } else {
        is_scaffolding(cs[i].1) && all_scaffolding_from(cs, i + 1)
    }
}


/// Whether the entry is a directory that holds, at any depth, only
/// directories.
pub fn tree_is_directory_only_scaffolding(node: &TreeNode) -> (r: bool)
    ensures
        r == is_scaffolding(*node),
    decreases node, 0int,
{
    match node {
        TreeNode::Dir(cs) => {
            let mut i: usize = 0;
            while i < cs.len()
                invariant
                    i <= cs.len(),
                    *node == TreeNode::Dir(*cs),
                    is_scaffolding(*node) == all_scaffolding_from(cs@, i as int),
                decreases cs.len() - i,
            {
                proof {
                    assert(decreases_to!(node, 0int => cs@[i as int].1, 0int));
                }
                if !tree_is_directory_only_scaffolding(&cs[i].1) {
                    return false;
                }
                i = i + 1;
            }
            true
        },
        _ => false,
    }
}

/// Whether `l` and `r` match under `mode` in everything but the contents
/// of files: the same kind, for files the same executable bit and length,
/// for symlinks the same target, for directories matching entries (see
/// `dir_match_from`) and, for an exact comparison, no entry of `r` that
/// `l` lacks.
pub open spec fn nodes_match(l: TreeNode, r: TreeNode, mode: TreeComparison) -> bool
    decreases l, 0int,
{
    match l {
        TreeNode::Dir(ls) => match r {
            TreeNode::Dir(rs) => (mode == TreeComparison::Exact ==> names_covered(rs@, ls@))
                && dir_match_from(ls@, rs@, mode, 0),
            _ => false,
        },
        TreeNode::File { executable: x1, len: n1, .. } => match r {
            TreeNode::File { executable: x2, len: n2, .. } => x1 == x2 && n1 == n2,
            _ => false,
        },
        TreeNode::Symlink(t1) => match r {
            TreeNode::Symlink(t2) => t1@ == t2@,
            _ => false,
        },
        TreeNode::Special(k1) => match r {
            TreeNode::Special(k2) => k1 == k2,
            _ => false,
        },
    }
}

/// Each entry of `ls` from `i` on matches the entry of `rs` with its name;
/// one that `rs` lacks is allowed only in a subset comparison, and only
/// when it holds nothing but directories.
pub open spec fn dir_match_from(
    ls: Seq<(Vec<u8>, TreeNode)>,
    rs: Seq<(Vec<u8>, TreeNode)>,
    mode: TreeComparison,
    i: int,
) -> bool
    decreases ls, ls.len() - i,
{
    if i < 0 || i >= ls.len() {
        true
    } else {
        (match child_index(rs, ls[i].0@) {
            None => mode == TreeComparison::Subset && is_scaffolding(ls[i].1),
            Some(j) => nodes_match(ls[i].1, rs[j].1, mode),
        }) && dir_match_from(ls, rs, mode, i + 1)
    }
}

/// The files of `l` paired with the files at the same place in `r`, in the
/// order of `l`'s entries.
pub open spec fn node_pairs(l: TreeNode, r: TreeNode) -> Seq<(u64, u64)>
    decreases l, 0int,
{
    match l {
        TreeNode::Dir(ls) => match r {
            TreeNode::Dir(rs) => dir_pairs_from(ls@, rs@, 0),
            _ => Seq::empty(),
        },
        TreeNode::File { id: a, .. } => match r {
            TreeNode::File { id: b, .. } => seq![(a, b)],
            _ => Seq::empty(),
        },
        _ => Seq::empty(),
    }
}

pub open spec fn dir_pairs_from(ls: Seq<(Vec<u8>, TreeNode)>, rs: Seq<(Vec<u8>, TreeNode)>, i: int) -> Seq<
    (u64, u64),
>
    decreases ls, ls.len() - i,
{
    if i < 0 || i >= ls.len() {
        Seq::empty()
    } else {
        (match child_index(rs, ls[i].0@) {
            Some(j) => node_pairs(ls[i].1, rs[j].1),
            None => Seq::empty(),
        }) + dir_pairs_from(ls, rs, i + 1)
    }
}

fn bytes_eq(a: &Vec<u8>, b: &Vec<u8>) -> (r: bool)
    ensures
        r == (a@ == b@),
{
    if a.len() != b.len() {
        return false;
    }
    let mut i: usize = 0;
    while i < a.len()
        invariant
            i <= a.len(),
            a.len() == b.len(),
            forall|k: int| 0 <= k < i ==> a@[k] == b@[k],
        decreases a.len() - i,
    {
        if a[i] != b[i] {
            return false;
        }
        i = i + 1;
    }
    proof {
        assert(a@ =~= b@);
    }
    true
}

fn find_child(cs: &Vec<(Vec<u8>, TreeNode)>, name: &Vec<u8>) -> (r: Option<usize>)
    ensures
        match r {
            Some(j) => child_index(cs@, name@) == Some(j as int),
            None => child_index(cs@, name@) is None,
        },
{
    let mut i: usize = 0;
    while i < cs.len()
        invariant
            i <= cs.len(),
            child_index(cs@, name@) == child_index_from(cs@, name@, i as int),
        decreases cs.len() - i,
    {
        if bytes_eq(&cs[i].0, name) {
            proof {
                lemma_child_index_from(cs@, name@, 0);
            }
            return Some(i);
        }
        i = i + 1;
    }
    proof {
        lemma_child_index_from(cs@, name@, 0);
    }
    None
}

fn names_covered_exec(a: &Vec<(Vec<u8>, TreeNode)>, b: &Vec<(Vec<u8>, TreeNode)>) -> (r: bool)
    ensures
        r == names_covered(a@, b@),
{
    let mut i: usize = 0;
    while i < a.len()
        invariant
            i <= a.len(),
            forall|k: int| 0 <= k < i ==> child_index(b@, #[trigger] a@[k].0@) is Some,
        decreases a.len() - i,
    {
        if find_child(b, &a[i].0).is_none() {
            return false;
        }
        i = i + 1;
    }
    true
}

fn match_nodes(l: &TreeNode, r: &TreeNode, mode: TreeComparison, pairs: &mut Vec<(u64, u64)>) -> (ok: bool)
    ensures
        ok == nodes_match(*l, *r, mode),
        ok ==> final(pairs)@ == old(pairs)@ + node_pairs(*l, *r),
    decreases l, 0int,
{
    match l {
        TreeNode::Dir(ls) => match r {
            TreeNode::Dir(rs) => {
                if mode == TreeComparison::Exact && !names_covered_exec(rs, ls) {
                    return false;
                }
                let ghost start = pairs@;
                let mut i: usize = 0;
                while i < ls.len()
                    invariant
                        i <= ls.len(),
                        *l == TreeNode::Dir(*ls),
                        *r == TreeNode::Dir(*rs),
                        mode == TreeComparison::Exact ==> names_covered(rs@, ls@),
                        nodes_match(*l, *r, mode) == dir_match_from(ls@, rs@, mode, i as int),
                        pairs@ + dir_pairs_from(ls@, rs@, i as int) == start + node_pairs(*l, *r),
                    decreases ls.len() - i,
                {
                    let ghost before = pairs@;
                    proof {
                        assert(decreases_to!(l, 0int => ls@[i as int].1, 0int));
                    }
                    match find_child(rs, &ls[i].0) {
                        Some(j) => {
                            proof {
                                lemma_child_index_from(rs@, ls@[i as int].0@, 0);
                            }
                            if !match_nodes(&ls[i].1, &rs[j].1, mode, pairs) {
                                return false;
                            }
                            proof {
                                assert(pairs@ == before + node_pairs(ls@[i as int].1, rs@[j as int].1));
                                assert(dir_pairs_from(ls@, rs@, i as int) == node_pairs(
                                    ls@[i as int].1,
                                    rs@[j as int].1,
                                ) + dir_pairs_from(ls@, rs@, i + 1));
                                assert(before + dir_pairs_from(ls@, rs@, i as int) =~= pairs@
                                    + dir_pairs_from(ls@, rs@, i + 1));
                            }
                        },
                        None => {
                            if mode == TreeComparison::Exact {
                                return false;
                            }
                            if !tree_is_directory_only_scaffolding(&ls[i].1) {
                                return false;
                            }
                            proof {
                                assert(before + dir_pairs_from(ls@, rs@, i as int) =~= pairs@
                                    + dir_pairs_from(ls@, rs@, i + 1));
                            }
                        },
                    }
                    i = i + 1;
                }
                proof {
                    assert(pairs@ + dir_pairs_from(ls@, rs@, i as int) =~= pairs@);
                }
                true
            },
            _ => false,
        },
        TreeNode::File { executable: x1, len: n1, id: a } => match r {
            TreeNode::File { executable: x2, len: n2, id: b } => {
                if *x1 == *x2 && *n1 == *n2 {
                    pairs.push((*a, *b));
                    true
                } else {
                    false
                }
            },
            _ => false,
        },
        TreeNode::Symlink(t1) => match r {
            TreeNode::Symlink(t2) => bytes_eq(t1, t2),
            _ => false,
        },
        TreeNode::Special(k1) => match r {
            TreeNode::Special(k2) => *k1 == *k2,
            _ => false,
        },
    }
}

/// The pairs of files whose contents decide whether the directory `left`
/// matches the directory `right` under `mode`, in the order they are met;
/// `None` when the trees do not match whatever those contents are: a side
/// is missing or not a directory, or the entries differ in name, kind,
/// length, executable bit or symlink target.
pub fn tree_match_plan(left: &Option<TreeNode>, right: &Option<TreeNode>, mode: TreeComparison) -> (r: Option<Vec<(u64, u64)>>)
    ensures
        match (left, right) {
            (Some(l), Some(rt)) => if l is Dir && rt is Dir && nodes_match(*l, *rt, mode) {
                r matches Some(p) && p@ == node_pairs(*l, *rt)
            } else {
                r is None
            },
            _ => r is None,
        },
{
    match (left, right) {
        (Some(l), Some(rt)) => {
            match (l, rt) {
                (TreeNode::Dir(_), TreeNode::Dir(_)) => {},
                _ => return None,
            }
            let mut pairs: Vec<(u64, u64)> = Vec::new();
            if match_nodes(l, rt, mode, &mut pairs) {
                proof {
                    assert(pairs@ =~= node_pairs(*l, *rt));
                }
                Some(pairs)
            } else {
                None
            }
        },
        _ => None,
    }
}

/// Trees that match exactly also match as a subset, and the files to
/// compare are the same.
pub proof fn law_exact_match_is_subset_match(l: TreeNode, r: TreeNode)
    requires
        nodes_match(l, r, TreeComparison::Exact),
    ensures
        nodes_match(l, r, TreeComparison::Subset),
    decreases l, 0int,
{
    match l {
        TreeNode::Dir(ls) => match r {
            TreeNode::Dir(rs) => {
                lemma_dir_exact_is_subset(ls@, rs@, 0);
            },
            _ => {},
        },
        _ => {},
    }
}

proof fn lemma_dir_exact_is_subset(ls: Seq<(Vec<u8>, TreeNode)>, rs: Seq<(Vec<u8>, TreeNode)>, i: int)
    requires
        dir_match_from(ls, rs, TreeComparison::Exact, i),
    ensures
        dir_match_from(ls, rs, TreeComparison::Subset, i),
    decreases ls, ls.len() - i,
{
    if 0 <= i < ls.len() {
        match child_index(rs, ls[i].0@) {
            Some(j) => {
                law_exact_match_is_subset_match(ls[i].1, rs[j].1);
            },
            None => {},
        }
        lemma_dir_exact_is_subset(ls, rs, i + 1);
    }
}

/// What the file system shows of the two ends of a directory move.
#[derive(Debug, Clone, Copy)]
pub struct MoveFacts {
    pub from_exists: bool,
    pub from_is_dir: bool,
    pub to_exists: bool,
    pub to_is_dir: bool,
    pub to_is_empty: bool,
}

/// Checks a move of the directory `from` to `to`: `from` must be a
/// directory, and `to` missing or an empty directory, which the move
/// replaces. On success, says whether that empty directory is there.
pub fn check_directory_move(from: &str, to: &str, facts: &MoveFacts) -> (r: Result<bool, Error>)
    ensures
        !facts.from_exists ==> (r matches Err(Error::InfraFs(InfraFsError::ImportRepoPathMissing { path }))
            && path@ == from@),
        facts.from_exists && !facts.from_is_dir ==> (r matches Err(
            Error::InfraFs(InfraFsError::ImportRepoPathNotDirectory { path }),
        ) && path@ == from@),
        facts.from_exists && facts.from_is_dir && facts.to_exists && !facts.to_is_dir ==> (r matches Err(
            Error::InfraFs(InfraFsError::ImportContextPathNotDirectory { path }),
        ) && path@ == to@),
        facts.from_exists && facts.from_is_dir && facts.to_exists && facts.to_is_dir && !facts.to_is_empty
            ==> (r matches Err(Error::InfraFs(InfraFsError::ImportContextPathNotEmpty { path }))
            && path@ == to@),
        facts.from_exists && facts.from_is_dir && (!facts.to_exists || (facts.to_is_dir
            && facts.to_is_empty)) ==> r == Ok::<bool, Error>(facts.to_exists),
{
    if !facts.from_exists {
        return Err(Error::InfraFs(InfraFsError::ImportRepoPathMissing { path: from.to_owned() }));
    }
    if !facts.from_is_dir {
        return Err(Error::InfraFs(InfraFsError::ImportRepoPathNotDirectory { path: from.to_owned() }));
    }
    if facts.to_exists {
        if !facts.to_is_dir {
            return Err(Error::InfraFs(InfraFsError::ImportContextPathNotDirectory { path: to.to_owned() }));
        }
        if !facts.to_is_empty {
            return Err(Error::InfraFs(InfraFsError::ImportContextPathNotEmpty { path: to.to_owned() }));
        }
        return Ok(true);
    }
    Ok(false)
}

} // verus!
