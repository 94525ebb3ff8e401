use agentbox::shared::fs_tree::{
    executable_bits_match, tree_is_directory_only_scaffolding, tree_match_plan, SpecialKind,
    TreeComparison, TreeNode,
};

fn dir(entries: Vec<(&str, TreeNode)>) -> TreeNode {
    TreeNode::Dir(entries.into_iter().map(|(n, t)| (n.as_bytes().to_vec(), t)).collect())
}

fn file(id: u64, len: u64, executable: bool) -> TreeNode {
    TreeNode::File { executable, len, id }
}

fn link(target: &str) -> TreeNode {
    TreeNode::Symlink(target.as_bytes().to_vec())
}

#[test]
fn identical_trees_match_after_comparing_their_files() {
    let left = dir(vec![("a", file(1, 3, false)), ("sub", dir(vec![("b", file(2, 5, true))]))]);
    let right = dir(vec![("sub", dir(vec![("b", file(20, 5, true))])), ("a", file(10, 3, false))]);
    let plan = tree_match_plan(&Some(left), &Some(right), TreeComparison::Exact).unwrap();
    assert_eq!(plan, vec![(1, 10), (2, 20)]);
}

#[test]
fn missing_or_non_directory_roots_do_not_match() {
    assert!(tree_match_plan(&None, &Some(dir(vec![])), TreeComparison::Exact).is_none());
    assert!(tree_match_plan(&Some(dir(vec![])), &None, TreeComparison::Subset).is_none());
    assert!(tree_match_plan(&Some(file(1, 0, false)), &Some(file(2, 0, false)), TreeComparison::Exact).is_none());
    assert_eq!(tree_match_plan(&Some(dir(vec![])), &Some(dir(vec![])), TreeComparison::Exact), Some(vec![]));
}

#[test]
fn executable_bits_and_lengths_must_agree() {
    let left = dir(vec![("run", file(1, 4, true))]);
    let right = dir(vec![("run", file(2, 4, false))]);
    assert!(tree_match_plan(&Some(left), &Some(right), TreeComparison::Exact).is_none());
    let left = dir(vec![("f", file(1, 4, false))]);
    let right = dir(vec![("f", file(2, 5, false))]);
    assert!(tree_match_plan(&Some(left), &Some(right), TreeComparison::Subset).is_none());
    assert!(executable_bits_match(0o755, 0o700));
    assert!(executable_bits_match(0o644, 0o600));
    assert!(!executable_bits_match(0o644, 0o744));
}

#[test]
fn symlink_targets_must_agree() {
    let same = tree_match_plan(&Some(dir(vec![("l", link("x"))])), &Some(dir(vec![("l", link("x"))])), TreeComparison::Exact);
    assert_eq!(same, Some(vec![]));
    let differ = tree_match_plan(&Some(dir(vec![("l", link("x"))])), &Some(dir(vec![("l", link("y"))])), TreeComparison::Exact);
    assert!(differ.is_none());
}

#[test]
fn kinds_must_agree() {
    let left = dir(vec![("e", dir(vec![]))]);
    let right = dir(vec![("e", file(1, 0, false))]);
    assert!(tree_match_plan(&Some(left), &Some(right), TreeComparison::Exact).is_none());
    let left = dir(vec![("p", TreeNode::Special(SpecialKind::Fifo))]);
    let right = dir(vec![("p", TreeNode::Special(SpecialKind::Socket))]);
    assert!(tree_match_plan(&Some(left), &Some(right), TreeComparison::Exact).is_none());
}

#[test]
fn exact_comparison_needs_the_same_names() {
    let left = dir(vec![("a", file(1, 1, false))]);
    let right = dir(vec![("a", file(2, 1, false)), ("b", file(3, 1, false))]);
    assert!(tree_match_plan(&Some(left), &Some(right), TreeComparison::Exact).is_none());
}

#[test]
fn subset_accepts_extra_entries_in_superset() {
    let left = dir(vec![("a", file(1, 1, false))]);
    let right = dir(vec![("a", file(2, 1, false)), ("b", file(3, 1, false))]);
    assert_eq!(tree_match_plan(&Some(left), &Some(right), TreeComparison::Subset), Some(vec![(1, 2)]));
}

#[test]
fn subset_allows_extra_empty_directories_but_not_files() {
    let left = dir(vec![("empty", dir(vec![("deeper", dir(vec![]))]))]);
    let right = dir(vec![]);
    assert_eq!(tree_match_plan(&Some(left), &Some(right), TreeComparison::Subset), Some(vec![]));
    let left = dir(vec![("full", dir(vec![("f", file(1, 1, false))]))]);
    assert!(tree_match_plan(&Some(left), &Some(dir(vec![])), TreeComparison::Subset).is_none());
}

#[test]
fn scaffolding_is_directories_only() {
    assert!(tree_is_directory_only_scaffolding(&dir(vec![("a", dir(vec![("b", dir(vec![]))]))])));
    assert!(!tree_is_directory_only_scaffolding(&dir(vec![("a", dir(vec![("f", file(1, 0, false))]))])));
    assert!(!tree_is_directory_only_scaffolding(&dir(vec![("l", link("x"))])));
    assert!(!tree_is_directory_only_scaffolding(&file(1, 0, false)));
}

use agentbox::shared::error::{Error, InfraFsError};
use agentbox::shared::fs_tree::{check_directory_move, MoveFacts};

fn facts(from_exists: bool, from_is_dir: bool, to_exists: bool, to_is_dir: bool, to_is_empty: bool) -> MoveFacts {
    MoveFacts { from_exists, from_is_dir, to_exists, to_is_dir, to_is_empty }
}

#[test]
fn move_directory_rejects_missing_and_non_directory_sources() {
    assert!(matches!(
        check_directory_move("/r/p", "/c/p", &facts(false, false, false, false, false)),
        Err(Error::InfraFs(InfraFsError::ImportRepoPathMissing { path })) if path == "/r/p"
    ));
    assert!(matches!(
        check_directory_move("/r/p", "/c/p", &facts(true, false, false, false, false)),
        Err(Error::InfraFs(InfraFsError::ImportRepoPathNotDirectory { path })) if path == "/r/p"
    ));
}

#[test]
fn move_directory_checks_the_destination() {
    assert!(matches!(
        check_directory_move("/r/p", "/c/p", &facts(true, true, true, false, false)),
        Err(Error::InfraFs(InfraFsError::ImportContextPathNotDirectory { path })) if path == "/c/p"
    ));
    assert!(matches!(
        check_directory_move("/r/p", "/c/p", &facts(true, true, true, true, false)),
        Err(Error::InfraFs(InfraFsError::ImportContextPathNotEmpty { path })) if path == "/c/p"
    ));
    assert_eq!(check_directory_move("/r/p", "/c/p", &facts(true, true, true, true, true)).unwrap(), true);
    assert_eq!(check_directory_move("/r/p", "/c/p", &facts(true, true, false, false, false)).unwrap(), false);
}

#[test]
fn exact_match_is_also_a_subset_match() {
    let make = || dir(vec![("a", file(1, 2, false)), ("d", dir(vec![("b", file(2, 3, true)), ("l", link("t"))]))]);
    let exact = tree_match_plan(&Some(make()), &Some(make()), TreeComparison::Exact);
    let subset = tree_match_plan(&Some(make()), &Some(make()), TreeComparison::Subset);
    assert!(exact.is_some());
    assert_eq!(exact, subset);
}
