//! The layout of a workspace on disk: where the manifest, the repos, their
//! context directories and the internal state live under the root.
use vstd::prelude::*;

use crate::shared::error::{Error, WorkspaceError};
use crate::shared::paths::{join_path, join_spec};
use crate::shared::types::{RelativePath, RepoId};

verus! {

/// A workspace, given by its root directory.
#[derive(Debug)]
pub struct Workspace {
    root: String,
}

pub open spec fn manifest_path_spec(root: Seq<char>) -> Seq<char> {
    join_spec(root, "agentbox.toml"@)
}

pub open spec fn repos_dir_spec(root: Seq<char>) -> Seq<char> {
    join_spec(root, "repos"@)
}

pub open spec fn context_dir_spec(root: Seq<char>) -> Seq<char> {
    join_spec(root, "context"@)
}

pub open spec fn internal_state_dir_spec(root: Seq<char>) -> Seq<char> {
    join_spec(root, ".agentbox"@)
}

pub open spec fn mount_ownership_path_spec(root: Seq<char>) -> Seq<char> {
    join_spec(internal_state_dir_spec(root), "mount-ownership.toml"@)
}

/// Where a repo is cloned.
pub open spec fn repo_root_spec(root: Seq<char>, repo_id: Seq<char>) -> Seq<char> {
    join_spec(repos_dir_spec(root), repo_id)
}

/// Where a repo's context files live.
pub open spec fn repo_context_root_spec(root: Seq<char>, repo_id: Seq<char>) -> Seq<char> {
    join_spec(context_dir_spec(root), repo_id)
}

/// The source of a mount: a path under the repo's context root.
pub open spec fn context_path_spec(root: Seq<char>, repo_id: Seq<char>, rel: Seq<char>) -> Seq<char> {
    join_spec(repo_context_root_spec(root, repo_id), rel)
}

/// The target of a mount: a path inside the cloned repo.
pub open spec fn repo_path_spec(root: Seq<char>, repo_id: Seq<char>, rel: Seq<char>) -> Seq<char> {
    join_spec(repo_root_spec(root, repo_id), rel)
}

impl View for Workspace {
    type V = Seq<char>;

    closed spec fn view(&self) -> Seq<char> {
        self.root@
    }
}

impl Workspace {
    pub fn new(root: String) -> (w: Workspace)
        ensures
            w@ == root@,
    {
        Workspace { root }
    }

    pub fn root(&self) -> (r: &str)
        ensures
            r@ == self@,
    {
        self.root.as_str()
    }

    pub fn manifest_path(&self) -> (r: String)
        ensures
            r@ == manifest_path_spec(self@),
    {
        join_path(self.root.as_str(), "agentbox.toml")
    }

    pub fn repos_dir(&self) -> (r: String)
        ensures
            r@ == repos_dir_spec(self@),
    {
        join_path(self.root.as_str(), "repos")
    }

    pub fn context_dir(&self) -> (r: String)
        ensures
            r@ == context_dir_spec(self@),
    {
        join_path(self.root.as_str(), "context")
    }

    pub fn internal_state_dir(&self) -> (r: String)
        ensures
            r@ == internal_state_dir_spec(self@),
    {
        join_path(self.root.as_str(), ".agentbox")
    }

    pub fn mount_ownership_path(&self) -> (r: String)
        ensures
            r@ == mount_ownership_path_spec(self@),
    {
        let dir = self.internal_state_dir();
        join_path(dir.as_str(), "mount-ownership.toml")
    }

    pub fn repo_root(&self, repo_id: &RepoId) -> (r: String)
        ensures
            r@ == repo_root_spec(self@, repo_id@),
    {
        let dir = self.repos_dir();
        join_path(dir.as_str(), repo_id.as_str())
    }

    pub fn repo_context_root(&self, repo_id: &RepoId) -> (r: String)
        ensures
            r@ == repo_context_root_spec(self@, repo_id@),
    {
        let dir = self.context_dir();
        join_path(dir.as_str(), repo_id.as_str())
    }

    pub fn context_path(&self, repo_id: &RepoId, rel: &RelativePath) -> (r: String)
        ensures
            r@ == context_path_spec(self@, repo_id@, rel@),
    {
        let dir = self.repo_context_root(repo_id);
        join_path(dir.as_str(), rel.as_str())
    }

    pub fn repo_path(&self, repo_id: &RepoId, rel: &RelativePath) -> (r: String)
        ensures
            r@ == repo_path_spec(self@, repo_id@, rel@),
    {
        let dir = self.repo_root(repo_id);
        join_path(dir.as_str(), rel.as_str())
    }

    /// Fails unless the workspace has a manifest (`manifest_exists` is what
    /// the file system says).
    pub fn require_initialized(&self, manifest_exists: bool) -> (r: Result<(), Error>)
        ensures
            manifest_exists <==> r is Ok,
            r matches Err(e) ==> e matches Error::Workspace(WorkspaceError::NoWorkspace { root })
                && root@ == self@,
    {
        if manifest_exists {
            Ok(())
        } else {
            Err(Error::Workspace(WorkspaceError::NoWorkspace { root: self.root.clone() }))
        }
    }
}

} // verus!
