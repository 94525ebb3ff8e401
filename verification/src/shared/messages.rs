//! The messages shown for errors.
use vstd::prelude::*;

use crate::shared::error::{
    AttachError, Error, InfraFsError, InfraGitError, InfraMountError, MountWorkflowError,
    RepoWorkflowError, TemplateError, ValidationError, WorkspaceError,
};
use crate::shared::text::{append_str, decimal, push_decimal};

verus! {

/// The message of a `ValidationError`.
pub open spec fn validation_error_text(e: ValidationError) -> Seq<char> {
    match e {
        ValidationError::InvalidSlug { label, value } => "invalid "@ + label@ + " `"@ + value@ + "`; expected slug starting with [a-z0-9_] and continuing with [a-z0-9_-]*"@,
        ValidationError::InvalidCloneSource { clone_source } => "invalid clone source `"@ + clone_source@ + "`; expected https://, ssh://, file://, or SCP-style git SSH syntax"@,
        ValidationError::EmptyRelativePath { label } => label@ + " must not be empty"@,
        ValidationError::AbsoluteRelativePath { label, path } => label@ + " must be relative: `"@ + path@ + "`"@,
        ValidationError::RelativePathEscapesBase { label, path } => label@ + " must stay within its base directory: `"@ + path@ + "`"@,
        ValidationError::RelativePathResolvesToRoot { label } => label@ + " must not resolve to the root"@,
        ValidationError::InvalidManifestVersion { actual, expected } => "unsupported manifest version "@ + decimal(actual as nat) + "; expected "@ + decimal(expected as nat),
        ValidationError::InvalidTemplateManifestVersion { actual, expected } => "unsupported template manifest version "@ + decimal(actual as nat) + "; expected "@ + decimal(expected as nat),
        ValidationError::DuplicateRepoMountContext { repo_id, context } => "repo `"@ + repo_id@ + "` contains duplicate mount context path `"@ + context@ + "`"@,
        ValidationError::OverlappingRepoMountContext { repo_id, first, second } => "repo `"@ + repo_id@ + "` contains overlapping mount context paths `"@ + first@ + "` and `"@ + second@ + "`"@,
        ValidationError::DuplicateTemplateMountContext { context } => "duplicate template mount context path `"@ + context@ + "`"@,
        ValidationError::OverlappingTemplateMountContext { first, second } => "template contains overlapping mount context paths `"@ + first@ + "` and `"@ + second@ + "`"@,
        ValidationError::DuplicateRepoMountTarget { repo_id, repo_path } => "repo `"@ + repo_id@ + "` contains duplicate mount repo path `"@ + repo_path@ + "`"@,
        ValidationError::RepoMountUnknownRepo { repo_id } => "repo mount references unregistered repo `"@ + repo_id@ + "`"@,
        ValidationError::RepoTemplateUnknownRepo { repo_id } => "repo template binding references unregistered repo `"@ + repo_id@ + "`"@,
        ValidationError::DuplicateTemplateMountTarget { repo_path } => "duplicate template mount repo path `"@ + repo_path@ + "`"@,
        ValidationError::OverlappingRepoMountTarget { repo_id, first, second } => "repo `"@ + repo_id@ + "` contains overlapping mount repo paths `"@ + first@ + "` and `"@ + second@ + "`"@,
        ValidationError::OverlappingTemplateMountTarget { first, second } => "template contains overlapping mount repo paths `"@ + first@ + "` and `"@ + second@ + "`"@,
    }
}

impl ValidationError {
    /// The message shown for this error.
    pub fn message(&self) -> (r: String)
        ensures
            r@ == validation_error_text(*self),
    {
        let mut out = String::new();
        match self {
            ValidationError::InvalidSlug { label, value } => {
                append_str(&mut out, "invalid ");
                append_str(&mut out, label.as_str());
                append_str(&mut out, " `");
                append_str(&mut out, value.as_str());
                append_str(&mut out, "`; expected slug starting with [a-z0-9_] and continuing with [a-z0-9_-]*");
                proof {
                    assert(out@ =~= "invalid "@ + label@ + " `"@ + value@ + "`; expected slug starting with [a-z0-9_] and continuing with [a-z0-9_-]*"@);
                }
            },
            ValidationError::InvalidCloneSource { clone_source } => {
                append_str(&mut out, "invalid clone source `");
                append_str(&mut out, clone_source.as_str());
                append_str(&mut out, "`; expected https://, ssh://, file://, or SCP-style git SSH syntax");
                proof {
                    assert(out@ =~= "invalid clone source `"@ + clone_source@ + "`; expected https://, ssh://, file://, or SCP-style git SSH syntax"@);
                }
            },
            ValidationError::EmptyRelativePath { label } => {
                append_str(&mut out, label.as_str());
                append_str(&mut out, " must not be empty");
                proof {
                    assert(out@ =~= label@ + " must not be empty"@);
                }
            },
            ValidationError::AbsoluteRelativePath { label, path } => {
                append_str(&mut out, label.as_str());
                append_str(&mut out, " must be relative: `");
                append_str(&mut out, path.as_str());
                append_str(&mut out, "`");
                proof {
                    assert(out@ =~= label@ + " must be relative: `"@ + path@ + "`"@);
                }
            },
            ValidationError::RelativePathEscapesBase { label, path } => {
                append_str(&mut out, label.as_str());
                append_str(&mut out, " must stay within its base directory: `");
                append_str(&mut out, path.as_str());
                append_str(&mut out, "`");
                proof {
                    assert(out@ =~= label@ + " must stay within its base directory: `"@ + path@ + "`"@);
                }
            },
            ValidationError::RelativePathResolvesToRoot { label } => {
                append_str(&mut out, label.as_str());
                append_str(&mut out, " must not resolve to the root");
                proof {
                    assert(out@ =~= label@ + " must not resolve to the root"@);
                }
            },
            ValidationError::InvalidManifestVersion { actual, expected } => {
                append_str(&mut out, "unsupported manifest version ");
                push_decimal(&mut out, *actual as u64);
                append_str(&mut out, "; expected ");
                push_decimal(&mut out, *expected as u64);
                proof {
                    assert(out@ =~= "unsupported manifest version "@ + decimal(actual as nat) + "; expected "@ + decimal(expected as nat));
                }
            },
            ValidationError::InvalidTemplateManifestVersion { actual, expected } => {
                append_str(&mut out, "unsupported template manifest version ");
                push_decimal(&mut out, *actual as u64);
                append_str(&mut out, "; expected ");
                push_decimal(&mut out, *expected as u64);
                proof {
                    assert(out@ =~= "unsupported template manifest version "@ + decimal(actual as nat) + "; expected "@ + decimal(expected as nat));
                }
            },
            ValidationError::DuplicateRepoMountContext { repo_id, context } => {
                append_str(&mut out, "repo `");
                append_str(&mut out, repo_id.as_str());
                append_str(&mut out, "` contains duplicate mount context path `");
                append_str(&mut out, context.as_str());
                append_str(&mut out, "`");
                proof {
                    assert(out@ =~= "repo `"@ + repo_id@ + "` contains duplicate mount context path `"@ + context@ + "`"@);
                }
            },
            ValidationError::OverlappingRepoMountContext { repo_id, first, second } => {
                append_str(&mut out, "repo `");
                append_str(&mut out, repo_id.as_str());
                append_str(&mut out, "` contains overlapping mount context paths `");
                append_str(&mut out, first.as_str());
                append_str(&mut out, "` and `");
                append_str(&mut out, second.as_str());
                append_str(&mut out, "`");
                proof {
                    assert(out@ =~= "repo `"@ + repo_id@ + "` contains overlapping mount context paths `"@ + first@ + "` and `"@ + second@ + "`"@);
                }
            },
            ValidationError::DuplicateTemplateMountContext { context } => {
                append_str(&mut out, "duplicate template mount context path `");
                append_str(&mut out, context.as_str());
                append_str(&mut out, "`");
                proof {
                    assert(out@ =~= "duplicate template mount context path `"@ + context@ + "`"@);
                }
            },
            ValidationError::OverlappingTemplateMountContext { first, second } => {
                append_str(&mut out, "template contains overlapping mount context paths `");
                append_str(&mut out, first.as_str());
                append_str(&mut out, "` and `");
                append_str(&mut out, second.as_str());
                append_str(&mut out, "`");
                proof {
                    assert(out@ =~= "template contains overlapping mount context paths `"@ + first@ + "` and `"@ + second@ + "`"@);
                }
            },
            ValidationError::DuplicateRepoMountTarget { repo_id, repo_path } => {
                append_str(&mut out, "repo `");
                append_str(&mut out, repo_id.as_str());
                append_str(&mut out, "` contains duplicate mount repo path `");
                append_str(&mut out, repo_path.as_str());
                append_str(&mut out, "`");
                proof {
                    assert(out@ =~= "repo `"@ + repo_id@ + "` contains duplicate mount repo path `"@ + repo_path@ + "`"@);
                }
            },
            ValidationError::RepoMountUnknownRepo { repo_id } => {
                append_str(&mut out, "repo mount references unregistered repo `");
                append_str(&mut out, repo_id.as_str());
                append_str(&mut out, "`");
                proof {
                    assert(out@ =~= "repo mount references unregistered repo `"@ + repo_id@ + "`"@);
                }
            },
            ValidationError::RepoTemplateUnknownRepo { repo_id } => {
                append_str(&mut out, "repo template binding references unregistered repo `");
                append_str(&mut out, repo_id.as_str());
                append_str(&mut out, "`");
                proof {
                    assert(out@ =~= "repo template binding references unregistered repo `"@ + repo_id@ + "`"@);
                }
            },
            ValidationError::DuplicateTemplateMountTarget { repo_path } => {
                append_str(&mut out, "duplicate template mount repo path `");
                append_str(&mut out, repo_path.as_str());
                append_str(&mut out, "`");
                proof {
                    assert(out@ =~= "duplicate template mount repo path `"@ + repo_path@ + "`"@);
                }
            },
            ValidationError::OverlappingRepoMountTarget { repo_id, first, second } => {
                append_str(&mut out, "repo `");
                append_str(&mut out, repo_id.as_str());
                append_str(&mut out, "` contains overlapping mount repo paths `");
                append_str(&mut out, first.as_str());
                append_str(&mut out, "` and `");
                append_str(&mut out, second.as_str());
                append_str(&mut out, "`");
                proof {
                    assert(out@ =~= "repo `"@ + repo_id@ + "` contains overlapping mount repo paths `"@ + first@ + "` and `"@ + second@ + "`"@);
                }
            },
            ValidationError::OverlappingTemplateMountTarget { first, second } => {
                append_str(&mut out, "template contains overlapping mount repo paths `");
                append_str(&mut out, first.as_str());
                append_str(&mut out, "` and `");
                append_str(&mut out, second.as_str());
                append_str(&mut out, "`");
                proof {
                    assert(out@ =~= "template contains overlapping mount repo paths `"@ + first@ + "` and `"@ + second@ + "`"@);
                }
            },
        }
        out
    }
}

/// The message of a `WorkspaceError`.
pub open spec fn workspace_error_text(e: WorkspaceError) -> Seq<char> {
    match e {
        WorkspaceError::UnsupportedNonUtf8Path { path } => "path contains non-UTF-8 data and is unsupported: "@ + path@,
        WorkspaceError::RepoNotMaterialized { repo_id } => "repo `"@ + repo_id@ + "` is not materialized; run `agentbox materialize "@ + repo_id@ + "` first"@,
        WorkspaceError::NoWorkspace { root } => "no agentbox workspace found in `"@ + root@ + "`; run `agentbox init` first"@,
        WorkspaceError::AlreadyInitialized { root } => "workspace already initialized at `"@ + root@ + "`"@,
    }
}

impl WorkspaceError {
    /// The message shown for this error.
    pub fn message(&self) -> (r: String)
        ensures
            r@ == workspace_error_text(*self),
    {
        let mut out = String::new();
        match self {
            WorkspaceError::UnsupportedNonUtf8Path { path } => {
                append_str(&mut out, "path contains non-UTF-8 data and is unsupported: ");
                append_str(&mut out, path.as_str());
                proof {
                    assert(out@ =~= "path contains non-UTF-8 data and is unsupported: "@ + path@);
                }
            },
            WorkspaceError::RepoNotMaterialized { repo_id } => {
                append_str(&mut out, "repo `");
                append_str(&mut out, repo_id.as_str());
                append_str(&mut out, "` is not materialized; run `agentbox materialize ");
                append_str(&mut out, repo_id.as_str());
                append_str(&mut out, "` first");
                proof {
                    assert(out@ =~= "repo `"@ + repo_id@ + "` is not materialized; run `agentbox materialize "@ + repo_id@ + "` first"@);
                }
            },
            WorkspaceError::NoWorkspace { root } => {
                append_str(&mut out, "no agentbox workspace found in `");
                append_str(&mut out, root.as_str());
                append_str(&mut out, "`; run `agentbox init` first");
                proof {
                    assert(out@ =~= "no agentbox workspace found in `"@ + root@ + "`; run `agentbox init` first"@);
                }
            },
            WorkspaceError::AlreadyInitialized { root } => {
                append_str(&mut out, "workspace already initialized at `");
                append_str(&mut out, root.as_str());
                append_str(&mut out, "`");
                proof {
                    assert(out@ =~= "workspace already initialized at `"@ + root@ + "`"@);
                }
            },
        }
        out
    }
}

/// The message of a `AttachError`.
pub open spec fn attach_error_text(e: AttachError) -> Seq<char> {
    match e {
        AttachError::RepoAlreadyRegistered { repo_id } => "repo `"@ + repo_id@ + "` is already registered"@,
        AttachError::RepoNotRegistered { repo_id } => "repo `"@ + repo_id@ + "` is not registered"@,
        AttachError::RepoStillMaterialized { repo_id } => "repo `"@ + repo_id@ + "` is still materialized; run `agentbox dematerialize "@ + repo_id@ + "` first"@,
        AttachError::RepoHasActiveMounts { repo_id } => "repo `"@ + repo_id@ + "` still has active mounts; run `agentbox unmount "@ + repo_id@ + "` first"@,
        AttachError::RepoHasConflictingMounts { repo_id } => "repo `"@ + repo_id@ + "` has conflicting foreign mounts; resolve them before detaching"@,
    }
}

impl AttachError {
    /// The message shown for this error.
    pub fn message(&self) -> (r: String)
        ensures
            r@ == attach_error_text(*self),
    {
        let mut out = String::new();
        match self {
            AttachError::RepoAlreadyRegistered { repo_id } => {
                append_str(&mut out, "repo `");
                append_str(&mut out, repo_id.as_str());
                append_str(&mut out, "` is already registered");
                proof {
                    assert(out@ =~= "repo `"@ + repo_id@ + "` is already registered"@);
                }
            },
            AttachError::RepoNotRegistered { repo_id } => {
                append_str(&mut out, "repo `");
                append_str(&mut out, repo_id.as_str());
                append_str(&mut out, "` is not registered");
                proof {
                    assert(out@ =~= "repo `"@ + repo_id@ + "` is not registered"@);
                }
            },
            AttachError::RepoStillMaterialized { repo_id } => {
                append_str(&mut out, "repo `");
                append_str(&mut out, repo_id.as_str());
                append_str(&mut out, "` is still materialized; run `agentbox dematerialize ");
                append_str(&mut out, repo_id.as_str());
                append_str(&mut out, "` first");
                proof {
                    assert(out@ =~= "repo `"@ + repo_id@ + "` is still materialized; run `agentbox dematerialize "@ + repo_id@ + "` first"@);
                }
            },
            AttachError::RepoHasActiveMounts { repo_id } => {
                append_str(&mut out, "repo `");
                append_str(&mut out, repo_id.as_str());
                append_str(&mut out, "` still has active mounts; run `agentbox unmount ");
                append_str(&mut out, repo_id.as_str());
                append_str(&mut out, "` first");
                proof {
                    assert(out@ =~= "repo `"@ + repo_id@ + "` still has active mounts; run `agentbox unmount "@ + repo_id@ + "` first"@);
                }
            },
            AttachError::RepoHasConflictingMounts { repo_id } => {
                append_str(&mut out, "repo `");
                append_str(&mut out, repo_id.as_str());
                append_str(&mut out, "` has conflicting foreign mounts; resolve them before detaching");
                proof {
                    assert(out@ =~= "repo `"@ + repo_id@ + "` has conflicting foreign mounts; resolve them before detaching"@);
                }
            },
        }
        out
    }
}

/// The message of a `RepoWorkflowError`.
pub open spec fn repo_workflow_error_text(e: RepoWorkflowError) -> Seq<char> {
    match e {
        RepoWorkflowError::RepoAlreadyRegistered { repo_id } => "repo `"@ + repo_id@ + "` is already registered"@,
        RepoWorkflowError::RepoNotRegistered { repo_id } => "repo `"@ + repo_id@ + "` is not registered"@,
        RepoWorkflowError::DestinationExistsNotGitRepo { repo_root } => "destination `"@ + repo_root@ + "` already exists but is not a valid git repo"@,
        RepoWorkflowError::RepoHasActiveMounts { repo_id } => "repo `"@ + repo_id@ + "` still has active mounts; run `agentbox unmount "@ + repo_id@ + "` first"@,
        RepoWorkflowError::RepoHasConflictingMounts { repo_id } => "repo `"@ + repo_id@ + "` has conflicting foreign mounts; resolve them before dematerializing"@,
    }
}

impl RepoWorkflowError {
    /// The message shown for this error.
    pub fn message(&self) -> (r: String)
        ensures
            r@ == repo_workflow_error_text(*self),
    {
        let mut out = String::new();
        match self {
            RepoWorkflowError::RepoAlreadyRegistered { repo_id } => {
                append_str(&mut out, "repo `");
                append_str(&mut out, repo_id.as_str());
                append_str(&mut out, "` is already registered");
                proof {
                    assert(out@ =~= "repo `"@ + repo_id@ + "` is already registered"@);
                }
            },
            RepoWorkflowError::RepoNotRegistered { repo_id } => {
                append_str(&mut out, "repo `");
                append_str(&mut out, repo_id.as_str());
                append_str(&mut out, "` is not registered");
                proof {
                    assert(out@ =~= "repo `"@ + repo_id@ + "` is not registered"@);
                }
            },
            RepoWorkflowError::DestinationExistsNotGitRepo { repo_root } => {
                append_str(&mut out, "destination `");
                append_str(&mut out, repo_root.as_str());
                append_str(&mut out, "` already exists but is not a valid git repo");
                proof {
                    assert(out@ =~= "destination `"@ + repo_root@ + "` already exists but is not a valid git repo"@);
                }
            },
            RepoWorkflowError::RepoHasActiveMounts { repo_id } => {
                append_str(&mut out, "repo `");
                append_str(&mut out, repo_id.as_str());
                append_str(&mut out, "` still has active mounts; run `agentbox unmount ");
                append_str(&mut out, repo_id.as_str());
                append_str(&mut out, "` first");
                proof {
                    assert(out@ =~= "repo `"@ + repo_id@ + "` still has active mounts; run `agentbox unmount "@ + repo_id@ + "` first"@);
                }
            },
            RepoWorkflowError::RepoHasConflictingMounts { repo_id } => {
                append_str(&mut out, "repo `");
                append_str(&mut out, repo_id.as_str());
                append_str(&mut out, "` has conflicting foreign mounts; resolve them before dematerializing");
                proof {
                    assert(out@ =~= "repo `"@ + repo_id@ + "` has conflicting foreign mounts; resolve them before dematerializing"@);
                }
            },
        }
        out
    }
}

/// The message of a `MountWorkflowError`.
pub open spec fn mount_workflow_error_text(e: MountWorkflowError) -> Seq<char> {
    match e {
        MountWorkflowError::RepoNotRegistered { repo_id } => "repo `"@ + repo_id@ + "` is not registered"@,
        MountWorkflowError::MountNotFoundByRepoPath { repo_id, repo_path } => "repo `"@ + repo_id@ + "` has no registered mount for repo path `"@ + repo_path@ + "`"@,
        MountWorkflowError::MountAlreadyExists { repo_id, context, repo_path } => "mount `"@ + context@ + "` -> `"@ + repo_path@ + "` already exists on repo `"@ + repo_id@ + "`"@,
        MountWorkflowError::MountConflicts { repo_id, context, repo_path } => "mount `"@ + context@ + "` -> `"@ + repo_path@ + "` conflicts with an existing mount on repo `"@ + repo_id@ + "`"@,
        MountWorkflowError::MountExistsOrConflicts { repo_id, context, repo_path } => "mount `"@ + context@ + "` -> `"@ + repo_path@ + "` already exists or conflicts on repo `"@ + repo_id@ + "`"@,
        MountWorkflowError::MountTargetStillMounted { repo_id, repo_path, target } => "repo path `"@ + repo_path@ + "` on repo `"@ + repo_id@ + "` is still mounted at `"@ + target@ + "`; run `agentbox unmount "@ + repo_id@ + "` first"@,
        MountWorkflowError::MountTargetConflictedForUpdate { repo_id, repo_path, expected_source, existing_source, target } => "repo path `"@ + repo_path@ + "` on repo `"@ + repo_id@ + "` is mounted from `"@ + existing_source@ + "` instead of the expected workspace source `"@ + expected_source@ + "` at `"@ + target@ + "`; resolve that conflicting mount before editing or removing it"@,
        MountWorkflowError::MountTargetAlreadyMounted { mount_source, target, existing_source } => "cannot mount `"@ + mount_source@ + "` to `"@ + target@ + "` because the target is already mounted from `"@ + existing_source@ + "`"@,
        MountWorkflowError::UnmountTargetConflicts { expected_source, existing_source, target } => "cannot unmount `"@ + target@ + "` because it is mounted from `"@ + existing_source@ + "` instead of the expected workspace source `"@ + expected_source@ + "`"@,
        MountWorkflowError::UnmountTargetOwnershipUnverified { existing_source, target } => "cannot unmount `"@ + target@ + "` because agentbox cannot verify ownership of the live mount from `"@ + existing_source@ + "`; pass `--unsafe-unmount` to tear it down anyway"@,
        MountWorkflowError::ImportTargetAlreadyMounted { target } => "repo path `"@ + target@ + "` is already mounted; unmount it before importing"@,
        MountWorkflowError::MountTargetWouldHideDifferentFiles { repo_id, repo_path, mount_source, target } => "cannot mount workspace source `"@ + mount_source@ + "` onto repo path `"@ + repo_path@ + "` for repo `"@ + repo_id@ + "` because `"@ + target@ + "` already contains different files; if you are adopting that existing repo-owned directory into agentbox, unmount it and run `agentbox import-mount "@ + repo_id@ + " --repo-path "@ + repo_path@ + " --no-mount` first"@,
    }
}

impl MountWorkflowError {
    /// The message shown for this error.
    pub fn message(&self) -> (r: String)
        ensures
            r@ == mount_workflow_error_text(*self),
    {
        let mut out = String::new();
        match self {
            MountWorkflowError::RepoNotRegistered { repo_id } => {
                append_str(&mut out, "repo `");
                append_str(&mut out, repo_id.as_str());
                append_str(&mut out, "` is not registered");
                proof {
                    assert(out@ =~= "repo `"@ + repo_id@ + "` is not registered"@);
                }
            },
            MountWorkflowError::MountNotFoundByRepoPath { repo_id, repo_path } => {
                append_str(&mut out, "repo `");
                append_str(&mut out, repo_id.as_str());
                append_str(&mut out, "` has no registered mount for repo path `");
                append_str(&mut out, repo_path.as_str());
                append_str(&mut out, "`");
                proof {
                    assert(out@ =~= "repo `"@ + repo_id@ + "` has no registered mount for repo path `"@ + repo_path@ + "`"@);
                }
            },
            MountWorkflowError::MountAlreadyExists { repo_id, context, repo_path } => {
                append_str(&mut out, "mount `");
                append_str(&mut out, context.as_str());
                append_str(&mut out, "` -> `");
                append_str(&mut out, repo_path.as_str());
                append_str(&mut out, "` already exists on repo `");
                append_str(&mut out, repo_id.as_str());
                append_str(&mut out, "`");
                proof {
                    assert(out@ =~= "mount `"@ + context@ + "` -> `"@ + repo_path@ + "` already exists on repo `"@ + repo_id@ + "`"@);
                }
            },
            MountWorkflowError::MountConflicts { repo_id, context, repo_path } => {
                append_str(&mut out, "mount `");
                append_str(&mut out, context.as_str());
                append_str(&mut out, "` -> `");
                append_str(&mut out, repo_path.as_str());
                append_str(&mut out, "` conflicts with an existing mount on repo `");
                append_str(&mut out, repo_id.as_str());
                append_str(&mut out, "`");
                proof {
                    assert(out@ =~= "mount `"@ + context@ + "` -> `"@ + repo_path@ + "` conflicts with an existing mount on repo `"@ + repo_id@ + "`"@);
                }
            },
            MountWorkflowError::MountExistsOrConflicts { repo_id, context, repo_path } => {
                append_str(&mut out, "mount `");
                append_str(&mut out, context.as_str());
                append_str(&mut out, "` -> `");
                append_str(&mut out, repo_path.as_str());
                append_str(&mut out, "` already exists or conflicts on repo `");
                append_str(&mut out, repo_id.as_str());
                append_str(&mut out, "`");
                proof {
                    assert(out@ =~= "mount `"@ + context@ + "` -> `"@ + repo_path@ + "` already exists or conflicts on repo `"@ + repo_id@ + "`"@);
                }
            },
            MountWorkflowError::MountTargetStillMounted { repo_id, repo_path, target } => {
                append_str(&mut out, "repo path `");
                append_str(&mut out, repo_path.as_str());
                append_str(&mut out, "` on repo `");
                append_str(&mut out, repo_id.as_str());
                append_str(&mut out, "` is still mounted at `");
                append_str(&mut out, target.as_str());
                append_str(&mut out, "`; run `agentbox unmount ");
                append_str(&mut out, repo_id.as_str());
                append_str(&mut out, "` first");
                proof {
                    assert(out@ =~= "repo path `"@ + repo_path@ + "` on repo `"@ + repo_id@ + "` is still mounted at `"@ + target@ + "`; run `agentbox unmount "@ + repo_id@ + "` first"@);
                }
            },
            MountWorkflowError::MountTargetConflictedForUpdate { repo_id, repo_path, expected_source, existing_source, target } => {
                append_str(&mut out, "repo path `");
                append_str(&mut out, repo_path.as_str());
                append_str(&mut out, "` on repo `");
                append_str(&mut out, repo_id.as_str());
                append_str(&mut out, "` is mounted from `");
                append_str(&mut out, existing_source.as_str());
                append_str(&mut out, "` instead of the expected workspace source `");
                append_str(&mut out, expected_source.as_str());
                append_str(&mut out, "` at `");
                append_str(&mut out, target.as_str());
                append_str(&mut out, "`; resolve that conflicting mount before editing or removing it");
                proof {
                    assert(out@ =~= "repo path `"@ + repo_path@ + "` on repo `"@ + repo_id@ + "` is mounted from `"@ + existing_source@ + "` instead of the expected workspace source `"@ + expected_source@ + "` at `"@ + target@ + "`; resolve that conflicting mount before editing or removing it"@);
                }
            },
            MountWorkflowError::MountTargetAlreadyMounted { mount_source, target, existing_source } => {
                append_str(&mut out, "cannot mount `");
                append_str(&mut out, mount_source.as_str());
                append_str(&mut out, "` to `");
                append_str(&mut out, target.as_str());
                append_str(&mut out, "` because the target is already mounted from `");
                append_str(&mut out, existing_source.as_str());
                append_str(&mut out, "`");
                proof {
                    assert(out@ =~= "cannot mount `"@ + mount_source@ + "` to `"@ + target@ + "` because the target is already mounted from `"@ + existing_source@ + "`"@);
                }
            },
            MountWorkflowError::UnmountTargetConflicts { expected_source, existing_source, target } => {
                append_str(&mut out, "cannot unmount `");
                append_str(&mut out, target.as_str());
                append_str(&mut out, "` because it is mounted from `");
                append_str(&mut out, existing_source.as_str());
                append_str(&mut out, "` instead of the expected workspace source `");
                append_str(&mut out, expected_source.as_str());
                append_str(&mut out, "`");
                proof {
                    assert(out@ =~= "cannot unmount `"@ + target@ + "` because it is mounted from `"@ + existing_source@ + "` instead of the expected workspace source `"@ + expected_source@ + "`"@);
                }
            },
            MountWorkflowError::UnmountTargetOwnershipUnverified { existing_source, target } => {
                append_str(&mut out, "cannot unmount `");
                append_str(&mut out, target.as_str());
                append_str(&mut out, "` because agentbox cannot verify ownership of the live mount from `");
                append_str(&mut out, existing_source.as_str());
                append_str(&mut out, "`; pass `--unsafe-unmount` to tear it down anyway");
                proof {
                    assert(out@ =~= "cannot unmount `"@ + target@ + "` because agentbox cannot verify ownership of the live mount from `"@ + existing_source@ + "`; pass `--unsafe-unmount` to tear it down anyway"@);
                }
            },
            MountWorkflowError::ImportTargetAlreadyMounted { target } => {
                append_str(&mut out, "repo path `");
                append_str(&mut out, target.as_str());
                append_str(&mut out, "` is already mounted; unmount it before importing");
                proof {
                    assert(out@ =~= "repo path `"@ + target@ + "` is already mounted; unmount it before importing"@);
                }
            },
            MountWorkflowError::MountTargetWouldHideDifferentFiles { repo_id, repo_path, mount_source, target } => {
                append_str(&mut out, "cannot mount workspace source `");
                append_str(&mut out, mount_source.as_str());
                append_str(&mut out, "` onto repo path `");
                append_str(&mut out, repo_path.as_str());
                append_str(&mut out, "` for repo `");
                append_str(&mut out, repo_id.as_str());
                append_str(&mut out, "` because `");
                append_str(&mut out, target.as_str());
                append_str(&mut out, "` already contains different files; if you are adopting that existing repo-owned directory into agentbox, unmount it and run `agentbox import-mount ");
                append_str(&mut out, repo_id.as_str());
                append_str(&mut out, " --repo-path ");
                append_str(&mut out, repo_path.as_str());
                append_str(&mut out, " --no-mount` first");
                proof {
                    assert(out@ =~= "cannot mount workspace source `"@ + mount_source@ + "` onto repo path `"@ + repo_path@ + "` for repo `"@ + repo_id@ + "` because `"@ + target@ + "` already contains different files; if you are adopting that existing repo-owned directory into agentbox, unmount it and run `agentbox import-mount "@ + repo_id@ + " --repo-path "@ + repo_path@ + " --no-mount` first"@);
                }
            },
        }
        out
    }
}

/// The message of a `TemplateError`.
pub open spec fn template_error_text(e: TemplateError) -> Seq<char> {
    match e {
        TemplateError::TemplateAlreadyExists { template_id } => "template `"@ + template_id@ + "` already exists"@,
        TemplateError::TemplateMissing { template_id } => "template `"@ + template_id@ + "` does not exist"@,
        TemplateError::TemplateMountConflict { template_id, repo_id, context, repo_path } => "template `"@ + template_id@ + "` mount `"@ + context@ + "` -> `"@ + repo_path@ + "` conflicts with an existing mount on repo `"@ + repo_id@ + "`"@,
        TemplateError::TemplateMountTargetStillMounted { template_id, repo_id, repo_path, target } => "template `"@ + template_id@ + "` wants to manage repo path `"@ + repo_path@ + "` on repo `"@ + repo_id@ + "`, but `"@ + target@ + "` is currently mounted; run `agentbox unmount "@ + repo_id@ + "` first"@,
        TemplateError::TemplateMountWouldHideDifferentFiles { template_id, repo_id, repo_path, target } => "template `"@ + template_id@ + "` wants to manage repo path `"@ + repo_path@ + "` on repo `"@ + repo_id@ + "`, but `"@ + target@ + "` already contains different files; use `agentbox import-mount "@ + repo_id@ + " --repo-path "@ + repo_path@ + " --no-mount` first if you are adopting that existing repo-owned directory into workspace ownership"@,
    }
}

impl TemplateError {
    /// The message shown for this error.
    pub fn message(&self) -> (r: String)
        ensures
            r@ == template_error_text(*self),
    {
        let mut out = String::new();
        match self {
            TemplateError::TemplateAlreadyExists { template_id } => {
                append_str(&mut out, "template `");
                append_str(&mut out, template_id.as_str());
                append_str(&mut out, "` already exists");
                proof {
                    assert(out@ =~= "template `"@ + template_id@ + "` already exists"@);
                }
            },
            TemplateError::TemplateMissing { template_id } => {
                append_str(&mut out, "template `");
                append_str(&mut out, template_id.as_str());
                append_str(&mut out, "` does not exist");
                proof {
                    assert(out@ =~= "template `"@ + template_id@ + "` does not exist"@);
                }
            },
            TemplateError::TemplateMountConflict { template_id, repo_id, context, repo_path } => {
                append_str(&mut out, "template `");
                append_str(&mut out, template_id.as_str());
                append_str(&mut out, "` mount `");
                append_str(&mut out, context.as_str());
                append_str(&mut out, "` -> `");
                append_str(&mut out, repo_path.as_str());
                append_str(&mut out, "` conflicts with an existing mount on repo `");
                append_str(&mut out, repo_id.as_str());
                append_str(&mut out, "`");
                proof {
                    assert(out@ =~= "template `"@ + template_id@ + "` mount `"@ + context@ + "` -> `"@ + repo_path@ + "` conflicts with an existing mount on repo `"@ + repo_id@ + "`"@);
                }
            },
            TemplateError::TemplateMountTargetStillMounted { template_id, repo_id, repo_path, target } => {
                append_str(&mut out, "template `");
                append_str(&mut out, template_id.as_str());
                append_str(&mut out, "` wants to manage repo path `");
                append_str(&mut out, repo_path.as_str());
                append_str(&mut out, "` on repo `");
                append_str(&mut out, repo_id.as_str());
                append_str(&mut out, "`, but `");
                append_str(&mut out, target.as_str());
                append_str(&mut out, "` is currently mounted; run `agentbox unmount ");
                append_str(&mut out, repo_id.as_str());
                append_str(&mut out, "` first");
                proof {
                    assert(out@ =~= "template `"@ + template_id@ + "` wants to manage repo path `"@ + repo_path@ + "` on repo `"@ + repo_id@ + "`, but `"@ + target@ + "` is currently mounted; run `agentbox unmount "@ + repo_id@ + "` first"@);
                }
            },
            TemplateError::TemplateMountWouldHideDifferentFiles { template_id, repo_id, repo_path, target } => {
                append_str(&mut out, "template `");
                append_str(&mut out, template_id.as_str());
                append_str(&mut out, "` wants to manage repo path `");
                append_str(&mut out, repo_path.as_str());
                append_str(&mut out, "` on repo `");
                append_str(&mut out, repo_id.as_str());
                append_str(&mut out, "`, but `");
                append_str(&mut out, target.as_str());
                append_str(&mut out, "` already contains different files; use `agentbox import-mount ");
                append_str(&mut out, repo_id.as_str());
                append_str(&mut out, " --repo-path ");
                append_str(&mut out, repo_path.as_str());
                append_str(&mut out, " --no-mount` first if you are adopting that existing repo-owned directory into workspace ownership");
                proof {
                    assert(out@ =~= "template `"@ + template_id@ + "` wants to manage repo path `"@ + repo_path@ + "` on repo `"@ + repo_id@ + "`, but `"@ + target@ + "` already contains different files; use `agentbox import-mount "@ + repo_id@ + " --repo-path "@ + repo_path@ + " --no-mount` first if you are adopting that existing repo-owned directory into workspace ownership"@);
                }
            },
        }
        out
    }
}

/// The message of a `InfraGitError`.
pub open spec fn infra_git_error_text(e: InfraGitError) -> Seq<char> {
    match e {
        InfraGitError::CloneFailed { clone_source, stderr } => "git clone failed for `"@ + clone_source@ + "`: "@ + stderr@,
    }
}

impl InfraGitError {
    /// The message shown for this error.
    pub fn message(&self) -> (r: String)
        ensures
            r@ == infra_git_error_text(*self),
    {
        let mut out = String::new();
        match self {
            InfraGitError::CloneFailed { clone_source, stderr } => {
                append_str(&mut out, "git clone failed for `");
                append_str(&mut out, clone_source.as_str());
                append_str(&mut out, "`: ");
                append_str(&mut out, stderr.as_str());
                proof {
                    assert(out@ =~= "git clone failed for `"@ + clone_source@ + "`: "@ + stderr@);
                }
            },
        }
        out
    }
}

/// The message of a `InfraMountError`.
pub open spec fn infra_mount_error_text(e: InfraMountError) -> Seq<char> {
    match e {
        InfraMountError::Unsupported => "bind mounts are only supported on Linux in agentbox v1"@,
        InfraMountError::InvalidMountField { details } => "invalid UTF-8 in mount table field: "@ + details@,
        InfraMountError::MalformedMountTableEntry { line_no, reason } => "invalid mount table entry at line "@ + decimal(line_no as nat) + ": "@ + reason@,
        InfraMountError::BindMountFailed { mount_source, target, cause } => "bind mount failed from `"@ + mount_source@ + "` to `"@ + target@ + "`: "@ + cause@ + "; Linux bind mounts typically require CAP_SYS_ADMIN/root privileges"@,
        InfraMountError::UnmountFailed { target, cause } => "unmount failed for `"@ + target@ + "`: "@ + cause@ + "; Linux bind mounts typically require CAP_SYS_ADMIN/root privileges"@,
    }
}

impl InfraMountError {
    /// The message shown for this error.
    pub fn message(&self) -> (r: String)
        ensures
            r@ == infra_mount_error_text(*self),
    {
        let mut out = String::new();
        match self {
            InfraMountError::Unsupported => {
                append_str(&mut out, "bind mounts are only supported on Linux in agentbox v1");
                proof {
                    assert(out@ =~= "bind mounts are only supported on Linux in agentbox v1"@);
                }
            },
            InfraMountError::InvalidMountField { details } => {
                append_str(&mut out, "invalid UTF-8 in mount table field: ");
                append_str(&mut out, details.as_str());
                proof {
                    assert(out@ =~= "invalid UTF-8 in mount table field: "@ + details@);
                }
            },
            InfraMountError::MalformedMountTableEntry { line_no, reason } => {
                append_str(&mut out, "invalid mount table entry at line ");
                push_decimal(&mut out, *line_no as u64);
                append_str(&mut out, ": ");
                append_str(&mut out, reason.as_str());
                proof {
                    assert(out@ =~= "invalid mount table entry at line "@ + decimal(line_no as nat) + ": "@ + reason@);
                }
            },
            InfraMountError::BindMountFailed { mount_source, target, cause } => {
                append_str(&mut out, "bind mount failed from `");
                append_str(&mut out, mount_source.as_str());
                append_str(&mut out, "` to `");
                append_str(&mut out, target.as_str());
                append_str(&mut out, "`: ");
                append_str(&mut out, cause.as_str());
                append_str(&mut out, "; Linux bind mounts typically require CAP_SYS_ADMIN/root privileges");
                proof {
                    assert(out@ =~= "bind mount failed from `"@ + mount_source@ + "` to `"@ + target@ + "`: "@ + cause@ + "; Linux bind mounts typically require CAP_SYS_ADMIN/root privileges"@);
                }
            },
            InfraMountError::UnmountFailed { target, cause } => {
                append_str(&mut out, "unmount failed for `");
                append_str(&mut out, target.as_str());
                append_str(&mut out, "`: ");
                append_str(&mut out, cause.as_str());
                append_str(&mut out, "; Linux bind mounts typically require CAP_SYS_ADMIN/root privileges");
                proof {
                    assert(out@ =~= "unmount failed for `"@ + target@ + "`: "@ + cause@ + "; Linux bind mounts typically require CAP_SYS_ADMIN/root privileges"@);
                }
            },
        }
        out
    }
}

/// The message of a `InfraFsError`.
pub open spec fn infra_fs_error_text(e: InfraFsError) -> Seq<char> {
    match e {
        InfraFsError::TemplateDestinationNotDirectory { destination } => "template destination `"@ + destination@ + "` already exists and is not a directory"@,
        InfraFsError::UnsupportedTemplateEntry { entry } => "unsupported template entry `"@ + entry@ + "`; only regular files and directories are supported"@,
        InfraFsError::ImportRepoPathMissing { path } => "repo path `"@ + path@ + "` does not exist for import"@,
        InfraFsError::ImportRepoPathNotDirectory { path } => "repo path `"@ + path@ + "` must be a directory for import"@,
        InfraFsError::ImportContextPathNotDirectory { path } => "context path `"@ + path@ + "` already exists and is not a directory"@,
        InfraFsError::ImportContextPathNotEmpty { path } => "context path `"@ + path@ + "` already exists and is not empty"@,
    }
}

impl InfraFsError {
    /// The message shown for this error.
    pub fn message(&self) -> (r: String)
        ensures
            r@ == infra_fs_error_text(*self),
    {
        let mut out = String::new();
        match self {
            InfraFsError::TemplateDestinationNotDirectory { destination } => {
                append_str(&mut out, "template destination `");
                append_str(&mut out, destination.as_str());
                append_str(&mut out, "` already exists and is not a directory");
                proof {
                    assert(out@ =~= "template destination `"@ + destination@ + "` already exists and is not a directory"@);
                }
            },
            InfraFsError::UnsupportedTemplateEntry { entry } => {
                append_str(&mut out, "unsupported template entry `");
                append_str(&mut out, entry.as_str());
                append_str(&mut out, "`; only regular files and directories are supported");
                proof {
                    assert(out@ =~= "unsupported template entry `"@ + entry@ + "`; only regular files and directories are supported"@);
                }
            },
            InfraFsError::ImportRepoPathMissing { path } => {
                append_str(&mut out, "repo path `");
                append_str(&mut out, path.as_str());
                append_str(&mut out, "` does not exist for import");
                proof {
                    assert(out@ =~= "repo path `"@ + path@ + "` does not exist for import"@);
                }
            },
            InfraFsError::ImportRepoPathNotDirectory { path } => {
                append_str(&mut out, "repo path `");
                append_str(&mut out, path.as_str());
                append_str(&mut out, "` must be a directory for import");
                proof {
                    assert(out@ =~= "repo path `"@ + path@ + "` must be a directory for import"@);
                }
            },
            InfraFsError::ImportContextPathNotDirectory { path } => {
                append_str(&mut out, "context path `");
                append_str(&mut out, path.as_str());
                append_str(&mut out, "` already exists and is not a directory");
                proof {
                    assert(out@ =~= "context path `"@ + path@ + "` already exists and is not a directory"@);
                }
            },
            InfraFsError::ImportContextPathNotEmpty { path } => {
                append_str(&mut out, "context path `");
                append_str(&mut out, path.as_str());
                append_str(&mut out, "` already exists and is not empty");
                proof {
                    assert(out@ =~= "context path `"@ + path@ + "` already exists and is not empty"@);
                }
            },
        }
        out
    }
}

/// The message of an error.
pub open spec fn error_text(e: Error) -> Seq<char> {
    match e {
        Error::Validation(x) => validation_error_text(x),
        Error::Workspace(x) => workspace_error_text(x),
        Error::Attach(x) => attach_error_text(x),
        Error::Repo(x) => repo_workflow_error_text(x),
        Error::Mount(x) => mount_workflow_error_text(x),
        Error::Template(x) => template_error_text(x),
        Error::InfraGit(x) => infra_git_error_text(x),
        Error::InfraMount(x) => infra_mount_error_text(x),
        Error::InfraFs(x) => infra_fs_error_text(x),
        Error::IoPath { path, message } => "I/O error at `"@ + path@ + "`: "@ + message@,
        Error::IoDisplayPath { path, message } => "I/O error at `"@ + path@ + "`: "@ + message@,
        Error::Io { message } => message@,
        Error::TomlDeserialize { message } => message@,
        Error::TomlSerialize { message } => message@,
        Error::SerdeJson { message } => message@,
        Error::StripPrefix { message } => message@,
        Error::DoctorIssues(n) => "doctor found "@ + decimal(n as nat) + " error(s)"@,
    }
}

impl Error {
    /// The message shown for this error.
    pub fn message(&self) -> (r: String)
        ensures
            r@ == error_text(*self),
    {
        match self {
            Error::Validation(x) => x.message(),
            Error::Workspace(x) => x.message(),
            Error::Attach(x) => x.message(),
            Error::Repo(x) => x.message(),
            Error::Mount(x) => x.message(),
            Error::Template(x) => x.message(),
            Error::InfraGit(x) => x.message(),
            Error::InfraMount(x) => x.message(),
            Error::InfraFs(x) => x.message(),
            Error::IoPath { path, message } | Error::IoDisplayPath { path, message } => {
                let mut out = String::new();
                append_str(&mut out, "I/O error at `");
                append_str(&mut out, path.as_str());
                append_str(&mut out, "`: ");
                append_str(&mut out, message.as_str());
                proof {
                    assert(out@ =~= "I/O error at `"@ + path@ + "`: "@ + message@);
                }
                out
            },
            Error::Io { message } | Error::TomlDeserialize { message } | Error::TomlSerialize {
                message,
            } | Error::SerdeJson { message } | Error::StripPrefix { message } => message.clone(),
            Error::DoctorIssues(n) => {
                let mut out = String::new();
                append_str(&mut out, "doctor found ");
                push_decimal(&mut out, *n as u64);
                append_str(&mut out, " error(s)");
                proof {
                    assert(out@ =~= "doctor found "@ + decimal(*n as nat) + " error(s)"@);
                }
                out
            },
        }
    }
}

} // verus!
