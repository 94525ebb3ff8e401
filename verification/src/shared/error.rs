//! Error types of the library.
//!
//! Paths are carried as their UTF-8 text; the messages of outside errors
//! (I/O, TOML, JSON) are carried as text too.
use vstd::prelude::*;

use crate::shared::types::{CloneSource, RelativePath, RepoId, TemplateId};

verus! {

/// Top-level error type for all agentbox operations.
#[derive(Debug)]
pub enum Error {
    Validation(ValidationError),
    Workspace(WorkspaceError),
    Attach(AttachError),
    Repo(RepoWorkflowError),
    Mount(MountWorkflowError),
    Template(TemplateError),
    InfraGit(InfraGitError),
    InfraMount(InfraMountError),
    InfraFs(InfraFsError),
    IoPath { path: String, message: String },
    IoDisplayPath { path: String, message: String },
    Io { message: String },
    TomlDeserialize { message: String },
    TomlSerialize { message: String },
    SerdeJson { message: String },
    StripPrefix { message: String },
    DoctorIssues(usize),
}

#[derive(Debug)]
pub enum ValidationError {
    InvalidSlug { label: String, value: String },
    InvalidCloneSource { clone_source: String },
    EmptyRelativePath { label: String },
    AbsoluteRelativePath { label: String, path: String },
    RelativePathEscapesBase { label: String, path: String },
    RelativePathResolvesToRoot { label: String },
    InvalidManifestVersion { actual: u32, expected: u32 },
    InvalidTemplateManifestVersion { actual: u32, expected: u32 },
    DuplicateRepoMountContext { repo_id: RepoId, context: RelativePath },
    OverlappingRepoMountContext { repo_id: RepoId, first: RelativePath, second: RelativePath },
    DuplicateTemplateMountContext { context: RelativePath },
    OverlappingTemplateMountContext { first: RelativePath, second: RelativePath },
    DuplicateRepoMountTarget { repo_id: RepoId, repo_path: RelativePath },
    RepoMountUnknownRepo { repo_id: RepoId },
    RepoTemplateUnknownRepo { repo_id: RepoId },
    DuplicateTemplateMountTarget { repo_path: RelativePath },
    OverlappingRepoMountTarget { repo_id: RepoId, first: RelativePath, second: RelativePath },
    OverlappingTemplateMountTarget { first: RelativePath, second: RelativePath },
}

#[derive(Debug)]
pub enum WorkspaceError {
    UnsupportedNonUtf8Path { path: String },
    RepoNotMaterialized { repo_id: RepoId },
    NoWorkspace { root: String },
    AlreadyInitialized { root: String },
}

#[derive(Debug)]
pub enum AttachError {
    RepoAlreadyRegistered { repo_id: RepoId },
    RepoNotRegistered { repo_id: RepoId },
    RepoStillMaterialized { repo_id: RepoId },
    RepoHasActiveMounts { repo_id: RepoId },
    RepoHasConflictingMounts { repo_id: RepoId },
}

#[derive(Debug)]
pub enum RepoWorkflowError {
    RepoAlreadyRegistered { repo_id: RepoId },
    RepoNotRegistered { repo_id: RepoId },
    DestinationExistsNotGitRepo { repo_root: String },
    RepoHasActiveMounts { repo_id: RepoId },
    RepoHasConflictingMounts { repo_id: RepoId },
}

#[derive(Debug)]
pub enum MountWorkflowError {
    RepoNotRegistered { repo_id: RepoId },
    MountNotFoundByRepoPath { repo_id: RepoId, repo_path: RelativePath },
    MountAlreadyExists { repo_id: RepoId, context: RelativePath, repo_path: RelativePath },
    MountConflicts { repo_id: RepoId, context: RelativePath, repo_path: RelativePath },
    MountExistsOrConflicts { repo_id: RepoId, context: RelativePath, repo_path: RelativePath },
    MountTargetStillMounted { repo_id: RepoId, repo_path: RelativePath, target: String },
    MountTargetConflictedForUpdate {
        repo_id: RepoId,
        repo_path: RelativePath,
        expected_source: String,
        existing_source: String,
        target: String,
    },
    MountTargetAlreadyMounted { mount_source: String, target: String, existing_source: String },
    UnmountTargetConflicts { expected_source: String, existing_source: String, target: String },
    UnmountTargetOwnershipUnverified { existing_source: String, target: String },
    ImportTargetAlreadyMounted { target: String },
    MountTargetWouldHideDifferentFiles {
        repo_id: RepoId,
        repo_path: RelativePath,
        mount_source: String,
        target: String,
    },
}

#[derive(Debug)]
pub enum TemplateError {
    TemplateAlreadyExists { template_id: TemplateId },
    TemplateMissing { template_id: TemplateId },
    TemplateMountConflict {
        template_id: TemplateId,
        repo_id: RepoId,
        context: RelativePath,
        repo_path: RelativePath,
    },
    TemplateMountTargetStillMounted {
        template_id: TemplateId,
        repo_id: RepoId,
        repo_path: RelativePath,
        target: String,
    },
    TemplateMountWouldHideDifferentFiles {
        template_id: TemplateId,
        repo_id: RepoId,
        repo_path: RelativePath,
        target: String,
    },
}

#[derive(Debug)]
pub enum InfraGitError {
    CloneFailed { clone_source: CloneSource, stderr: String },
}

#[derive(Debug)]
pub enum InfraMountError {
    Unsupported,
    InvalidMountField { details: String },
    MalformedMountTableEntry { line_no: usize, reason: String },
    BindMountFailed { mount_source: String, target: String, cause: String },
    UnmountFailed { target: String, cause: String },
}

#[derive(Debug)]
pub enum InfraFsError {
    TemplateDestinationNotDirectory { destination: String },
    UnsupportedTemplateEntry { entry: String },
    ImportRepoPathMissing { path: String },
    ImportRepoPathNotDirectory { path: String },
    ImportContextPathNotDirectory { path: String },
    ImportContextPathNotEmpty { path: String },
}

impl Error {
    /// An I/O failure at `path`.
    pub fn io_path(path: String, message: String) -> (e: Error)
        ensures
            e matches Error::IoPath { path: p, message: m } && p@ == path@ && m@ == message@,
    {
        Error::IoPath { path, message }
    }

    /// A path that is not UTF-8, described by `path`.
    pub fn unsupported_non_utf8_path(path: String) -> (e: Error)
        ensures
            e matches Error::Workspace(WorkspaceError::UnsupportedNonUtf8Path { path: p })
                && p@ == path@,
    {
        Error::Workspace(WorkspaceError::UnsupportedNonUtf8Path { path })
    }

    /// A mount-table field that could not be decoded.
    pub fn invalid_mount_field(details: String) -> (e: Error)
        ensures
            e matches Error::InfraMount(InfraMountError::InvalidMountField { details: d })
                && d@ == details@,
    {
        Error::InfraMount(InfraMountError::InvalidMountField { details })
    }

    /// A mount-table line that could not be parsed.
    pub fn malformed_mount_table_entry(line_no: usize, reason: String) -> (e: Error)
        ensures
            e matches Error::InfraMount(
                InfraMountError::MalformedMountTableEntry { line_no: n, reason: r },
            ) && n == line_no && r@ == reason@,
    {
        Error::InfraMount(InfraMountError::MalformedMountTableEntry { line_no, reason })
    }

    /// A bind mount that the kernel refused.
    pub fn bind_mount_failed(source: String, target: String, cause: String) -> (e: Error)
        ensures
            e matches Error::InfraMount(
                InfraMountError::BindMountFailed { mount_source: s, target: t, cause: c },
            ) && s@ == source@ && t@ == target@ && c@ == cause@,
    {
        Error::InfraMount(InfraMountError::BindMountFailed { mount_source: source, target, cause })
    }

    /// An unmount that the kernel refused.
    pub fn unmount_failed(target: String, cause: String) -> (e: Error)
        ensures
            e matches Error::InfraMount(InfraMountError::UnmountFailed { target: t, cause: c })
                && t@ == target@ && c@ == cause@,
    {
        Error::InfraMount(InfraMountError::UnmountFailed { target, cause })
    }
}

impl From<ValidationError> for Error {
    fn from(value: ValidationError) -> (e: Error) {
        Error::Validation(value)
    }
}

impl vstd::std_specs::convert::FromSpecImpl<ValidationError> for Error {
    open spec fn obeys_from_spec() -> bool {
        true
    }

    open spec fn from_spec(v: ValidationError) -> Error {
        Error::Validation(v)
    }
}

impl From<WorkspaceError> for Error {
    fn from(value: WorkspaceError) -> (e: Error) {
        Error::Workspace(value)
    }
}

impl vstd::std_specs::convert::FromSpecImpl<WorkspaceError> for Error {
    open spec fn obeys_from_spec() -> bool {
        true
    }

    open spec fn from_spec(v: WorkspaceError) -> Error {
        Error::Workspace(v)
    }
}

impl From<AttachError> for Error {
    fn from(value: AttachError) -> (e: Error) {
        Error::Attach(value)
    }
}

impl vstd::std_specs::convert::FromSpecImpl<AttachError> for Error {
    open spec fn obeys_from_spec() -> bool {
        true
    }

    open spec fn from_spec(v: AttachError) -> Error {
        Error::Attach(v)
    }
}

impl From<RepoWorkflowError> for Error {
    fn from(value: RepoWorkflowError) -> (e: Error) {
        Error::Repo(value)
    }
}

impl vstd::std_specs::convert::FromSpecImpl<RepoWorkflowError> for Error {
    open spec fn obeys_from_spec() -> bool {
        true
    }

    open spec fn from_spec(v: RepoWorkflowError) -> Error {
        Error::Repo(v)
    }
}

impl From<MountWorkflowError> for Error {
    fn from(value: MountWorkflowError) -> (e: Error) {
        Error::Mount(value)
    }
}

impl vstd::std_specs::convert::FromSpecImpl<MountWorkflowError> for Error {
    open spec fn obeys_from_spec() -> bool {
        true
    }

    open spec fn from_spec(v: MountWorkflowError) -> Error {
        Error::Mount(v)
    }
}

impl From<TemplateError> for Error {
    fn from(value: TemplateError) -> (e: Error) {
        Error::Template(value)
    }
}

impl vstd::std_specs::convert::FromSpecImpl<TemplateError> for Error {
    open spec fn obeys_from_spec() -> bool {
        true
    }

    open spec fn from_spec(v: TemplateError) -> Error {
        Error::Template(v)
    }
}

impl From<InfraGitError> for Error {
    fn from(value: InfraGitError) -> (e: Error) {
        Error::InfraGit(value)
    }
}

impl vstd::std_specs::convert::FromSpecImpl<InfraGitError> for Error {
    open spec fn obeys_from_spec() -> bool {
        true
    }

    open spec fn from_spec(v: InfraGitError) -> Error {
        Error::InfraGit(v)
    }
}

impl From<InfraMountError> for Error {
    fn from(value: InfraMountError) -> (e: Error) {
        Error::InfraMount(value)
    }
}

impl vstd::std_specs::convert::FromSpecImpl<InfraMountError> for Error {
    open spec fn obeys_from_spec() -> bool {
        true
    }

    open spec fn from_spec(v: InfraMountError) -> Error {
        Error::InfraMount(v)
    }
}

impl From<InfraFsError> for Error {
    fn from(value: InfraFsError) -> (e: Error) {
        Error::InfraFs(value)
    }
}

impl vstd::std_specs::convert::FromSpecImpl<InfraFsError> for Error {
    open spec fn obeys_from_spec() -> bool {
        true
    }

    open spec fn from_spec(v: InfraFsError) -> Error {
        Error::InfraFs(v)
    }
}

} // verus!
