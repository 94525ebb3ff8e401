//! The command line, as plain values: what was asked for and with which
//! arguments. Parsing the arguments happens outside the library.
use vstd::prelude::*;

verus! {

/// The whole command line.
#[derive(Debug)]
pub struct Cli {
    /// The workspace root given with `--workspace`, as the bytes of the path.
    pub workspace: Option<Vec<u8>>,
    pub command: Command,
}

/// Output options shared by the inspection commands.
#[derive(Debug, Clone, Copy, Default)]
pub struct OutputArgs {
    /// Emit machine-readable JSON output.
    pub json: bool,
}

/// The subcommands.
#[derive(Debug)]
pub enum Command {
    /// Initialize the selected directory as a workspace.
    Init,
    /// Attach a repo by clone source without materializing it yet.
    Attach(AttachArgs),
    /// Detach a repo from the workspace manifest.
    Detach(DetachArgs),
    /// Clone one or all registered repos.
    Materialize(RepoSelectionArgs),
    /// Remove one or all materialized repos while keeping registration and context.
    Dematerialize(RepoSelectionArgs),
    /// Activate configured bind mounts for one or all repos.
    Mount(RepoSelectionArgs),
    /// Unmount configured bind mounts for one or all repos.
    Unmount(UnmountArgs),
    /// Register a new writable mount rule for a repo.
    AddMount(AddMountArgs),
    /// Remove a registered mount rule by repo path.
    RemoveMount(RemoveMountArgs),
    /// Update the context path of a registered mount rule.
    EditMount(EditMountArgs),
    /// Import a repo directory into workspace-owned context and mount it back.
    ImportMount(ImportMountArgs),
    /// List registered mounts.
    ListMounts(ListMountsArgs),
    /// Show high-level state for all registered repos.
    Status(OutputArgs),
    /// Show detailed state for a single repo.
    Show(ShowArgs),
    /// Validate workspace structure and configuration.
    Doctor(DoctorArgs),
    /// Manage workspace-local templates.
    Template(TemplateArgs),
    /// Print the installed version.
    Version,
}

impl Command {
    /// Every command but `version` works on a workspace.
    pub fn needs_workspace(&self) -> (r: bool)
        ensures
            r == !(self is Version),
    {
        match self {
            Command::Version => false,
            _ => true,
        }
    }
}

#[derive(Debug)]
pub struct AttachArgs {
    pub repo_id: String,
    pub source: String,
    pub template: Option<String>,
}

#[derive(Debug)]
pub struct DetachArgs {
    pub repo_id: String,
    pub force: bool,
    pub unsafe_unmount: bool,
}

#[derive(Debug)]
pub struct RepoSelectionArgs {
    pub repo_id: Option<String>,
}

#[derive(Debug)]
pub struct UnmountArgs {
    pub repo_id: Option<String>,
    pub unsafe_unmount: bool,
}

#[derive(Debug)]
pub struct AddMountArgs {
    pub repo_id: String,
    pub context_path: String,
    pub repo_path: String,
}

#[derive(Debug)]
pub struct RemoveMountArgs {
    pub repo_id: String,
    pub repo_path: String,
}

#[derive(Debug)]
pub struct EditMountArgs {
    pub repo_id: String,
    pub repo_path: String,
    pub new_context_path: String,
}

#[derive(Debug)]
pub struct ImportMountArgs {
    pub repo_id: String,
    pub repo_path: String,
    pub context_path: Option<String>,
    pub no_mount: bool,
}

#[derive(Debug)]
pub struct ListMountsArgs {
    pub repo_id: Option<String>,
    pub output: OutputArgs,
}

#[derive(Debug)]
pub struct ShowArgs {
    pub repo_id: String,
    pub output: OutputArgs,
}

#[derive(Debug)]
pub struct DoctorArgs {
    pub fix: bool,
    pub output: OutputArgs,
}

#[derive(Debug)]
pub struct TemplateArgs {
    pub command: TemplateCommand,
}

#[derive(Debug)]
pub enum TemplateCommand {
    /// List workspace-local templates.
    List,
    /// Create a local template skeleton.
    Create { template_id: String },
    /// Delete a local template.
    Delete { template_id: String },
    /// Apply a local template to a registered repo.
    Apply { template_id: String, repo_id: String },
}

} // verus!
