//! Verified core of `agentbox`, a workspace-local context manager for
//! independent git repositories.
pub mod shared;
pub mod mounts;
pub mod workspace;
pub mod persistence;
pub mod registry;
pub mod inspection;
pub mod output;
pub mod cli;
