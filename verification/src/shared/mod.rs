pub mod error;
pub mod messages;
pub mod mount_spec;
pub mod text;
pub mod types;
pub mod paths;
pub mod order;
pub mod keyed;
pub mod fs_tree;
