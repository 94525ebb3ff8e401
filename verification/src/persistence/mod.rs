pub mod manifest;
pub mod composite;
