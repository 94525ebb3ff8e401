pub mod store;
pub mod lifecycle;
