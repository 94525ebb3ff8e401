pub mod infra;
pub mod support;
pub mod ownership;
pub mod store;
pub mod unmount;
pub mod mount;
pub mod workflows;
