pub mod status_view;
pub mod evaluate;
pub mod doctor;
pub mod load_mount_table;
pub mod mount_list;
