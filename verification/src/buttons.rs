//! Reusable button widgets: a back row and the drive-list menus.

pub mod back;
pub mod vdrivelist;
