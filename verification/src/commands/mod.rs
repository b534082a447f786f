//! The commands of the tool, as far as they compute.

pub mod init;
pub mod list;
pub mod select;
