//! Templates for paths and commands.

pub mod expansion;
