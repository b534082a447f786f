//! Marks and colours of the tool's messages.

pub mod constants;
