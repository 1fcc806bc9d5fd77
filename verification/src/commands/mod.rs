//! The commands.

pub mod amend;
pub mod squash;
