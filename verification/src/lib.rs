//! Submitting and updating pull requests from local Jujutsu commits.

pub mod backend;
pub mod command;
pub mod commands;
pub mod error;
pub mod jj;
pub mod message;
pub mod oid;
pub mod options;
pub mod range;
pub mod rewrite;
pub mod text;
