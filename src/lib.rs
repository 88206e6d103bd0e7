//! Powerline-style shell prompt: modules append colored segments to one
//! output line; the git module reads a repository's status and shows its
//! branch and local changes.

pub mod git;
pub mod prompt;
pub mod search;
pub mod segment;
pub mod status;
pub mod theme;
