//! Reuse of a KTX-Software library that an earlier build left behind.
//!
//! Building the library takes minutes, so a build script first looks for a finished build: in its
//! own target directory, then in the other worktrees of the repository. What it finds it checks
//! and takes over. Everything is decided here, from what the host answers; asking the host and
//! changing it is left to the caller.

pub mod artifacts;
pub mod cache;
pub mod context;
pub mod copy;
pub mod environment;
pub mod git;
pub mod local;
pub mod meaning;
pub mod observe;
pub mod order;
pub mod path;
pub mod promises;
pub mod restore;
pub mod reuse;
pub mod search;
pub mod siblings;
pub mod stable;
pub mod text;
pub mod worktree;
