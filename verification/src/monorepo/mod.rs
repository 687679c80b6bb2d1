//! Shadow worktrees of a monorepo: a tree of symbolic links into the primary
//! checkout, with real Git worktrees for the repositories being worked on.

pub mod registry;
pub mod shadow;
