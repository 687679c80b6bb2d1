//! Staircase logic: ref naming, layouts, branch graphs, mutation plans,
//! restacking and worktree drafts.

pub mod refs;

pub mod utils;
pub mod graph;
pub mod operation;
pub mod draft;
pub mod restack;
pub mod persistence;
pub mod resolved;
pub mod discovery;
pub mod inference;
pub mod status;
pub mod list;
pub mod identity;
pub mod verification;
pub mod archive;
pub mod unarchive;
pub mod resolution;
pub mod materialize;
pub mod metadata;
pub mod local;
pub mod rewrite;
pub mod manipulation;
