//! Git access: command building, repository queries and the parsing of Git's output.

pub mod command;
pub mod host;
pub mod repo;
pub mod types;

pub use command::GitCommand;
pub use host::{LockAttempt, RepoHost};
pub use repo::GitRepo;
pub use types::{CommandOutput, GitRequest, TreeEntry, WorktreeInfo};
pub mod parse;
pub mod refs;
pub mod graph;
pub mod objects;
pub mod remote;
pub mod worktree;
