//! Plain values exchanged with Git: tree entries, worktrees, and the request
//! and output of one `git` invocation.

use vstd::prelude::*;
use crate::text::{cat, owned};

verus! {

/// One entry of a tree object.
#[derive(Debug, Clone, PartialEq, Eq)]
pub struct TreeEntry {
    pub mode: String,
    pub kind: String,
    pub oid: String,
    pub name: String,
}

impl TreeEntry {
    /// A regular-file blob entry (mode `100644`) named `name` for object `oid`.
    pub fn blob(oid: &str, name: &str) -> (e: Self)
        ensures
            e.mode@ == "100644"@,
            e.kind@ == "blob"@,
            e.oid@ == oid@,
            e.name@ == name@,
    {
        TreeEntry {
            mode: owned("100644"),
            kind: owned("blob"),
            oid: owned(oid),
            name: owned(name),
        }
    }
}

/// A worktree as `git worktree list --porcelain` describes it.
#[derive(Debug, Clone, PartialEq, Eq)]
pub struct WorktreeInfo {
    pub path: String,
    pub head: Option<String>,
    pub branch: Option<String>,
}

/// One `git` invocation: its arguments, standard input, whether it runs
/// attached to the terminal, and extra environment variables.
#[derive(Debug, Clone, PartialEq, Eq)]
pub struct GitRequest {
    pub args: Vec<String>,
    pub stdin: Option<String>,
    pub interactive: bool,
    pub envs: Vec<(String, String)>,
}

/// What a `git` invocation produced: whether it exited with status 0, its
/// exit code when it has one, and its output decoded as UTF-8 (lossily).
#[derive(Debug, Clone, PartialEq, Eq)]
pub struct CommandOutput {
    pub success: bool,
    pub code: Option<i32>,
    pub stdout: String,
    pub stderr: String,
}

} // verus!
