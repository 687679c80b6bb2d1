//! Listing worktrees.

use vstd::prelude::*;
use super::command::{command_line, output_text_of_some_run};
use super::parse::{parse_worktree_list, spec_worktree_list, worktree_view};
use super::repo::GitRepo;
use super::types::WorktreeInfo;
use crate::error::{Result, StaircaseError};
use crate::text::views;

verus! {

impl GitRepo {
    /// The worktrees of the repository, as `git worktree list --porcelain` lists them.
    pub fn worktrees(&self) -> (r: Result<Vec<WorktreeInfo>>)
        ensures
            r matches Ok(v) ==> exists|s: Seq<char>| output_text_of_some_run(true, true, s)
                && v@.map_values(|w: WorktreeInfo| worktree_view(w)) == #[trigger] spec_worktree_list(s),
            r matches Err(StaircaseError::GitCommandFailed { command, .. }) ==> command@
                == command_line(seq!["worktree"@, "list"@, "--porcelain"@]),
    {
        let c = self.command().args(&["worktree", "list", "--porcelain"]);
        proof {
            assert(views(c.args@) =~= seq!["worktree"@, "list"@, "--porcelain"@]);
        }
        let output = c.run()?;
        Ok(parse_worktree_list(output.as_str()))
    }
}

} // verus!
