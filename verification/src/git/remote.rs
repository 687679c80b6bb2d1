//! Talking to remotes.

use vstd::prelude::*;
use super::command::command_line;
use super::repo::GitRepo;
use crate::error::{Result, StaircaseError};
use crate::text::views;

verus! {

/// The arguments of `git push` (or `git fetch` without `--atomic`): the
/// subcommand, the flags that are set, the remote and the refspecs.
pub open spec fn transfer_args(
    sub: Seq<char>,
    atomic: bool,
    dry_run: bool,
    remote: Seq<char>,
    refspecs: Seq<Seq<char>>,
) -> Seq<Seq<char>> {
    seq![sub] + (if atomic { seq!["--atomic"@] } else { seq![] }) + (if dry_run { seq!["--dry-run"@] } else { seq![] })
        + seq![remote] + refspecs
}

impl GitRepo {
    /// Pushes `refspecs` to `remote`, atomically and as a dry run when asked.
    pub fn push(&self, remote: &str, refspecs: &[&str], atomic: bool, dry_run: bool) -> (r: Result<()>)
        ensures
            r matches Err(StaircaseError::GitCommandFailed { command, .. }) ==> command@
                == command_line(transfer_args("push"@, atomic, dry_run, remote@, refspecs@.map_values(|s: &str| s@))),
    {
        let mut cmd = self.command().arg("push");
        if atomic {
            cmd = cmd.arg("--atomic");
        }
        if dry_run {
            cmd = cmd.arg("--dry-run");
        }
        let cmd = cmd.arg(remote).args(refspecs);
        proof {
            assert(views(cmd.args@) =~= transfer_args("push"@, atomic, dry_run, remote@, refspecs@.map_values(|s: &str| s@)));
        }
        cmd.run()?;
        Ok(())
    }

    /// Fetches `refspecs` from `remote`, as a dry run when asked.
    pub fn fetch(&self, remote: &str, refspecs: &[&str], dry_run: bool) -> (r: Result<()>)
        ensures
            r matches Err(StaircaseError::GitCommandFailed { command, .. }) ==> command@
                == command_line(transfer_args("fetch"@, false, dry_run, remote@, refspecs@.map_values(|s: &str| s@))),
    {
        let mut cmd = self.command().arg("fetch");
        if dry_run {
            cmd = cmd.arg("--dry-run");
        }
        let cmd = cmd.arg(remote).args(refspecs);
        proof {
            assert(views(cmd.args@) =~= transfer_args("fetch"@, false, dry_run, remote@, refspecs@.map_values(|s: &str| s@)));
        }
        cmd.run()?;
        Ok(())
    }
}

} // verus!
