//! Resolving and updating refs.

use vstd::prelude::*;
use super::command::{command_line, output_text_of_some_run};
use super::parse::{branch_view, parse_branch_list, spec_branch_list};
use super::repo::GitRepo;
use crate::error::{Result, StaircaseError};
use crate::memoization::MemoKey;
use crate::model::BranchInfo;
use crate::staircase::refs::StaircaseRefs;
use crate::text::{cat, cat3, join_strings, lines, lines_of, owned, starts_with, str_eq, trim, trim_str, views};

verus! {

/// The revision text asking Git for the commit that `rev` names.
pub open spec fn commit_rev(rev: Seq<char>) -> Seq<char> {
    rev + "^{commit}"@
}

impl GitRepo {
    /// The object id that `rev` names; an error when it names nothing.
    pub fn resolve_ref(&self, rev: &str) -> (r: Result<String>)
        ensures
            r matches Err(e) ==> (e is Io || (e matches StaircaseError::Other(m) && m@
                == "Could not resolve ref: "@ + rev@)),
    {
        match self.resolve_ref_opt(rev)? {
            Some(oid) => Ok(oid),
            None => Err(StaircaseError::Other(cat("Could not resolve ref: ", rev))),
        }
    }

    /// `git rev-parse --verify <target>` as a command that checks its status.
    fn rev_parse_verify(&self, target: &str) -> (r: Result<String>)
        ensures
            r matches Err(e) ==> (e is Io || e is GitCommandFailed),
            r matches Err(StaircaseError::GitCommandFailed { command, .. }) ==> command@
                == command_line(seq!["rev-parse"@, "--verify"@, target@]),
    {
        let c = self.command().args(&["rev-parse", "--verify", target]);
        proof {
            assert(views(c.args@) =~= seq!["rev-parse"@, "--verify"@, target@]);
        }
        c.run()
    }

    /// The commit that `rev` names. A name that does not start with `refs/` is
    /// tried as a tag, then as a branch, then as given. The result is memoized
    /// for every revision but `HEAD`.
    pub fn resolve_commit(&self, rev: &str) -> (r: Result<String>)
        ensures
            r matches Err(e) ==> (e is Io || e is GitCommandFailed),
            r matches Err(StaircaseError::GitCommandFailed { command, .. }) ==> command@
                == command_line(seq!["rev-parse"@, "--verify"@, commit_rev(rev@)]),
    {
        let memo = !str_eq(rev, "HEAD");
        let op = self.memoizer.ResolveCommit(owned(rev));
        if memo {
            match op.get() {
                Some(oid) => return Ok(oid),
                None => {},
            }
        }
        if !starts_with(rev, "refs/") {
            let tag = cat3("refs/tags/", rev, "^{commit}");
            match self.rev_parse_verify(tag.as_str()) {
                Ok(sha) => {
                    if memo {
                        op.put(sha.clone());
                    }
                    return Ok(sha);
                },
                Err(_) => {},
            }
            let head = cat3("refs/heads/", rev, "^{commit}");
            match self.rev_parse_verify(head.as_str()) {
                Ok(sha) => {
                    if memo {
                        op.put(sha.clone());
                    }
                    return Ok(sha);
                },
                Err(_) => {},
            }
        }
        let target = cat(rev, "^{commit}");
        let oid = self.rev_parse_verify(target.as_str())?;
        if memo {
            op.put(oid.clone());
        }
        Ok(oid)
    }

    /// The full refname that `name` stands for, memoized for every name but `HEAD`.
    pub fn resolve_symbolic_full_name(&self, name: &str) -> (r: Result<String>)
        ensures
            r matches Err(StaircaseError::Other(m)) ==> m@ == "Could not resolve \""@ + name@
                + "\" to a full refname"@,
    {
        let memo = !str_eq(name, "HEAD");
        let op = self.memoizer.ResolveSymbolic(owned(name));
        if memo {
            match op.get() {
                Some(full) => {
                    if full.unicode_len() > 0 {
                        return Ok(full);
                    }
                },
                None => {},
            }
        }
        let full_name = self.command().args(&["rev-parse", "--symbolic-full-name", name]).run()?;
        if full_name.unicode_len() == 0 {
            return Err(StaircaseError::Other(cat3("Could not resolve \"", name, "\" to a full refname")));
        }
        if memo {
            op.put(full_name.clone());
        }
        Ok(full_name)
    }

    /// The commit that `rev` names, or none when it names no commit.
    pub fn resolve_commit_opt(&self, rev: &str) -> (r: Result<Option<String>>)
        ensures
            r is Ok,
    {
        match self.resolve_commit(rev) {
            Ok(sha) => Ok(Some(sha)),
            Err(_) => Ok(None),
        }
    }

    /// The object id that `rev` names, or none; memoized for every revision but `HEAD`.
    pub fn resolve_ref_opt(&self, rev: &str) -> (r: Result<Option<String>>)
        ensures
            r matches Err(e) ==> e is Io,
    {
        let memo = !str_eq(rev, "HEAD");
        let op = self.memoizer.ResolveRef(owned(rev));
        if memo {
            match op.get() {
                Some(res) => return Ok(res),
                None => {},
            }
        }
        let result = self.command().args(&["rev-parse", "--verify", rev]).check_status(false).run_output()?;
        let res = if result.success {
            Some(trim_str(result.stdout.as_str()))
        } else {
            None
        };
        if memo {
            let copy = match &res {
                Some(s) => Some(s.clone()),
                None => None,
            };
            op.put(copy);
        }
        Ok(res)
    }

    /// Points branch `branch_name` at `oid`.
    pub fn update_branch(&self, branch_name: &str, oid: &str) -> (r: Result<()>)
        ensures
            r matches Err(StaircaseError::GitCommandFailed { command, .. }) ==> command@
                == command_line(seq!["update-ref"@, "refs/heads/"@ + branch_name@, oid@]),
    {
        let ref_name = cat("refs/heads/", branch_name);
        let c = self.command().args(&["update-ref", ref_name.as_str(), oid]);
        proof {
            assert(views(c.args@) =~= seq!["update-ref"@, "refs/heads/"@ + branch_name@, oid@]);
        }
        c.run()?;
        self.memoizer.clear();
        Ok(())
    }

    /// Points the ref of step `step_id` of active staircase `id` at `cut`.
    pub fn update_step_ref(&self, id: &str, step_id: &str, cut: &str) -> (r: Result<()>)
        ensures
            r matches Err(StaircaseError::GitCommandFailed { command, .. }) ==> command@
                == command_line(seq!["update-ref"@, "refs/staircase-state/"@ + id@ + "/steps/"@ + step_id@, cut@]),
    {
        let ref_name = StaircaseRefs::state_step(id, step_id);
        let c = self.command().args(&["update-ref", ref_name.as_str(), cut]);
        proof {
            assert(views(c.args@) =~= seq!["update-ref"@, ref_name@, cut@]);
        }
        c.run()?;
        self.memoizer.clear();
        Ok(())
    }

    /// Deletes the ref of step `step_id` of active staircase `id`.
    pub fn delete_step_ref(&self, id: &str, step_id: &str) -> (r: Result<()>)
        ensures
            r matches Err(StaircaseError::GitCommandFailed { command, .. }) ==> command@
                == command_line(seq!["update-ref"@, "-d"@, "refs/staircase-state/"@ + id@ + "/steps/"@ + step_id@]),
    {
        let ref_name = StaircaseRefs::state_step(id, step_id);
        let c = self.command().args(&["update-ref", "-d", ref_name.as_str()]);
        proof {
            assert(views(c.args@) =~= seq!["update-ref"@, "-d"@, ref_name@]);
        }
        c.run()?;
        self.memoizer.clear();
        Ok(())
    }

    /// The full refname of the checked-out branch, or none on a detached HEAD.
    pub fn current_branch(&self) -> (r: Result<Option<String>>)
        ensures
            r matches Err(e) ==> e is Io,
    {
        let output = self.command().args(&["symbolic-ref", "-q", "HEAD"]).check_status(false).run_output()?;
        if output.success {
            Ok(Some(trim_str(output.stdout.as_str())))
        } else {
            Ok(None)
        }
    }

    /// The branches under `pattern` (all local branches by default), with
    /// their object ids and upstreams.
    pub fn local_branches(&self, pattern: Option<&str>) -> (r: Result<Vec<BranchInfo>>)
        ensures
            r matches Err(e) ==> (e is Io || e is GitCommandFailed),
            r matches Ok(v) ==> exists|s: Seq<char>| output_text_of_some_run(true, true, s)
                && #[trigger] spec_branch_list(s) == v@.map_values(|b: BranchInfo| branch_view(b)),
    {
        let p = match pattern {
            Some(p) => p,
            None => "refs/heads/",
        };
        let stdout = self.command().args(
            &["for-each-ref", "--format=%(refname)%09%(objectname)%09%(upstream)", p],
        ).run()?;
        let branches = parse_branch_list(stdout.as_str());
        assert(spec_branch_list(stdout@) == branches@.map_values(|b: BranchInfo| branch_view(b)));
        Ok(branches)
    }

    /// Applies `commands` (`update-ref --stdin` lines) in one transaction;
    /// nothing is run when there are none.
    pub fn update_refs_transaction(&self, commands: &Vec<String>) -> (r: Result<()>)
        ensures
            commands@.len() == 0 ==> r is Ok,
    {
        if commands.len() == 0 {
            return Ok(());
        }
        let body = join_strings(commands, "\n");
        let input = cat3("start\n", body.as_str(), "\nprepare\ncommit\n");
        self.command().args(&["update-ref", "--stdin"]).stdin(input.as_str()).run()?;
        self.memoizer.clear();
        Ok(())
    }

    /// Checks `name` with `git check-ref-format`, as a branch name when `branch` holds.
    pub fn check_ref_format(&self, name: &str, branch: bool) -> (r: Result<()>)
        ensures
            r matches Err(StaircaseError::GitCommandFailed { command, .. }) ==> command@
                == command_line(if branch {
                    seq!["check-ref-format"@, "--branch"@, name@]
                } else {
                    seq!["check-ref-format"@, name@]
                }),
    {
        let mut c = self.command().arg("check-ref-format");
        if branch {
            c = c.arg("--branch");
        }
        let c = c.arg(name);
        proof {
            if branch {
                assert(views(c.args@) =~= seq!["check-ref-format"@, "--branch"@, name@]);
            } else {
                assert(views(c.args@) =~= seq!["check-ref-format"@, name@]);
            }
        }
        c.run()?;
        Ok(())
    }

    /// The lines of `git for-each-ref` with `format` under `pattern`, restricted
    /// to refs pointing at `points_at` when given.
    pub fn for_each_ref(&self, pattern: &str, format: &str, points_at: Option<&str>) -> (r: Result<Vec<String>>)
        ensures
            r matches Ok(v) ==> exists|s: Seq<char>| output_text_of_some_run(true, true, s)
                && #[trigger] lines(s) == views(v@),
    {
        let fmt = cat("--format=", format);
        let mut c = self.command().arg("for-each-ref").arg(fmt.as_str());
        match points_at {
            Some(oid) => {
                let p = cat("--points-at=", oid);
                c = c.arg(p.as_str());
            },
            None => {},
        }
        let stdout = c.arg(pattern).run()?;
        let v = lines_of(stdout.as_str());
        assert(lines(stdout@) == views(v@));
        Ok(v)
    }

    /// Points `refname` at `new_oid`, provided it still points at `old_oid` when given.
    pub fn update_ref(&self, refname: &str, new_oid: &str, old_oid: Option<&str>) -> (r: Result<()>)
        ensures
            r matches Err(StaircaseError::GitCommandFailed { command, .. }) ==> command@
                == command_line(match old_oid {
                    Some(o) => seq!["update-ref"@, refname@, new_oid@, o@],
                    None => seq!["update-ref"@, refname@, new_oid@],
                }),
    {
        let mut c = self.command().arg("update-ref").arg(refname).arg(new_oid);
        match old_oid {
            Some(old) => {
                c = c.arg(old);
            },
            None => {},
        }
        proof {
            match old_oid {
                Some(o) => assert(views(c.args@) =~= seq!["update-ref"@, refname@, new_oid@, o@]),
                None => assert(views(c.args@) =~= seq!["update-ref"@, refname@, new_oid@]),
            }
        }
        c.run()?;
        self.memoizer.clear();
        Ok(())
    }
}

} // verus!
