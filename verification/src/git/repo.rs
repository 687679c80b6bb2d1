//! A Git repository: its worktree, its memoizer and the host that runs `git`.

use vstd::prelude::*;
use std::path::PathBuf;
use super::command::GitCommand;
use super::host::RepoHost;
use super::types::{CommandOutput, GitRequest};
use crate::error::{Result, StaircaseError};
use crate::memoization::{MemoKey, Memoizable, Memoizer};
use crate::text::{starts_with, str_eq, views};

verus! {

/// `std::path::PathBuf`, carried opaquely.
#[verifier::external_type_specification]
#[verifier::external_body]
pub struct ExPathBuf(std::path::PathBuf);

/// Calls `PathBuf::from` on `text`.
#[verifier::external_body]
pub(crate) fn path_from(text: String) -> PathBuf {
    PathBuf::from(text)
}

/// Calls `Path::join` on `base` and `tail`.
#[verifier::external_body]
pub(crate) fn path_join(base: &PathBuf, tail: &str) -> PathBuf {
    base.join(tail)
}

/// Calls `Path::canonicalize` on `path` and returns the result as text
/// (lossily decoded). The result depends on the file system, so nothing is
/// stated of it.
#[verifier::external_body]
pub(crate) fn canonical_text(path: &PathBuf) -> std::io::Result<String> {
    path.canonicalize().map(|p| p.to_string_lossy().into_owned())
}

/// Calls `Path::to_string_lossy` on `path` and returns the text. Nothing
/// is stated of it.
#[verifier::external_body]
pub(crate) fn path_text(path: &PathBuf) -> String {
    path.to_string_lossy().into_owned()
}

/// A Git repository.
pub struct GitRepo {
    pub workdir: PathBuf,
    pub memoizer: Memoizer,
    pub(crate) host: Box<dyn RepoHost>,
}

impl GitRepo {
    /// The worktree the repository works in.
    pub closed spec fn root(&self) -> PathBuf {
        self.workdir
    }

    /// The memoizer the repository memoizes through.
    pub closed spec fn memo(&self) -> Memoizer {
        self.memoizer
    }

    /// A repository at `workdir` whose `git` invocations and local state go to `host`,
    /// with a fresh in-process memoizer.
    pub fn new<H: RepoHost + 'static>(workdir: PathBuf, host: H) -> (r: Self)
        ensures
            r.root() == workdir,
    {
        GitRepo { workdir, memoizer: Memoizer::new(), host: Box::new(host) }
    }

    /// A repository at `workdir` that memoizes through `memoizer`.
    pub fn with_memoizer<H: RepoHost + 'static>(
        workdir: PathBuf,
        memoizer: Memoizer,
        host: H,
    ) -> (r: Self)
        ensures
            r.root() == workdir,
            r.memo() == memoizer,
    {
        GitRepo { workdir, memoizer, host: Box::new(host) }
    }

    /// Hands one request to the host.
    pub fn execute(&self, request: &GitRequest) -> std::io::Result<CommandOutput> {
        self.host.execute(request)
    }

    /// A new command for this repository.
    pub fn command(&self) -> (c: GitCommand<'_>)
        ensures
            c.repo == self,
            c.args@.len() == 0,
            c.stdin is None,
            !c.interactive,
            c.check_status,
            c.trim,
            c.envs.view() == Map::<Seq<char>, String>::empty(),
    {
        GitCommand::new(self)
    }

    /// Runs `git` with `args`, checking the exit status; the output is trimmed
    /// unless the subcommand is `cat-file`.
    pub fn run(&self, args: &[&str]) -> (r: Result<String>)
        ensures
            r matches Err(StaircaseError::GitCommandFailed { command, .. }) ==> command@
                == super::command::command_line(args@.map_values(|a: &str| a@)),
            r matches Err(e) ==> (e is Io || e is GitCommandFailed),
            r matches Ok(s) ==> super::command::output_text_of_some_run(
                true,
                !(args@.len() > 0 && args@[0]@ == "cat-file"@),
                s@,
            ),
    {
        let trim = !(args.len() > 0 && str_eq(args[0], "cat-file"));
        let c = self.command().args(args);
        proof {
            assert(views(c.args@) =~= args@.map_values(|a: &str| a@));
        }
        c.trim(trim).run()
    }

    /// Runs `git` with `args` and `stdin` as standard input.
    pub fn run_with_stdin(&self, args: &[&str], stdin: &str) -> (r: Result<String>)
        ensures
            r matches Err(StaircaseError::GitCommandFailed { command, .. }) ==> command@
                == super::command::command_line(args@.map_values(|a: &str| a@)),
    {
        let c = self.command().args(args);
        proof {
            assert(views(c.args@) =~= args@.map_values(|a: &str| a@));
        }
        c.stdin(stdin).run()
    }

    /// Runs `git` with `args` attached to the terminal.
    pub fn run_interactive(&self, args: &[&str]) -> (r: Result<()>)
        ensures
            r matches Err(StaircaseError::GitCommandFailed { command, .. }) ==> command@
                == super::command::command_line(args@.map_values(|a: &str| a@)),
    {
        let c = self.command().args(args);
        proof {
            assert(views(c.args@) =~= args@.map_values(|a: &str| a@));
        }
        c.interactive(true).run_output()?;
        Ok(())
    }

    /// The memoized value of `key`, or else the result of `f`, memoized when
    /// `f` succeeds; without a key, just the result of `f`.
    pub fn memoized<T: Memoizable, F: FnOnce() -> Result<T>>(&self, key: Option<MemoKey>, f: F) -> (r:
        Result<T>)
        requires
            f.requires(()),
        ensures
            key is None ==> f.ensures((), r),
            r matches Err(e) ==> f.ensures((), Err(e)),
            r matches Ok(v) ==> f.ensures((), Ok(v)) || exists|m| T::spec_decode(m) == Some(v),
    {
        match key {
            Some(k) => {
                let op = self.memoizer.op::<T>(k);
                op.get_or_compute(f)
            },
            None => f(),
        }
    }

    /// `memoized` under the key that `key_of` gives for `rev`, except for `HEAD`,
    /// which is never memoized.
    pub fn memoized_rev<T: Memoizable, K: FnOnce(&str) -> MemoKey, F: FnOnce() -> Result<T>>(
        &self,
        rev: &str,
        key_of: K,
        f: F,
    ) -> (r: Result<T>)
        requires
            f.requires(()),
            key_of.requires((rev,)),
        ensures
            rev@ == "HEAD"@ ==> f.ensures((), r),
            r matches Err(e) ==> f.ensures((), Err(e)),
            r matches Ok(v) ==> f.ensures((), Ok(v)) || exists|m| T::spec_decode(m) == Some(v),
    {
        let key = if !str_eq(rev, "HEAD") {
            Some(key_of(rev))
        } else {
            None
        };
        self.memoized(key, f)
    }

    /// The object format of the repository (`sha1` or `sha256`), memoized.
    pub fn get_object_format(&self) -> (r: Result<String>) {
        let op = self.memoizer.ObjectFormat();
        match op.get() {
            Some(fmt) => return Ok(fmt),
            None => {},
        }
        let fmt = self.command().args(&["rev-parse", "--show-object-format"]).run()?;
        op.put(fmt.clone());
        Ok(fmt)
    }

    /// `raw` when it is an absolute path, else `raw` under the worktree.
    fn anchored(&self, raw: String) -> PathBuf {
        if starts_with(raw.as_str(), "/") {
            path_from(raw)
        } else {
            path_join(&self.workdir, raw.as_str())
        }
    }

    /// The canonical path of the repository's object directory, which
    /// identifies the repository across its worktrees.
    pub fn repository_identity(&self) -> (r: Result<String>)
        ensures
            r matches Err(e) ==> (e is Io || e is GitCommandFailed),
    {
        let raw = self.command().args(&["rev-parse", "--git-path", "objects"]).run()?;
        let path = self.anchored(raw);
        match canonical_text(&path) {
            Ok(text) => Ok(text),
            Err(e) => Err(StaircaseError::Io(e)),
        }
    }

    /// The Git directory of the worktree.
    pub fn git_dir(&self) -> (r: Result<PathBuf>)
        ensures
            r matches Err(e) ==> (e is Io || e is GitCommandFailed),
    {
        let raw = self.command().args(&["rev-parse", "--git-dir"]).run()?;
        Ok(self.anchored(raw))
    }

    /// The Git directory shared by all worktrees.
    pub fn common_dir(&self) -> (r: Result<PathBuf>)
        ensures
            r matches Err(e) ==> (e is Io || e is GitCommandFailed),
    {
        let raw = self.command().args(&["rev-parse", "--git-common-dir"]).run()?;
        Ok(self.anchored(raw))
    }
}

} // verus!
