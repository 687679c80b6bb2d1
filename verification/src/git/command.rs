//! Building a `git` invocation and running it through the repository's host.

use vstd::prelude::*;
use super::repo::GitRepo;
use super::types::{CommandOutput, GitRequest};
use crate::collections::StringMap;
use crate::error::{Result, StaircaseError};
use crate::text::{cat, join, join_strings, owned, trim, trim_str, views};

verus! {

/// A `git` invocation being built for a repository.
pub struct GitCommand<'a> {
    pub repo: &'a GitRepo,
    pub args: Vec<String>,
    pub stdin: Option<String>,
    pub interactive: bool,
    pub check_status: bool,
    pub trim: bool,
    pub envs: StringMap<String>,
}

/// The message of a failed command: `git` and its arguments, space-separated.
pub open spec fn command_line(args: Seq<Seq<char>>) -> Seq<char> {
    "git "@ + join(args, " "@)
}

/// `s` is the text of output `o` of a command that checks its status when
/// `check` holds and trims its output when `trimmed` holds.
pub open spec fn output_text(o: CommandOutput, check: bool, trimmed: bool, s: Seq<char>) -> bool {
    &&& !check || o.success
    &&& s == (if trimmed { trim(o.stdout@) } else { o.stdout@ })
}

/// `s` is the text of the output of some run of a command that checks its
/// status when `check` holds and trims its output when `trimmed` holds.
pub open spec fn output_text_of_some_run(check: bool, trimmed: bool, s: Seq<char>) -> bool {
    exists|o: CommandOutput| #[trigger] output_text(o, check, trimmed, s)
}

impl<'a> GitCommand<'a> {
    /// A command with no arguments that checks the exit status and trims its output.
    pub fn new(repo: &'a GitRepo) -> (c: Self)
        ensures
            c.repo == repo,
            c.args@.len() == 0,
            c.stdin is None,
            !c.interactive,
            c.check_status,
            c.trim,
            c.envs.view().len() == 0,
            c.envs.view() == Map::<Seq<char>, String>::empty(),
    {
        let envs = StringMap::new();
        GitCommand {
            repo,
            args: Vec::new(),
            stdin: None,
            interactive: false,
            check_status: true,
            trim: true,
            envs,
        }
    }

    /// The command with `arg` appended.
    pub fn arg(self, arg: &str) -> (c: Self)
        ensures
            views(c.args@) == views(self.args@).push(arg@),
            c.repo == self.repo,
            c.stdin == self.stdin,
            c.interactive == self.interactive,
            c.check_status == self.check_status,
            c.trim == self.trim,
            c.envs.view() == self.envs.view(),
    {
        let mut this = self;
        let ghost before = this.args@;
        this.args.push(owned(arg));
        proof {
            assert(views(this.args@) =~= views(before).push(arg@));
        }
        this
    }

    /// The command with `args` appended in order.
    pub fn args(self, args: &[&str]) -> (c: Self)
        ensures
            views(c.args@) == views(self.args@) + args@.map_values(|a: &str| a@),
            c.repo == self.repo,
            c.stdin == self.stdin,
            c.interactive == self.interactive,
            c.check_status == self.check_status,
            c.trim == self.trim,
            c.envs.view() == self.envs.view(),
    {
        let mut this = self;
        let ghost before = views(this.args@);
        let mut i: usize = 0;
        while i < args.len()
            invariant
                i <= args@.len(),
                views(this.args@) == before + args@.map_values(|a: &str| a@).take(i as int),
                this.repo == self.repo,
                this.stdin == self.stdin,
                this.interactive == self.interactive,
                this.check_status == self.check_status,
                this.trim == self.trim,
                this.envs.view() == self.envs.view(),
            decreases args@.len() - i,
        {
            let ghost prev = this.args@;
            this.args.push(owned(args[i]));
            proof {
                assert(views(this.args@) =~= views(prev).push(args@[i as int]@));
                assert(args@.map_values(|a: &str| a@).take(i + 1) =~= args@.map_values(
                    |a: &str| a@,
                ).take(i as int).push(args@[i as int]@));
            }
            i += 1;
        }
        proof {
            assert(args@.map_values(|a: &str| a@).take(i as int) =~= args@.map_values(|a: &str| a@));
        }
        this
    }

    /// The command with `stdin` as its standard input.
    pub fn stdin(self, stdin: &str) -> (c: Self)
        ensures
            c.stdin matches Some(s) && s@ == stdin@,
            c.repo == self.repo,
            c.args == self.args,
            c.interactive == self.interactive,
            c.check_status == self.check_status,
            c.trim == self.trim,
            c.envs.view() == self.envs.view(),
    {
        let mut this = self;
        this.stdin = Some(owned(stdin));
        this
    }

    /// The command, run attached to the terminal or not.
    pub fn interactive(self, interactive: bool) -> (c: Self)
        ensures
            c.interactive == interactive,
            c.repo == self.repo,
            c.args == self.args,
            c.stdin == self.stdin,
            c.check_status == self.check_status,
            c.trim == self.trim,
            c.envs.view() == self.envs.view(),
    {
        let mut this = self;
        this.interactive = interactive;
        this
    }

    /// The command, failing on a non-zero exit status or not.
    pub fn check_status(self, check: bool) -> (c: Self)
        ensures
            c.check_status == check,
            c.repo == self.repo,
            c.args == self.args,
            c.stdin == self.stdin,
            c.interactive == self.interactive,
            c.trim == self.trim,
            c.envs.view() == self.envs.view(),
    {
        let mut this = self;
        this.check_status = check;
        this
    }

    /// The command, trimming its standard output or not.
    pub fn trim(self, trim: bool) -> (c: Self)
        ensures
            c.trim == trim,
            c.repo == self.repo,
            c.args == self.args,
            c.stdin == self.stdin,
            c.interactive == self.interactive,
            c.check_status == self.check_status,
            c.envs.view() == self.envs.view(),
    {
        let mut this = self;
        this.trim = trim;
        this
    }

    /// The command with environment variable `key` set to `value`.
    pub fn env(self, key: &str, value: &str) -> (c: Self)
        ensures
            c.envs.view() == self.envs.view().insert(key@, c.envs.view()[key@]),
            c.envs.view()[key@]@ == value@,
            c.repo == self.repo,
            c.args == self.args,
            c.stdin == self.stdin,
            c.interactive == self.interactive,
            c.check_status == self.check_status,
            c.trim == self.trim,
    {
        let mut this = self;
        let v = owned(value);
        let ghost vv = v;
        this.envs.insert(owned(key), v);
        proof {
            assert(this.envs.view()[key@] == vv);
        }
        this
    }

    /// The plain request for the host.
    pub fn request(&self) -> (r: GitRequest)
        ensures
            views(r.args@) == views(self.args@),
            r.stdin == self.stdin,
            r.interactive == self.interactive,
            r.envs@.map_values(|e: (String, String)| e.0@) == self.envs.key_seq(),
    {
        let mut args: Vec<String> = Vec::new();
        let mut i: usize = 0;
        while i < self.args.len()
            invariant
                i <= self.args@.len(),
                views(args@) == views(self.args@).take(i as int),
            decreases self.args@.len() - i,
        {
            let ghost prev = args@;
            args.push(self.args[i].clone());
            proof {
                assert(views(args@) =~= views(prev).push(self.args@[i as int]@));
                assert(views(self.args@).take(i + 1) =~= views(self.args@).take(i as int).push(
                    self.args@[i as int]@,
                ));
            }
            i += 1;
        }
        proof {
            assert(views(self.args@).take(i as int) =~= views(self.args@));
        }
        let pairs = self.envs.entries();
        let mut envs: Vec<(String, String)> = Vec::new();
        let mut j: usize = 0;
        while j < pairs.len()
            invariant
                j <= pairs@.len(),
                envs@.map_values(|e: (String, String)| e.0@) == pairs@.map_values(
                    |e: (String, String)| e.0@,
                ).take(j as int),
            decreases pairs@.len() - j,
        {
            let ghost prev = envs@;
            envs.push((pairs[j].0.clone(), pairs[j].1.clone()));
            proof {
                assert(envs@.map_values(|e: (String, String)| e.0@) =~= prev.map_values(
                    |e: (String, String)| e.0@,
                ).push(pairs@[j as int].0@));
                assert(pairs@.map_values(|e: (String, String)| e.0@).take(j + 1) =~= pairs@.map_values(
                    |e: (String, String)| e.0@,
                ).take(j as int).push(pairs@[j as int].0@));
            }
            j += 1;
        }
        proof {
            assert(pairs@.map_values(|e: (String, String)| e.0@).take(j as int) =~= pairs@.map_values(
                |e: (String, String)| e.0@,
            ));
        }
        let stdin = match &self.stdin {
            Some(s) => Some(s.clone()),
            None => None,
        };
        GitRequest { args, stdin, interactive: self.interactive, envs }
    }

    /// Runs the command. When the exit status is checked, a failing command is
    /// reported as `GitCommandFailed` with its command line and output.
    pub fn run_output(self) -> (r: Result<CommandOutput>)
        ensures
            r matches Ok(o) ==> (!self.check_status || o.success),
            r matches Err(e) ==> (e is Io || (self.check_status && e is GitCommandFailed)),
            r matches Err(StaircaseError::GitCommandFailed { command, .. }) ==> command@
                == command_line(views(self.args@)),
    {
        let request = self.request();
        let output = self.repo.execute(&request);
        match output {
            Err(e) => Err(StaircaseError::Io(e)),
            Ok(output) => {
                if self.check_status && !output.success {
                    let command = cat("git ", join_strings(&self.args, " ").as_str());
                    return Err(StaircaseError::GitCommandFailed {
                        command,
                        stdout: output.stdout,
                        stderr: output.stderr,
                    });
                }
                Ok(output)
            },
        }
    }

    /// Runs the command and returns its standard output, trimmed when the
    /// command trims.
    pub fn run(self) -> (r: Result<String>)
        ensures
            r matches Err(e) ==> (e is Io || (self.check_status && e is GitCommandFailed)),
            r matches Err(StaircaseError::GitCommandFailed { command, .. }) ==> command@
                == command_line(views(self.args@)),
            r matches Ok(s) ==> output_text_of_some_run(self.check_status, self.trim, s@),
    {
        let trim = self.trim;
        let ghost check = self.check_status;
        let output = match self.run_output() {
            Ok(o) => o,
            Err(e) => return Err(e),
        };
        let text = if trim {
            trim_str(output.stdout.as_str())
        } else {
            output.stdout.clone()
        };
        assert(output_text(output, check, trim, text@));
        assert(output_text_of_some_run(check, trim, text@));
        Ok(text)
    }
}

} // verus!
