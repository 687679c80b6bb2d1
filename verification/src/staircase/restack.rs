//! Restacking: moving the steps of a staircase onto a new base, by replaying
//! their commits with `git merge-tree` and `git commit-tree` (manual) or with
//! `git rebase`.

use vstd::prelude::*;
use crate::error::{Result, StaircaseError};
use crate::git::command::GitCommand;
use crate::git::repo::GitRepo;
use crate::model::Step;
use crate::text::{cat, cat3, views, lines, lines_of, owned, str_eq, strip_prefix, trim, trim_str, words, words_of};

verus! {

/// How commits are moved onto a new base.
#[derive(Debug, Clone, Copy, PartialEq, Eq, Structural)]
pub enum RestackStrategy {
    Manual,
    Rebase,
}

/// How a restack runs: its strategy, and whether it stops after the first
/// step it moves, leaving the steps above it stale.
#[derive(Debug, Clone, Copy, PartialEq, Eq, Structural)]
pub struct RestackOptions {
    pub strategy: RestackStrategy,
    pub leave_upper_steps_stale: bool,
}

/// Author, committer and parents of a commit, as `git log` prints them.
#[derive(Debug, Clone, PartialEq, Eq)]
pub struct CommitMetadata {
    pub author_name: String,
    pub author_email: String,
    pub author_date: String,
    pub committer_name: String,
    pub committer_email: String,
    pub committer_date: String,
    pub parents: Vec<String>,
}

/// The message for commit metadata with fewer than six lines.
pub open spec fn metadata_error(commit: Seq<char>) -> Seq<char> {
    "Failed to parse metadata for commit "@ + commit
}

/// The message for a commit without parents.
pub open spec fn no_parent_error(commit: Seq<char>) -> Seq<char> {
    "Commit "@ + commit + " has no parents, cannot restack manually"@
}

/// The parents that the seventh line of commit metadata lists.
pub open spec fn metadata_parents(ls: Seq<Seq<char>>) -> Seq<Seq<char>> {
    if ls.len() >= 7 {
        words(ls[6])
    } else {
        seq![]
    }
}

/// Reads `git log -1 --format=%an%n%ae%n%at%n%cn%n%ce%n%ct%n%P` output for
/// `commit`: six lines of author and committer, then the parents. Fewer
/// than six lines, or no parent, is an error.
pub fn parse_commit_metadata(commit: &str, metadata: &str) -> (r: Result<CommitMetadata>)
    ensures
        lines(metadata@).len() < 6 ==> (r matches Err(StaircaseError::Other(m)) && m@ == metadata_error(commit@)),
        lines(metadata@).len() >= 6 && metadata_parents(lines(metadata@)).len() == 0 ==> (r matches Err(
            StaircaseError::Other(m)) && m@ == no_parent_error(commit@)),
        lines(metadata@).len() >= 6 && metadata_parents(lines(metadata@)).len() > 0 ==> (r matches Ok(md) && {
            let ls = lines(metadata@);
            &&& md.author_name@ == ls[0]
            &&& md.author_email@ == ls[1]
            &&& md.author_date@ == ls[2]
            &&& md.committer_name@ == ls[3]
            &&& md.committer_email@ == ls[4]
            &&& md.committer_date@ == ls[5]
            &&& crate::text::views(md.parents@) == metadata_parents(ls)
        }),
{
    let ls = lines_of(metadata);
    proof {
        assert(crate::text::views(ls@).len() == ls@.len());
    }
    if ls.len() < 6 {
        return Err(StaircaseError::Other(cat("Failed to parse metadata for commit ", commit)));
    }
    let parents = if ls.len() >= 7 {
        words_of(ls[6].as_str())
    } else {
        Vec::new()
    };
    proof {
        assert(crate::text::views(parents@) =~= metadata_parents(lines(metadata@)));
    }
    if parents.len() == 0 {
        return Err(StaircaseError::Other(cat3("Commit ", commit, " has no parents, cannot restack manually")));
    }
    Ok(CommitMetadata {
        author_name: ls[0].clone(),
        author_email: ls[1].clone(),
        author_date: ls[2].clone(),
        committer_name: ls[3].clone(),
        committer_email: ls[4].clone(),
        committer_date: ls[5].clone(),
        parents,
    })
}

/// The tree that `git merge-tree --write-tree` reports: its first line,
/// trimmed; none when empty.
pub open spec fn merge_tree_result(stdout: Seq<char>) -> Seq<char> {
    if lines(stdout).len() > 0 {
        trim(lines(stdout)[0])
    } else {
        seq![]
    }
}

/// The tree of a successful merge of `commit`, or an error when the output
/// names none.
pub fn merged_tree(commit: &str, stdout: &str) -> (r: Result<String>)
    ensures
        merge_tree_result(stdout@).len() > 0 ==> (r matches Ok(t) && t@ == merge_tree_result(stdout@)),
        merge_tree_result(stdout@).len() == 0 ==> (r matches Err(StaircaseError::Other(m))
            && m@ == "Failed to get tree OID from merge-tree for commit "@ + commit@),
{
    let ls = lines_of(stdout);
    proof {
        assert(crate::text::views(ls@).len() == ls@.len());
    }
    let tree = if ls.len() > 0 {
        trim_str(ls[0].as_str())
    } else {
        String::new()
    };
    if tree.unicode_len() == 0 {
        return Err(StaircaseError::Other(cat("Failed to get tree OID from merge-tree for commit ", commit)));
    }
    Ok(tree)
}

/// The `-p` arguments of the parents after the first.
pub open spec fn other_parent_args(parents: Seq<Seq<char>>) -> Seq<Seq<char>>
    decreases parents.len(),
{
    if parents.len() <= 1 {
        seq![]
    } else {
        other_parent_args(parents.drop_last()) + seq!["-p"@, parents.last()]
    }
}

/// The arguments of the `commit-tree` that replays a commit with `parents`
/// as tree `tree` on `base`, with `message`.
pub open spec fn replay_args(tree: Seq<char>, base: Seq<char>, parents: Seq<Seq<char>>, message: Seq<char>) -> Seq<Seq<char>> {
    seq!["commit-tree"@, tree, "-p"@, base] + other_parent_args(parents) + seq!["-m"@, message]
}

/// The author and committer that a replayed commit keeps.
pub open spec fn replay_env(md: CommitMetadata) -> Map<Seq<char>, Seq<char>> {
    map![
        "GIT_AUTHOR_NAME"@ => md.author_name@,
        "GIT_AUTHOR_EMAIL"@ => md.author_email@,
        "GIT_AUTHOR_DATE"@ => md.author_date@,
        "GIT_COMMITTER_NAME"@ => md.committer_name@,
        "GIT_COMMITTER_EMAIL"@ => md.committer_email@,
        "GIT_COMMITTER_DATE"@ => md.committer_date@,
    ]
}

/// The message when a commit does not merge cleanly onto the new base.
pub open spec fn replay_conflict_message(commit: Seq<char>) -> Seq<char> {
    "Conflict detected while restacking commit "@ + commit + ". Manual restack aborted to prevent data corruption."@
}

/// `m` is a message with which the replay of `commit` can fail.
pub open spec fn replay_failure(commit: Seq<char>, m: Seq<char>) -> bool {
    ||| m == metadata_error(commit)
    ||| m == no_parent_error(commit)
    ||| m == replay_conflict_message(commit)
    ||| m == "Failed to get tree OID from merge-tree for commit "@ + commit
}

/// The `commit-tree` command that replays a commit with metadata `md` as
/// tree `tree` on `base`: its first parent becomes `base`, its other
/// parents stay, and its message, author and committer are kept.
pub fn replay_command<'a>(repo: &'a GitRepo, tree: &str, base: &str, md: &CommitMetadata, message: &str) -> (c: GitCommand<'a>)
    requires
        md.parents@.len() > 0,
    ensures
        views(c.args@) == replay_args(tree@, base@, views(md.parents@), message@),
        c.envs.view().dom() == replay_env(*md).dom(),
        forall|k: Seq<char>| #[trigger] c.envs.view().contains_key(k) ==> c.envs.view()[k]@ == replay_env(*md)[k],
        c.repo == repo && c.stdin is None && !c.interactive && c.check_status && c.trim,
{
    let mut cmd = repo.command().arg("commit-tree").arg(tree).arg("-p").arg(base);
    proof {
        reveal_with_fuel(other_parent_args, 2);
        assert(views(md.parents@).take(1).len() == 1);
        assert(views(cmd.args@) =~= seq!["commit-tree"@, tree@, "-p"@, base@] + other_parent_args(views(md.parents@).take(1)));
    }
    let mut i: usize = 1;
    while i < md.parents.len()
        invariant
            1 <= i <= md.parents@.len(),
            views(cmd.args@) == seq!["commit-tree"@, tree@, "-p"@, base@] + other_parent_args(views(md.parents@).take(i as int)),
            cmd.repo == repo && cmd.stdin is None && !cmd.interactive && cmd.check_status && cmd.trim,
            cmd.envs.view() == Map::<Seq<char>, String>::empty(),
        decreases md.parents@.len() - i,
    {
        cmd = cmd.arg("-p").arg(md.parents[i].as_str());
        proof {
            let ps = views(md.parents@);
            assert(ps.take(i + 1).drop_last() =~= ps.take(i as int));
            assert(ps.take(i + 1).last() == md.parents@[i as int]@);
            assert(views(cmd.args@) =~= seq!["commit-tree"@, tree@, "-p"@, base@] + other_parent_args(ps.take(i + 1)));
        }
        i += 1;
    }
    proof {
        assert(views(md.parents@).take(md.parents@.len() as int) =~= views(md.parents@));
    }
    let cmd = cmd.arg("-m").arg(message);
    proof {
        assert(views(cmd.args@) =~= replay_args(tree@, base@, views(md.parents@), message@));
    }
    let cmd = cmd.env("GIT_AUTHOR_NAME", md.author_name.as_str()).env("GIT_AUTHOR_EMAIL", md.author_email.as_str()).env(
        "GIT_AUTHOR_DATE",
        md.author_date.as_str(),
    ).env("GIT_COMMITTER_NAME", md.committer_name.as_str()).env("GIT_COMMITTER_EMAIL", md.committer_email.as_str()).env(
        "GIT_COMMITTER_DATE",
        md.committer_date.as_str(),
    );
    proof {
        reveal_strlit("GIT_AUTHOR_NAME");
        reveal_strlit("GIT_AUTHOR_EMAIL");
        reveal_strlit("GIT_AUTHOR_DATE");
        reveal_strlit("GIT_COMMITTER_NAME");
        reveal_strlit("GIT_COMMITTER_EMAIL");
        reveal_strlit("GIT_COMMITTER_DATE");
        assert(cmd.envs.view().dom() =~= replay_env(*md).dom());
    }
    cmd
}

/// The tip of a chain of replays onto `new_parent` whose new commits are
/// `outputs`, in order: each commit is replayed onto the tip so far, so the
/// tip is the last new commit, or `new_parent` when nothing was replayed.
pub open spec fn chain_tip(new_parent: Seq<char>, outputs: Seq<Seq<char>>) -> Seq<char> {
    if outputs.len() == 0 { new_parent } else { outputs.last() }
}

/// `c` is the commit that a replay reported: the trimmed output of a
/// successful `commit-tree`.
pub open spec fn replayed_commit(c: Seq<char>) -> bool {
    exists|o: Seq<char>| #[trigger] crate::git::command::output_text_of_some_run(true, true, o) && c == trim(o)
}

/// `n` is the tip of replaying, onto `new_parent`, the commits that a
/// listing reported, one new commit (`outputs[k]`) for each listed commit
/// (none when the listing failed).
pub open spec fn replay_chain(new_parent: Seq<char>, outputs: Seq<Seq<char>>, n: Seq<char>) -> bool {
    &&& n == chain_tip(new_parent, outputs)
    &&& forall|k: int| 0 <= k < outputs.len() ==> replayed_commit(#[trigger] outputs[k])
    &&& outputs.len() == 0 || exists|s: Seq<char>| #[trigger] crate::git::command::output_text_of_some_run(true, true, s)
        && lines(s).len() == outputs.len()
}

/// The commit the next replay goes onto (see [`chain_tip`]).
pub fn replay_tip(new_parent: &str, outputs: &Vec<String>) -> (r: String)
    ensures
        r@ == chain_tip(new_parent@, views(outputs@)),
{
    if outputs.len() == 0 {
        owned(new_parent)
    } else {
        outputs[outputs.len() - 1].clone()
    }
}

/// The message that reports a failed restack of step `name`.
pub open spec fn restack_failure(name: Seq<char>, cause: Seq<char>) -> Seq<char> {
    "Restack failed for step '"@ + name + "'. Please resolve conflicts if using Rebase strategy.\nError: "@ + cause
}

/// `m` reports the failed restack of one of `steps`.
pub open spec fn reports_failed_step(steps: Seq<Step>, m: Seq<char>) -> bool {
    exists|i: int| 0 <= i < steps.len() && #[trigger] restack_failure(steps[i].name@, seq![]).is_prefix_of(m)
}

/// Moves steps onto new bases, and puts the original checkout back.
pub struct Restacker<'a> {
    repo: &'a GitRepo,
    original_head: Option<String>,
    original_head_oid: String,
}

/// `steps2` is `steps1` with only the cuts possibly changed.
pub open spec fn same_but_cuts(steps1: Seq<Step>, steps2: Seq<Step>) -> bool {
    &&& steps1.len() == steps2.len()
    &&& forall|i: int| 0 <= i < steps1.len() ==> #[trigger] steps2[i].id == steps1[i].id && steps2[i].name == steps1[i].name
        && steps2[i].branch == steps1[i].branch
}

/// `bases[i]` is the base that step `i` went onto: `base` for the first
/// step, the final cut of step `i - 1` for every later one.
pub open spec fn onto_previous(base: Seq<char>, steps: Seq<Step>, bases: Seq<Seq<char>>) -> bool {
    &&& bases.len() <= steps.len()
    &&& forall|i: int| 0 <= i < bases.len() ==> #[trigger] bases[i] == if i == 0 { base } else { steps[i - 1].cut@ }
}

/// Each step `i` either already sat on its base (`bases[i]` is its
/// recorded parent `old_parents[i]`) or its new cut is the tip of replaying
/// its commits onto `bases[i]` (see `replay_chain`).
pub open spec fn replayed_onto(bases: Seq<Seq<char>>, old_parents: Seq<Seq<char>>, steps: Seq<Step>) -> bool {
    forall|i: int| 0 <= i < bases.len() ==> bases[i] == old_parents[i]
        || exists|outs: Seq<Seq<char>>| #[trigger] replay_chain(bases[i], outs, steps[i].cut@)
}

/// A restack moves the steps in a chain: the bases are the starting base
/// followed by the new cuts of the steps, in order, so each step sits on
/// the step below it as that step now is, never on a base that an earlier
/// move has left behind.
pub proof fn law_restack_chains_steps(base: Seq<char>, steps: Seq<Step>, bases: Seq<Seq<char>>)
    requires
        onto_previous(base, steps, bases),
        bases.len() > 0,
    ensures
        bases == seq![base] + steps.take(bases.len() - 1).map_values(|s: Step| s.cut@),
        forall|i: int| 0 < i < bases.len() ==> bases[i] == steps[i - 1].cut@,
{
    assert(bases =~= seq![base] + steps.take(bases.len() - 1).map_values(|s: Step| s.cut@));
}

impl<'a> Restacker<'a> {
    /// Records the checkout to return to: the current branch (if any) and the
    /// commit of `HEAD`.
    pub fn prepare(repo: &'a GitRepo, steps: &[Step]) -> (r: Result<Self>)
        ensures
            r matches Err(e) ==> (e is Io || e is GitCommandFailed),
    {
        let original_head = repo.current_branch()?;
        let original_head_oid = repo.resolve_commit("HEAD")?;
        let _ = steps;
        Ok(Restacker { repo, original_head, original_head_oid })
    }

    /// The ref or commit to check out to return to the original checkout.
    fn checkout_target(&self) -> (r: String)
        ensures
            r@ == (match self.original_head {
                Some(refname) => if "refs/heads/"@.is_prefix_of(refname@) { refname@.skip(11) } else { refname@ },
                None => self.original_head_oid@,
            }),
    {
        proof {
            reveal_strlit("refs/heads/");
        }
        match &self.original_head {
            Some(refname) => match strip_prefix(refname.as_str(), "refs/heads/") {
                Some(short) => short,
                None => refname.clone(),
            },
            None => self.original_head_oid.clone(),
        }
    }

    /// Abandons a restack: aborts a rebase in progress and returns to the
    /// original checkout, ignoring failures.
    pub fn rollback(&self) {
        let _ = self.repo.run(&["rebase", "--abort"]);
        self.restore_head_silent();
    }

    fn restore_head_silent(&self) {
        let target = self.checkout_target();
        let _ = self.repo.run(&["checkout", target.as_str()]);
    }

    /// Returns to the original checkout.
    pub fn finalize(&self) -> (r: Result<()>) {
        let target = self.checkout_target();
        self.repo.run(&["checkout", target.as_str()])?;
        Ok(())
    }

    /// Replays one commit onto `base` by hand: merges it with
    /// `git merge-tree` against its first parent and commits the tree with
    /// its author, committer, message and its other parents.
    fn replay_commit(&self, commit: &str, base: &str) -> (r: Result<String>)
        ensures
            r matches Err(StaircaseError::Other(m)) ==> replay_failure(commit@, m@),
            r matches Err(e) ==> (e is Io || e is GitCommandFailed || e is Other),
            r matches Ok(c) ==> exists|o: Seq<char>| #[trigger] crate::git::command::output_text_of_some_run(true, true, o)
                && c@ == trim(o),
    {
        let metadata = self.repo.run(&["log", "-1", "--format=%an%n%ae%n%at%n%cn%n%ce%n%ct%n%P", commit])?;
        let md = parse_commit_metadata(commit, metadata.as_str())?;
        let merge_base = md.parents[0].as_str();
        let merge_output = self.repo.command().args(
            &["merge-tree", "--write-tree", "--merge-base", merge_base, base, commit],
        ).check_status(false).run_output()?;
        if !merge_output.success {
            let mut m = cat("Conflict detected while restacking commit ", commit);
            m.append(". Manual restack aborted to prevent data corruption.");
            return Err(StaircaseError::Other(m));
        }
        let tree = merged_tree(commit, merge_output.stdout.as_str())?;
        let msg = self.repo.run(&["log", "-1", "--format=%B", commit])?;
        let new_c = replay_command(self.repo, tree.as_str(), base, &md, msg.as_str()).run()?;
        Ok(trim_str(new_c.as_str()))
    }

    /// Moves `step`, whose commits are `old_parent..actual_oid`, onto
    /// `new_parent`, and returns its new tip. Manually, each commit is
    /// replayed in turn (when the range cannot be listed, nothing is replayed
    /// and the tip is `new_parent`); with rebase, the step's branch (if it
    /// exists, else its commit) is rebased and the tip is the new `HEAD`.
    pub fn restack_step(
        &self,
        step: &Step,
        actual_oid: &str,
        old_parent: &str,
        new_parent: &str,
        strategy: RestackStrategy,
    ) -> (r: Result<String>)
        ensures
            strategy is Manual ==> (r matches Err(StaircaseError::Other(m)) ==> exists|c: Seq<char>| #[trigger] replay_failure(c, m@)),
            strategy is Manual ==> (r matches Err(e) ==> (e is Io || e is GitCommandFailed || e is Other)),
            strategy is Manual ==> (r matches Ok(n) ==> exists|outputs: Seq<Seq<char>>| #[trigger] replay_chain(
                new_parent@,
                outputs,
                n@,
            )),
    {
        match strategy {
            RestackStrategy::Manual => {
                let mut outputs: Vec<String> = Vec::new();
                match self.repo.commits_between(old_parent, actual_oid) {
                    Ok(commits) => {
                        let mut k: usize = 0;
                        while k < commits.len()
                            invariant
                                k <= commits@.len(),
                                outputs@.len() == k,
                                forall|j: int| 0 <= j < k ==> replayed_commit(#[trigger] views(outputs@)[j]),
                                exists|s: Seq<char>| #[trigger] crate::git::command::output_text_of_some_run(true, true, s)
                                    && views(commits@) == lines(s),
                            decreases commits@.len() - k,
                        {
                            let base = replay_tip(new_parent, &outputs);
                            let c = match self.replay_commit(commits[k].as_str(), base.as_str()) {
                                Ok(c) => c,
                                Err(e) => {
                                    proof {
                                        if e is Other {
                                            assert(replay_failure(commits@[k as int]@, e->Other_0@));
                                        }
                                    }
                                    return Err(e);
                                },
                            };
                            let ghost before = outputs@;
                            outputs.push(c);
                            proof {
                                crate::text::lemma_views_push(before, c);
                            }
                            k += 1;
                        }
                        proof {
                            assert(views(commits@).len() == commits@.len());
                        }
                    },
                    Err(_) => {},
                }
                let tip = replay_tip(new_parent, &outputs);
                let ghost tv = tip@;
                proof {
                    assert(replay_chain(new_parent@, views(outputs@), tv));
                }
                let out: Result<String> = Ok(tip);
                proof {
                    assert(out matches Ok(n) && n@ == tv);
                }
                out
            },
            RestackStrategy::Rebase => {
                let mut rebase_target = owned(actual_oid);
                match &step.branch {
                    Some(branch_name) => {
                        let full = cat("refs/heads/", branch_name.as_str());
                        if self.repo.resolve_commit_opt(full.as_str())?.is_some() {
                            rebase_target = branch_name.clone();
                        }
                    },
                    None => {},
                }
                self.repo.run_interactive(&["rebase", "--onto", new_parent, old_parent, rebase_target.as_str()])?;
                self.repo.resolve_commit("HEAD")
            },
        }
    }

    /// Restacks `steps` in order onto `base_oid`: a step whose recorded
    /// parent (`old_parent_oids[i]`) is not the current base, or whose commit
    /// does not descend from it, is moved and its cut updated; any other step
    /// keeps its commit, which becomes the next base. With
    /// `leave_upper_steps_stale` the first step moved ends the restack, and
    /// its index is returned. A failed move is reported for its step.
    pub fn perform_restack(
        &self,
        staircase_id: &str,
        steps: &mut Vec<Step>,
        base_oid: &str,
        old_parent_oids: &[String],
        options: &RestackOptions,
    ) -> (r: Result<Option<usize>>)
        requires
            old_parent_oids@.len() >= old(steps)@.len(),
        ensures
            same_but_cuts(old(steps)@, final(steps)@),
            r matches Ok(Some(i)) ==> options.leave_upper_steps_stale && i < old(steps)@.len(),
            r matches Err(StaircaseError::Other(m)) ==> reports_failed_step(old(steps)@, m@),
            r matches Err(e) ==> (e is Io || e is GitCommandFailed || e is Other),
    {
        let (stop, _bases) = self.perform_restack_traced(staircase_id, steps, base_oid, old_parent_oids, options)?;
        Ok(stop)
    }

    /// Restacks `steps` as `perform_restack` does and also returns the base
    /// each step was checked and, when moved, replayed onto, in order: the
    /// first onto `base_oid`, every later one onto the new cut of the step
    /// before it (see `onto_previous`).
    pub fn perform_restack_traced(
        &self,
        staircase_id: &str,
        steps: &mut Vec<Step>,
        base_oid: &str,
        old_parent_oids: &[String],
        options: &RestackOptions,
    ) -> (r: Result<(Option<usize>, Vec<String>)>)
        requires
            old_parent_oids@.len() >= old(steps)@.len(),
        ensures
            same_but_cuts(old(steps)@, final(steps)@),
            r matches Ok((Some(i), _)) ==> options.leave_upper_steps_stale && i < old(steps)@.len(),
            r matches Ok((stop, bases)) ==> {
                &&& bases@.len() == match stop { Some(i) => i + 1, None => old(steps)@.len() as int }
                &&& onto_previous(base_oid@, final(steps)@, views(bases@))
                &&& options.strategy is Manual ==> replayed_onto(views(bases@), views(old_parent_oids@), final(steps)@)
            },
            r matches Err(StaircaseError::Other(m)) ==> reports_failed_step(old(steps)@, m@),
            r matches Err(e) ==> (e is Io || e is GitCommandFailed || e is Other),
    {
        let _ = staircase_id;
        let mut current_base = owned(base_oid);
        let mut bases: Vec<String> = Vec::new();
        let n = steps.len();
        let mut i: usize = 0;
        while i < n
            invariant
                n == old(steps)@.len(),
                i <= n,
                old_parent_oids@.len() >= n,
                same_but_cuts(old(steps)@, steps@),
                steps@.len() == n,
                bases@.len() == i,
                onto_previous(base_oid@, steps@, views(bases@)),
                options.strategy is Manual ==> replayed_onto(views(bases@), views(old_parent_oids@), steps@),
                current_base@ == if i == 0 { base_oid@ } else { steps@[i - 1].cut@ },
            decreases n - i,
        {
            let ghost before_bases = bases@;
            bases.push(current_base.clone());
            proof {
                crate::text::lemma_views_push(before_bases, current_base);
            }
            let actual_oid = self.repo.resolve_commit(steps[i].cut.as_str())?;
            let old_parent_oid = &old_parent_oids[i];
            let should_restack = !str_eq(bases[i].as_str(), old_parent_oid.as_str())
                || !self.repo.is_ancestor(bases[i].as_str(), actual_oid.as_str())?;
            if should_restack {
                let step = steps[i].copy();
                match self.restack_step(&step, actual_oid.as_str(), old_parent_oid.as_str(), bases[i].as_str(), options.strategy) {
                    Ok(new_oid) => {
                        let mut s = steps[i].copy();
                        s.cut = new_oid.clone();
                        let ghost prev = steps@;
                        steps.set(i, s);
                        proof {
                            assert(views(bases@)[i as int] == bases@[i as int]@);
                            if options.strategy is Manual {
                                assert forall|j: int| 0 <= j < bases@.len() implies views(bases@)[j] == views(old_parent_oids@)[j]
                                    || exists|outs: Seq<Seq<char>>| #[trigger] replay_chain(views(bases@)[j], outs, steps@[j].cut@) by {
                                    if j < i {
                                        assert(steps@[j] == prev[j]);
                                        assert(views(bases@)[j] == views(before_bases)[j]);
                                    } else {
                                        assert(exists|o: Seq<Seq<char>>| #[trigger] replay_chain(bases@[i as int]@, o, new_oid@));
                                        let w = choose|o: Seq<Seq<char>>| #[trigger] replay_chain(bases@[i as int]@, o, new_oid@);
                                        assert(steps@[j].cut@ == new_oid@);
                                        assert(replay_chain(views(bases@)[j], w, steps@[j].cut@));
                                    }
                                }
                            }
                        }
                        current_base = new_oid;
                        if options.leave_upper_steps_stale {
                            return Ok((Some(i), bases));
                        }
                    },
                    Err(e) => {
                        let mut m = cat("Restack failed for step '", step.name.as_str());
                        m.append("'. Please resolve conflicts if using Rebase strategy.\nError: ");
                        let ghost head = m@;
                        m.append(e.message().as_str());
                        proof {
                            assert(steps@[i as int].id == old(steps)@[i as int].id);
                            assert(step.name == old(steps)@[i as int].name);
                            assert(head =~= restack_failure(old(steps)@[i as int].name@, seq![]));
                            assert(m@.take(head.len() as int) =~= head);
                            assert(restack_failure(old(steps)@[i as int].name@, seq![]).is_prefix_of(m@));
                            assert(reports_failed_step(old(steps)@, m@));
                        }
                        return Err(StaircaseError::Other(m));
                    },
                }
            } else {
                current_base = actual_oid.clone();
                let ghost prev = steps@;
                if !str_eq(steps[i].cut.as_str(), actual_oid.as_str()) {
                    let mut s = steps[i].copy();
                    s.cut = actual_oid;
                    steps.set(i, s);
                }
                proof {
                    assert(views(bases@)[i as int] == bases@[i as int]@);
                    assert(views(old_parent_oids@)[i as int] == old_parent_oids@[i as int]@);
                    if options.strategy is Manual {
                        assert forall|j: int| 0 <= j < bases@.len() implies views(bases@)[j] == views(old_parent_oids@)[j]
                            || exists|outs: Seq<Seq<char>>| #[trigger] replay_chain(views(bases@)[j], outs, steps@[j].cut@) by {
                            if j < i {
                                assert(steps@[j] == prev[j]);
                                assert(views(bases@)[j] == views(before_bases)[j]);
                            }
                        }
                    }
                }
            }
            i += 1;
        }
        Ok((None, bases))
    }
}

} // verus!
