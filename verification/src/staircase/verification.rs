//! Verifying staircases and drafts: which commits are checked out and built,
//! in what order, when the run stops, and what is recorded.

use vstd::prelude::*;
use crate::error::{Result, StaircaseError};
use crate::git::host::ShellOutcome;
use crate::git::repo::GitRepo;
use crate::model::{DraftClassification, IdentityKind, StaircaseMetadata, VerificationResult, WorktreeDraft};
use crate::staircase::draft::get_worktree_draft;
use crate::staircase::identity::compute_identity;
use crate::staircase::persistence::verification::record_verification;
use crate::staircase::resolved::ResolvedStaircase;
use crate::text::{cat, opt_view, owned, str_eq, trim_str};

verus! {

/// Evidence that a draft's staged tree was built and tested.
#[derive(Debug, Clone)]
pub struct DraftVerificationEvidence {
    pub schema: String,
    pub version: u32,
    pub subject_kind: String,
    pub tree_oid: String,
    pub basis_oid: String,
    pub build_command: Option<String>,
    pub test_command: Option<String>,
    pub success: bool,
    pub stdout: String,
    pub stderr: String,
}

/// What running the build and test commands gave: success, and the output
/// of the commands that ran.
pub struct CommandsOutcome {
    pub success: bool,
    pub stdout: String,
    pub stderr: String,
}

/// Whether a command succeeded; one that did not run counts as success.
pub open spec fn ran_ok(o: Option<ShellOutcome>) -> bool {
    match o {
        Some(x) => x.success,
        None => true,
    }
}

/// What a command printed on standard output; nothing when it did not run.
pub open spec fn ran_stdout(o: Option<ShellOutcome>) -> Seq<char> {
    match o {
        Some(x) => x.stdout@,
        None => seq![],
    }
}

/// What a command printed on standard error; nothing when it did not run.
pub open spec fn ran_stderr(o: Option<ShellOutcome>) -> Seq<char> {
    match o {
        Some(x) => x.stderr@,
        None => seq![],
    }
}

/// The outcome of the build and the test commands from what each reported
/// (none: not run): success when each one that ran succeeded, with the
/// output of the build, then of the test.
pub fn commands_outcome(build: &Option<ShellOutcome>, test: &Option<ShellOutcome>) -> (o: CommandsOutcome)
    ensures
        o.success == (ran_ok(*build) && ran_ok(*test)),
        o.stdout@ == ran_stdout(*build) + ran_stdout(*test),
        o.stderr@ == ran_stderr(*build) + ran_stderr(*test),
{
    let (b_ok, b_out, b_err) = match build {
        Some(x) => (x.success, x.stdout.as_str(), x.stderr.as_str()),
        None => (true, "", ""),
    };
    let (t_ok, t_out, t_err) = match test {
        Some(x) => (x.success, x.stdout.as_str(), x.stderr.as_str()),
        None => (true, "", ""),
    };
    proof {
        reveal_strlit("");
    }
    CommandsOutcome { success: b_ok && t_ok, stdout: cat(b_out, t_out), stderr: cat(b_err, t_err) }
}

/// `b` and `t` are what the build and test commands reported (none: not
/// run) when the test runs only after a build that succeeded, and
/// `success` holds when each one that ran succeeded.
pub open spec fn runs_of(build: Option<String>, test: Option<String>, b: Option<ShellOutcome>, t: Option<ShellOutcome>, success: bool) -> bool {
    &&& (b is Some <==> build is Some)
    &&& (t is Some <==> (test is Some && ran_ok(b)))
    &&& (ran_ok(b) && ran_ok(t)) == success
}

/// Some reports of the build and test commands give `success` (see `runs_of`).
pub open spec fn build_then_test(build: Option<String>, test: Option<String>, success: bool) -> bool {
    exists|b: Option<ShellOutcome>, t: Option<ShellOutcome>| #[trigger] runs_of(build, test, b, t, success)
}

/// Runs the build command, then the test command if the build succeeded
/// (a missing command counts as success), in the worktree; see
/// `commands_outcome`.
pub fn run_commands(repo: &GitRepo, build: &Option<String>, test: &Option<String>) -> (r: Result<CommandsOutcome>)
    ensures
        build is None && test is None ==> (r matches Ok(o) && o.success && o.stdout@.len() == 0
            && o.stderr@.len() == 0),
        r matches Err(e) ==> e is Io,
        r matches Ok(o) ==> build_then_test(*build, *test, o.success),
{
    let b: Option<ShellOutcome> = match build {
        Some(cmd) => match repo.host.run_shell(cmd.as_str()) {
            Ok(o) => Some(o),
            Err(e) => return Err(StaircaseError::Io(e)),
        },
        None => None,
    };
    let build_ok = match &b {
        Some(x) => x.success,
        None => true,
    };
    let t: Option<ShellOutcome> = if build_ok {
        match test {
            Some(cmd) => match repo.host.run_shell(cmd.as_str()) {
                Ok(o) => Some(o),
                Err(e) => return Err(StaircaseError::Io(e)),
            },
            None => None,
        }
    } else {
        None
    };
    let o = commands_outcome(&b, &t);
    proof {
        assert(build_ok == ran_ok(b));
        assert(b is Some <==> build is Some);
        assert(t is Some <==> (test is Some && ran_ok(b)));
        assert((ran_ok(b) && ran_ok(t)) == o.success);
        assert(runs_of(*build, *test, b, t, o.success));
    }
    let ghost so = o.success;
    let out: Result<CommandsOutcome> = Ok(o);
    proof {
        assert(out matches Ok(n) && n.success == so);
        assert(build_then_test(*build, *test, so));
    }
    out
}

/// Whether each prefix of the staircase is verified rather than the whole:
/// as asked, else not when only the aggregate is asked for, else as the
/// staircase's policy says (not, without a policy).
pub open spec fn spec_verify_each(metadata: StaircaseMetadata, aggregate_only: Option<bool>, each_prefix: Option<bool>) -> bool {
    match each_prefix {
        Some(b) => b,
        None => if aggregate_only == Some(true) {
            false
        } else {
            match metadata.verification_policy {
                Some(p) => p.verify_each_prefix,
                None => false,
            }
        },
    }
}

/// The commits verified, with the name each result carries: each step's cut
/// under its name, or the top cut as `Aggregate`.
pub open spec fn spec_targets(metadata: StaircaseMetadata, each: bool) -> Seq<(Seq<char>, Seq<char>)> {
    if each {
        Seq::new(metadata.steps@.len(), |i: int| (metadata.steps@[i].name@, metadata.steps@[i].cut@))
    } else if metadata.steps@.len() > 0 {
        seq![("Aggregate"@, metadata.steps@.last().cut@)]
    } else {
        seq![]
    }
}

/// The commits verified (see `spec_targets`).
pub fn verification_targets(metadata: &StaircaseMetadata, each: bool) -> (r: Vec<(String, String)>)
    ensures
        r@.len() == spec_targets(*metadata, each).len(),
        forall|i: int| 0 <= i < r@.len() ==> (#[trigger] r@[i]).0@ == spec_targets(*metadata, each)[i].0
            && r@[i].1@ == spec_targets(*metadata, each)[i].1,
{
    let mut targets: Vec<(String, String)> = Vec::new();
    if each {
        let mut i: usize = 0;
        while i < metadata.steps.len()
            invariant
                each,
                i <= metadata.steps@.len(),
                targets@.len() == i,
                forall|j: int| 0 <= j < i ==> (#[trigger] targets@[j]).0@ == spec_targets(*metadata, each)[j].0
                    && targets@[j].1@ == spec_targets(*metadata, each)[j].1,
            decreases metadata.steps@.len() - i,
        {
            targets.push((metadata.steps[i].name.clone(), metadata.steps[i].cut.clone()));
            i += 1;
        }
    } else if metadata.steps.len() > 0 {
        targets.push((owned("Aggregate"), metadata.steps[metadata.steps.len() - 1].cut.clone()));
    }
    targets
}

/// Whether `results` verified `targets` in order, stopping at the first
/// failure: one result per target up to and including the first that
/// failed, each carrying its target's name and cut.
pub open spec fn verified_in_order(results: Seq<VerificationResult>, targets: Seq<(Seq<char>, Seq<char>)>) -> bool {
    &&& 0 < results.len() <= targets.len()
    &&& forall|i: int| 0 <= i < results.len() ==> (#[trigger] results[i]).step_name@ == targets[i].0
        && results[i].cut@ == targets[i].1
    &&& forall|i: int| 0 <= i < results.len() - 1 ==> (#[trigger] results[i]).success
    &&& results.len() < targets.len() ==> !results.last().success
}

/// Checks out and verifies each target in turn, stopping after the first
/// failure.
fn verify_targets(repo: &GitRepo, targets: &Vec<(String, String)>, build: &Option<String>, test: &Option<String>) -> (r: Result<Vec<VerificationResult>>)
    requires
        targets@.len() > 0,
    ensures
        r matches Ok(results) ==> verified_in_order(results@, Seq::new(targets@.len(), |i: int| (targets@[i].0@, targets@[i].1@))),
{
    let ghost ts = Seq::new(targets@.len(), |i: int| (targets@[i].0@, targets@[i].1@));
    let mut results: Vec<VerificationResult> = Vec::new();
    let mut i: usize = 0;
    while i < targets.len()
        invariant
            ts == Seq::new(targets@.len(), |i: int| (targets@[i].0@, targets@[i].1@)),
            i <= targets@.len(),
            results@.len() == i,
            forall|j: int| 0 <= j < i ==> (#[trigger] results@[j]).step_name@ == ts[j].0 && results@[j].cut@ == ts[j].1,
            forall|j: int| 0 <= j < i ==> (#[trigger] results@[j]).success,
        decreases targets@.len() - i,
    {
        let cut = targets[i].1.as_str();
        repo.run(&["checkout", cut])?;
        let outcome = run_commands(repo, build, test)?;
        let success = outcome.success;
        results.push(VerificationResult {
            step_name: targets[i].0.clone(),
            cut: targets[i].1.clone(),
            success,
            stdout: outcome.stdout,
            stderr: outcome.stderr,
        });
        if !success {
            return Ok(results);
        }
        i += 1;
    }
    Ok(results)
}

/// The message when commits are verified with a draft in the worktree.
pub open spec fn dirty_worktree_message() -> Seq<char> {
    "commit verification requires a clean worktree; use verify --draft for staged work"@
}

/// Verifies the staircase's commits in a clean worktree: each target (see
/// `spec_targets` and `spec_verify_each`) is checked out and built and
/// tested with the given commands (else the policy's), stopping at the
/// first failure; the worktree goes back to the branch or commit it was
/// on, and the results are recorded under the staircase's lineage
/// (managed) or revision identity.
pub fn verify(
    repo: &GitRepo,
    rs: &ResolvedStaircase,
    build_command_override: Option<String>,
    test_command_override: Option<String>,
    aggregate_only: Option<bool>,
    each_prefix: Option<bool>,
) -> (r: Result<Vec<VerificationResult>>)
    requires
        !(*rs is ImplicitFamily),
    ensures
        r matches Ok(results) ==> exists|m: StaircaseMetadata| (*rs == ResolvedStaircase::Managed(m)
            || *rs == ResolvedStaircase::Implicit(m)) && verified_in_order(results@,
            spec_targets(m, spec_verify_each(m, aggregate_only, each_prefix))),
{
    let draft = get_worktree_draft(repo)?;
    if draft.classification != DraftClassification::Clean {
        return Err(StaircaseError::Other(owned(
            "commit verification requires a clean worktree; use verify --draft for staged work",
        )));
    }
    let s = rs.metadata();
    let build_cmd = match build_command_override {
        Some(c) => Some(c),
        None => match &s.verification_policy {
            Some(p) => p.build_command.clone(),
            None => None,
        },
    };
    let test_cmd = match test_command_override {
        Some(c) => Some(c),
        None => match &s.verification_policy {
            Some(p) => p.test_command.clone(),
            None => None,
        },
    };
    let verify_each = match each_prefix {
        Some(b) => b,
        None => {
            let aggregate = match aggregate_only {
                Some(b) => b,
                None => false,
            };
            if aggregate {
                false
            } else {
                match &s.verification_policy {
                    Some(p) => p.verify_each_prefix,
                    None => false,
                }
            }
        },
    };
    let targets = verification_targets(s, verify_each);
    if targets.len() == 0 {
        return Err(StaircaseError::Other(owned("No steps to verify")));
    }
    let branch = trim_str(repo.run(&["rev-parse", "--abbrev-ref", "HEAD"])?.as_str());
    let original_ref = if str_eq(branch.as_str(), "HEAD") {
        trim_str(repo.run(&["rev-parse", "HEAD"])?.as_str())
    } else {
        branch
    };
    let outcome = verify_targets(repo, &targets, &build_cmd, &test_cmd);
    let _ = repo.run(&["checkout", original_ref.as_str()]);
    let results = outcome?;
    proof {
        let ts = spec_targets(*s, spec_verify_each(*s, aggregate_only, each_prefix));
        assert(Seq::new(targets@.len(), |i: int| (targets@[i].0@, targets@[i].1@)) =~= ts);
    }
    if rs.is_managed() {
        record_verification(repo, s.id.as_str(), IdentityKind::Lineage, &results)?;
    } else {
        let key = compute_identity(repo, rs, IdentityKind::Revision)?;
        record_verification(repo, key.as_str(), IdentityKind::Revision, &results)?;
    }
    Ok(results)
}

/// The message for a draft with unmerged index entries.
pub open spec fn unmerged_draft_message() -> Seq<char> {
    "cannot verify a draft with unmerged index entries"@
}

/// The message for an index that is not one stage-zero tree.
pub open spec fn no_staged_tree_message() -> Seq<char> {
    "draft index does not resolve to an exact stage-zero tree"@
}

/// Builds and tests the staged tree of `draft` in the worktree: refused
/// during a transient Git operation, with unmerged entries, or without an
/// exact staged tree; otherwise the evidence names the staged tree, the
/// basis and the commands.
pub fn draft_evidence(
    repo: &GitRepo,
    draft: WorktreeDraft,
    build_command: Option<String>,
    test_command: Option<String>,
) -> (r: Result<DraftVerificationEvidence>)
    ensures
        draft.transient_operation matches Some(op) ==> (r matches Err(StaircaseError::ExternalOperation { operation, owner })
            && operation@ == op@ && owner@ == "git "@ + op@ + " --continue|--abort"@),
        draft.transient_operation is None && draft.conflicted_paths@.len() > 0 ==> (r matches Err(StaircaseError::Other(m))
            && m@ == unmerged_draft_message()),
        draft.transient_operation is None && draft.conflicted_paths@.len() == 0 && draft.staged_tree_oid is None
            ==> (r matches Err(StaircaseError::Other(m)) && m@ == no_staged_tree_message()),
        r matches Ok(ev) ==> {
            &&& draft.transient_operation is None && draft.conflicted_paths@.len() == 0
            &&& ev.schema@ == "git-staircase/verification-evidence"@ && ev.version == 1
            &&& ev.subject_kind@ == "draft-index"@
            &&& draft.staged_tree_oid matches Some(t) && ev.tree_oid@ == t@
            &&& ev.basis_oid@ == draft.basis@
            &&& ev.build_command == build_command && ev.test_command == test_command
            &&& (build_command is None && test_command is None ==> ev.success)
            &&& build_then_test(build_command, test_command, ev.success)
        },
        draft.transient_operation is None && draft.conflicted_paths@.len() == 0 && draft.staged_tree_oid is Some
            ==> (r is Ok || (r matches Err(e) && e is Io)),
{
    match draft.transient_operation {
        Some(operation) => {
            let mut owner = cat("git ", operation.as_str());
            owner.append(" --continue|--abort");
            return Err(StaircaseError::ExternalOperation { owner, operation });
        },
        None => {},
    }
    if draft.conflicted_paths.len() > 0 {
        return Err(StaircaseError::Other(owned("cannot verify a draft with unmerged index entries")));
    }
    let tree_oid = match draft.staged_tree_oid {
        Some(t) => t,
        None => return Err(StaircaseError::Other(owned("draft index does not resolve to an exact stage-zero tree"))),
    };
    let outcome = run_commands(repo, &build_command, &test_command)?;
    Ok(DraftVerificationEvidence {
        schema: owned("git-staircase/verification-evidence"),
        version: 1,
        subject_kind: owned("draft-index"),
        tree_oid,
        basis_oid: draft.basis,
        build_command,
        test_command,
        success: outcome.success,
        stdout: outcome.stdout,
        stderr: outcome.stderr,
    })
}

/// Builds and tests the worktree's current draft (see `draft_evidence`).
pub fn verify_draft(repo: &GitRepo, build_command: Option<String>, test_command: Option<String>) -> (r: Result<DraftVerificationEvidence>)
    ensures
        r matches Ok(ev) ==> ev.schema@ == "git-staircase/verification-evidence"@ && ev.subject_kind@ == "draft-index"@
            && ev.build_command == build_command && ev.test_command == test_command,
{
    let draft = get_worktree_draft(repo)?;
    draft_evidence(repo, draft, build_command, test_command)
}

} // verus!
