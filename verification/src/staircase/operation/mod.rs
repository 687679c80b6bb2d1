//! Operations that move refs: mutation plans, their journals and locks, the
//! draft they capture, and continuing or aborting one that stopped.

pub mod journal;
pub mod lock;
pub mod mutation;
pub mod recovery;

use vstd::prelude::*;
use journal::{active_operation, ensure_no_active, OperationJournal, OperationPhase, OperationResult};
use lock::OperationLocks;
use mutation::{or_missing, ref_commands, ref_commands_from_current, table_lookup, MutationPlan};
use crate::error::{Result, StaircaseError};
use crate::git::repo::GitRepo;
use crate::staircase::draft::check_transient_operation;
use crate::text::{cat, opt_str_eq, owned, str_eq};

verus! {

/// Who owns a transient Git operation: the command that continues or ends it.
pub open spec fn spec_operation_owner(operation: Seq<char>) -> Seq<char> {
    if operation == "rebase"@ {
        "git rebase --continue|--abort"@
    } else if operation == "merge"@ {
        "git merge --continue|--abort"@
    } else if operation == "cherry-pick"@ {
        "git cherry-pick --continue|--abort"@
    } else if operation == "revert"@ {
        "git revert --continue|--abort"@
    } else if operation == "bisect"@ {
        "git bisect reset"@
    } else {
        "Git"@
    }
}

/// The owner of a transient Git operation (see [`spec_operation_owner`]).
pub fn git_operation_owner(operation: &str) -> (r: &'static str)
    ensures
        r@ == spec_operation_owner(operation@),
{
    if str_eq(operation, "rebase") {
        "git rebase --continue|--abort"
    } else if str_eq(operation, "merge") {
        "git merge --continue|--abort"
    } else if str_eq(operation, "cherry-pick") {
        "git cherry-pick --continue|--abort"
    } else if str_eq(operation, "revert") {
        "git revert --continue|--abort"
    } else if str_eq(operation, "bisect") {
        "git bisect reset"
    } else {
        "Git"
    }
}

/// The arguments that continue a transient Git operation: rebase, merge,
/// cherry-pick and revert can be continued; nothing else can.
pub open spec fn spec_continue_args(operation: Seq<char>) -> Option<(Seq<char>, Seq<char>)> {
    if operation == "rebase"@ {
        Some(("rebase"@, "--continue"@))
    } else if operation == "merge"@ {
        Some(("merge"@, "--continue"@))
    } else if operation == "cherry-pick"@ {
        Some(("cherry-pick"@, "--continue"@))
    } else if operation == "revert"@ {
        Some(("revert"@, "--continue"@))
    } else {
        None
    }
}

/// The arguments that continue a transient Git operation (see [`spec_continue_args`]).
pub fn continue_args(operation: &str) -> (r: Option<[&'static str; 2]>)
    ensures
        match spec_continue_args(operation@) {
            Some((a, b)) => r matches Some(x) && x[0]@ == a && x[1]@ == b,
            None => r is None,
        },
{
    if str_eq(operation, "rebase") {
        Some(["rebase", "--continue"])
    } else if str_eq(operation, "merge") {
        Some(["merge", "--continue"])
    } else if str_eq(operation, "cherry-pick") {
        Some(["cherry-pick", "--continue"])
    } else if str_eq(operation, "revert") {
        Some(["revert", "--continue"])
    } else {
        None
    }
}

/// Starts a resumable operation for `plan`: validated, with no other
/// operation active, under its locks, the journal is stored with its
/// continuation and recovery refs and enters `Publishing`.
pub fn begin_resumable(repo: &GitRepo, plan: &MutationPlan, continuation: String) -> (r: Result<OperationJournal>)
    ensures
        r matches Ok(j) ==> j.phase == OperationPhase::Publishing && j.kind == plan.kind,
{
    plan.validate(repo)?;
    ensure_no_active(repo)?;
    let mut journal = OperationJournal::from_plan(repo, plan)?;
    let locks = OperationLocks::acquire(repo, journal.operation_id.as_str(), journal.lineage_id_str())?;
    let r = begin_locked(repo, journal, continuation);
    locks.release(repo);
    r
}

fn begin_locked(repo: &GitRepo, journal: OperationJournal, continuation: String) -> (r: Result<OperationJournal>)
    ensures
        r matches Ok(j) ==> j.phase == OperationPhase::Publishing && j.kind == journal.kind,
{
    let mut journal = journal;
    journal.continuation = Some(continuation);
    journal.persist(repo)?;
    journal.create_recovery_refs(repo)?;
    journal.phase = OperationPhase::Publishing;
    journal.persist(repo)?;
    Ok(journal)
}

/// Publishes `plan` from a resumable journal: every ref of the plan must
/// have been leased by the journal with the same expected value; the plan is
/// validated, becomes the journal's planned refs, and the refs move in one
/// transaction.
pub fn publish_resumable(repo: &GitRepo, journal: &mut OperationJournal, plan: &MutationPlan) -> (r: Result<()>)
    ensures
        final(journal).kind == old(journal).kind,
        final(journal).operation_id == old(journal).operation_id,
{
    let mut i: usize = 0;
    while i < plan.refs.len()
        invariant
            i <= plan.refs@.len(),
        decreases plan.refs@.len() - i,
    {
        let edit = &plan.refs[i];
        let journal_expected: Option<String> = match journal.expected_refs.get(edit.reference.as_str()) {
            Some(v) => match v {
                Some(s) => Some(s.clone()),
                None => None,
            },
            None => {
                let mut m = cat("resumable operation did not lease '", edit.reference.as_str());
                m.append("'");
                return Err(StaircaseError::Other(m));
            },
        };
        if !opt_str_eq(&journal_expected, &edit.expected) {
            return Err(StaircaseError::RefCollision {
                reference: edit.reference.clone(),
                expected: or_missing(journal_expected),
                actual: or_missing(edit.expected.clone()),
            });
        }
        i += 1;
    }
    plan.validate(repo)?;
    let mut planned = crate::collections::SortedMap::new();
    let mut j: usize = 0;
    while j < plan.refs.len()
        invariant
            j <= plan.refs@.len(),
        decreases plan.refs@.len() - j,
    {
        planned.insert(plan.refs[j].reference.clone(), plan.refs[j].planned.clone());
        j += 1;
    }
    journal.planned_refs = planned;
    journal.phase = OperationPhase::Publishing;
    journal.persist(repo)?;
    let commands = ref_commands(&journal.expected_refs, &journal.planned_refs);
    repo.update_refs_transaction(&commands)
}

/// Continues the active operation. A transient Git operation that can be
/// continued is continued (with `GIT_EDITOR=true`); if Git still reports one,
/// the journal is `Paused` and the result says so. Otherwise every planned
/// ref must hold its planned or its expected value; the refs not yet at
/// their planned value move in one transaction and the journal is finished.
/// A transient operation that cannot be continued belongs to its owner. An
/// operation with a rewrite continuation goes on replaying its commits
/// (see `rewrite::continue_operation`).
pub fn continue_active(repo: &GitRepo) -> (r: Result<OperationResult>)
    ensures
        r matches Ok(res) ==> res.schema@ == "git-staircase/operation-result"@ && res.version == 1
            && (res.transition@ == "paused"@ || res.transition@ == "continued"@),
{
    let journal = match active_operation(repo)? {
        Some(j) => j,
        None => return Err(StaircaseError::NoActiveOperation),
    };
    let locks = OperationLocks::acquire(repo, journal.operation_id.as_str(), journal.lineage_id_str())?;
    let r = continue_locked(repo, journal);
    locks.release(repo);
    r
}

fn continue_locked(repo: &GitRepo, journal: OperationJournal) -> (r: Result<OperationResult>)
    ensures
        r matches Ok(res) ==> res.schema@ == "git-staircase/operation-result"@ && res.version == 1
            && (res.transition@ == "paused"@ || res.transition@ == "continued"@),
{
    let mut journal = journal;
    if journal.continuation.is_some() {
        return crate::staircase::rewrite::continue_operation(repo, journal);
    }
    match check_transient_operation(repo)? {
        Some(operation) => {
            let args = match continue_args(operation.as_str()) {
                Some(a) => a,
                None => {
                    let owner = owned(git_operation_owner(operation.as_str()));
                    return Err(StaircaseError::ExternalOperation { operation, owner });
                },
            };
            repo.command().args(&args).env("GIT_EDITOR", "true").run()?;
            if check_transient_operation(repo)?.is_some() {
                journal.phase = OperationPhase::Paused;
                journal.persist(repo)?;
                return Ok(OperationResult {
                    schema: owned("git-staircase/operation-result"),
                    version: 1,
                    operation_id: journal.operation_id,
                    kind: journal.kind,
                    transition: owned("paused"),
                    restored_refs: 0,
                    draft_restored: false,
                });
            }
        },
        None => {},
    }
    let n = journal.planned_refs.len();
    let mut i: usize = 0;
    while i < n
        invariant
            i <= n,
            n == journal.planned_refs.key_seq().len(),
        decreases n - i,
    {
        let entries = journal.planned_refs.entries();
        let reference = entries[i].0.as_str();
        let planned = &entries[i].1;
        let actual = repo.resolve_ref_opt(reference)?;
        let expected: Option<String> = match table_lookup(&journal.expected_refs, reference) {
            Some(e) => Some(owned(e)),
            None => None,
        };
        if !opt_str_eq(&actual, planned) && !opt_str_eq(&actual, &expected) {
            return Err(StaircaseError::RefCollision {
                reference: owned(reference),
                expected: or_missing(planned.clone()),
                actual: or_missing(actual),
            });
        }
        i += 1;
    }
    let commands = ref_commands_from_current(repo, &journal.planned_refs)?;
    repo.update_refs_transaction(&commands)?;
    let result = OperationResult {
        schema: owned("git-staircase/operation-result"),
        version: 1,
        operation_id: journal.operation_id.clone(),
        kind: journal.kind.clone(),
        transition: owned("continued"),
        restored_refs: 0,
        draft_restored: false,
    };
    journal.finish(repo)?;
    Ok(result)
}

/// The owner of transient Git operation `operation`: the tool itself when
/// the active operation (`active`) is a resumable rewrite, else the
/// operation's own owner (see `spec_operation_owner`).
pub fn operation_owner(operation: &str, active: &Option<OperationJournal>) -> (owner: String)
    ensures
        owner@ == if active matches Some(j) && j.continuation is Some {
            "git staircase continue|abort"@
        } else {
            spec_operation_owner(operation@)
        },
{
    let resumable = match active {
        Some(j) => j.continuation.is_some(),
        None => false,
    };
    if resumable {
        owned("git staircase continue|abort")
    } else {
        owned(git_operation_owner(operation))
    }
}

/// The transient Git operation in progress, if any, with its owner (see
/// `operation_owner`, given the active operation).
pub fn external_git_operation(repo: &GitRepo) -> (r: Result<Option<(String, String)>>)
    ensures
        r matches Ok(Some((operation, owner))) ==> owner@ == spec_operation_owner(operation@)
            || owner@ == "git staircase continue|abort"@,
{
    let active = active_operation(repo)?;
    match check_transient_operation(repo)? {
        Some(operation) => {
            let owner = operation_owner(operation.as_str(), &active);
            Ok(Some((operation, owner)))
        },
        None => Ok(None),
    }
}

} // verus!
