//! Operation journals: the durable record of an operation in progress, from
//! which it can be continued or aborted, and the recovery refs it keeps.

use vstd::prelude::*;
use vstd::string::StringSliceAdditionalSpecFns;
use std::path::PathBuf;
use super::lock::OperationLocks;
use super::mutation::{push_ref_command, ref_command, ref_commands, or_missing, table_value, MutationPlan, RefMutation};
use super::recovery::{capture_draft, restore_draft, DraftRecovery};
use crate::collections::SortedMap;
use crate::error::{Result, StaircaseError};
use crate::git::repo::{path_join, GitRepo};
use crate::memoization::sha256_hex_of;
use crate::staircase::draft::check_transient_operation;
use crate::text::{cat, cat3, ends_with, has_suffix, opt_str_eq, opt_view, owned, split_once, split_once_spec, str_eq, views};

verus! {

/// The schema of operation journals.
pub const JOURNAL_SCHEMA: &'static str = "git-staircase/operation-journal";
/// The version of operation journals.
pub const JOURNAL_VERSION: u32 = 1;
/// The prefix of the recovery refs of operations.
pub const RECOVERY_PREFIX: &'static str = "refs/staircase-recovery/";

/// Where an operation stands.
#[derive(Debug, Clone, Copy, PartialEq, Eq, Structural)]
pub enum OperationPhase {
    Planned,
    Publishing,
    Paused,
    Aborting,
    Completed,
}

impl OperationPhase {
    /// The phase's name as journals record it.
    pub fn as_str(&self) -> (s: &'static str)
        ensures
            s@ == match self {
                OperationPhase::Planned => "planned"@,
                OperationPhase::Publishing => "publishing"@,
                OperationPhase::Paused => "paused"@,
                OperationPhase::Aborting => "aborting"@,
                OperationPhase::Completed => "completed"@,
            },
    {
        match self {
            OperationPhase::Planned => "planned",
            OperationPhase::Publishing => "publishing",
            OperationPhase::Paused => "paused",
            OperationPhase::Aborting => "aborting",
            OperationPhase::Completed => "completed",
        }
    }
}

/// The journal of an operation: its plan (expected and planned ref values,
/// keyed by ref in order), its recovery refs, the draft captured before it
/// and, for a resumable rewrite, its continuation (JSON text).
#[derive(Debug)]
pub struct OperationJournal {
    pub schema: String,
    pub version: u32,
    pub operation_id: String,
    pub kind: String,
    pub phase: OperationPhase,
    pub repository_identity: String,
    pub lineage_id: Option<String>,
    pub expected_record_revision: Option<String>,
    pub expected_refs: SortedMap<Option<String>>,
    pub planned_refs: SortedMap<Option<String>>,
    pub recovery_refs: SortedMap<String>,
    pub draft: Option<DraftRecovery>,
    pub disposition: String,
    pub continuation: Option<String>,
}

/// What an operation command reports when it completes, pauses or aborts.
#[derive(Debug, Clone, PartialEq, Eq)]
pub struct OperationResult {
    pub schema: String,
    pub version: u32,
    pub operation_id: String,
    pub kind: String,
    pub transition: String,
    pub restored_refs: usize,
    pub draft_restored: bool,
}

/// The recovery ref that keeps the expected value of `reference` during
/// operation `operation_id`: the record and each step have a ref of their
/// own, and any other ref one named by the SHA-256 of its name (its UTF-8
/// bytes, `reference_bytes`).
pub open spec fn spec_recovery_ref(operation_id: Seq<char>, reference: Seq<char>, reference_bytes: Seq<u8>) -> Seq<char> {
    if has_suffix(reference, "/record"@) {
        "refs/staircase-recovery/"@ + operation_id + "/record"@
    } else {
        match split_once_spec(reference, "/steps/"@) {
            Some((_, step_id)) => "refs/staircase-recovery/"@ + operation_id + "/steps/"@ + step_id,
            None => "refs/staircase-recovery/"@ + operation_id + "/owned/"@ + crate::memoization::sha256_hex(reference_bytes),
        }
    }
}

/// The recovery ref of `reference` for operation `operation_id` (see [`spec_recovery_ref`]).
pub fn recovery_ref(operation_id: &str, reference: &str) -> (r: String)
    ensures
        r@ == spec_recovery_ref(operation_id@, reference@, reference.spec_bytes()),
{
    if ends_with(reference, "/record") {
        let mut r = cat(RECOVERY_PREFIX, operation_id);
        r.append("/record");
        return r;
    }
    match split_once(reference, "/steps/") {
        Some((_, step_id)) => {
            let mut r = cat(RECOVERY_PREFIX, operation_id);
            r.append("/steps/");
            r.append(step_id.as_str());
            r
        },
        None => {
            let digest = sha256_hex_of(reference.as_bytes());
            let mut r = cat(RECOVERY_PREFIX, operation_id);
            r.append("/owned/");
            r.append(digest.as_str());
            r
        },
    }
}

/// A journal has the current schema and version.
pub open spec fn journal_valid(j: &OperationJournal) -> bool {
    j.schema@ == JOURNAL_SCHEMA@ && j.version == JOURNAL_VERSION
}

/// Checks that `journal` has the current schema and version.
pub fn validate_journal(journal: &OperationJournal) -> (r: Result<()>)
    ensures
        r is Ok <==> journal_valid(journal),
        r matches Err(StaircaseError::Other(m)) ==> m@ == "unsupported operation journal schema"@,
        r is Err ==> r matches Err(StaircaseError::Other(_)),
{
    if !str_eq(journal.schema.as_str(), JOURNAL_SCHEMA) || journal.version != JOURNAL_VERSION {
        return Err(StaircaseError::Other(owned("unsupported operation journal schema")));
    }
    Ok(())
}

/// The tool's directory in the repository's common Git directory.
fn staircase_dir(repo: &GitRepo) -> (r: Result<PathBuf>)
    ensures
        r matches Err(e) ==> (e is Io || e is GitCommandFailed),
{
    let common = repo.common_dir()?;
    Ok(path_join(&common, "staircase"))
}

/// The directory of the operation journals.
pub fn journals_dir(repo: &GitRepo) -> (r: Result<PathBuf>)
    ensures
        r matches Err(e) ==> (e is Io || e is GitCommandFailed),
{
    let dir = staircase_dir(repo)?;
    Ok(path_join(&dir, "journals"))
}

/// The file of the journal of operation `operation_id`.
fn journal_path(repo: &GitRepo, operation_id: &str) -> (r: Result<PathBuf>)
    ensures
        r matches Err(e) ==> (e is Io || e is GitCommandFailed),
{
    let dir = journals_dir(repo)?;
    let name = cat(operation_id, ".json");
    Ok(path_join(&dir, name.as_str()))
}

impl OperationJournal {
    /// The lineage of the operation, as text.
    pub fn lineage_id_str(&self) -> (r: Option<&str>)
        ensures
            match r { Some(s) => Some(s@), None => None } == opt_view(self.lineage_id),
    {
        match &self.lineage_id {
            Some(s) => Some(s.as_str()),
            None => None,
        }
    }

    /// The last of `refs` that mutates `reference`, if any.
    pub open spec fn last_mutation(refs: Seq<RefMutation>, reference: Seq<char>) -> Option<RefMutation>
        decreases refs.len(),
    {
        if refs.len() == 0 {
            None
        } else if refs.last().reference@ == reference {
            Some(refs.last())
        } else {
            Self::last_mutation(refs.drop_last(), reference)
        }
    }

    /// A planned journal for `plan`: a fresh operation id, the plan's
    /// expected and planned values by ref (a later mutation of a ref wins),
    /// and the draft of the worktree as it is now.
    pub fn from_plan(repo: &GitRepo, plan: &MutationPlan) -> (r: Result<Self>)
        ensures
            r matches Ok(j) ==> {
                &&& journal_valid(&j)
                &&& j.kind == plan.kind
                &&& j.phase == OperationPhase::Planned
                &&& j.lineage_id == plan.lineage_id
                &&& j.expected_record_revision == plan.expected_record_revision
                &&& j.disposition@ == "continue-or-abort"@
                &&& j.continuation is None
                &&& forall|i: int| 0 <= i < plan.refs@.len() ==> j.expected_refs.view().contains_key(#[trigger] plan.refs@[i].reference@)
                    && j.planned_refs.view().contains_key(plan.refs@[i].reference@)
                &&& forall|k: Seq<char>| #[trigger] j.expected_refs.view().contains_key(k) <==> Self::last_mutation(plan.refs@, k) is Some
                &&& forall|k: Seq<char>| #[trigger] j.planned_refs.view().contains_key(k) <==> Self::last_mutation(plan.refs@, k) is Some
                &&& forall|k: Seq<char>| #[trigger] Self::last_mutation(plan.refs@, k) matches Some(m)
                    ==> j.expected_refs.view()[k] == m.expected && j.planned_refs.view()[k] == m.planned
            },
    {
        let mut expected_refs: SortedMap<Option<String>> = SortedMap::new();
        let mut planned_refs: SortedMap<Option<String>> = SortedMap::new();
        let ghost refs = plan.refs@;
        let mut i: usize = 0;
        while i < plan.refs.len()
            invariant
                refs == plan.refs@,
                i <= plan.refs@.len(),
                forall|k: int| 0 <= k < i ==> expected_refs.view().contains_key(#[trigger] plan.refs@[k].reference@)
                    && planned_refs.view().contains_key(plan.refs@[k].reference@),
                forall|k: Seq<char>| #[trigger] expected_refs.view().contains_key(k) <==> Self::last_mutation(refs.take(i as int), k) is Some,
                forall|k: Seq<char>| #[trigger] planned_refs.view().contains_key(k) <==> Self::last_mutation(refs.take(i as int), k) is Some,
                forall|k: Seq<char>| #[trigger] Self::last_mutation(refs.take(i as int), k) matches Some(m)
                    ==> expected_refs.view()[k] == m.expected && planned_refs.view()[k] == m.planned,
            decreases plan.refs@.len() - i,
        {
            let edit = &plan.refs[i];
            expected_refs.insert(edit.reference.clone(), crate::model::metadata::copy_opt(&edit.expected));
            planned_refs.insert(edit.reference.clone(), crate::model::metadata::copy_opt(&edit.planned));
            proof {
                let next = refs.take(i + 1);
                assert(next.drop_last() =~= refs.take(i as int));
                assert(next.last() == refs[i as int]);
                assert forall|k: Seq<char>| #[trigger] Self::last_mutation(next, k)
                    == (if k == refs[i as int].reference@ { Some(refs[i as int]) } else { Self::last_mutation(refs.take(i as int), k) }) by {
                }
            }
            i += 1;
        }
        proof {
            assert(refs.take(refs.len() as int) =~= refs);
        }
        let repository_identity = repo.repository_identity()?;
        let draft = capture_draft(repo)?;
        Ok(OperationJournal {
            schema: owned(JOURNAL_SCHEMA),
            version: JOURNAL_VERSION,
            operation_id: crate::fresh::fresh_uuid(),
            kind: plan.kind.clone(),
            phase: OperationPhase::Planned,
            repository_identity,
            lineage_id: plan.lineage_id.clone(),
            expected_record_revision: plan.expected_record_revision.clone(),
            expected_refs,
            planned_refs,
            recovery_refs: SortedMap::new(),
            draft,
            disposition: owned("continue-or-abort"),
            continuation: None,
        })
    }

    /// Publishes the planned refs: persists the journal, creates the recovery
    /// refs, enters `Publishing`, and runs the ref transaction; when the
    /// transaction fails, the journal is left `Paused` and the error returned.
    pub fn publish(&mut self, repo: &GitRepo) -> (r: Result<()>)
        ensures
            final(self).kind == old(self).kind,
            final(self).operation_id == old(self).operation_id,
            r is Ok ==> final(self).phase == OperationPhase::Publishing,
    {
        self.persist(repo)?;
        self.create_recovery_refs(repo)?;
        self.persist(repo)?;
        self.phase = OperationPhase::Publishing;
        self.persist(repo)?;
        let commands = ref_commands(&self.expected_refs, &self.planned_refs);
        match repo.update_refs_transaction(&commands) {
            Ok(()) => Ok(()),
            Err(error) => {
                self.phase = OperationPhase::Paused;
                self.persist(repo)?;
                Err(error)
            },
        }
    }

    /// Points a recovery ref at the expected value of every ref that has
    /// one (see [`recovery_ref`]), in one transaction, and records them.
    pub fn create_recovery_refs(&mut self, repo: &GitRepo) -> (r: Result<()>)
        ensures
            final(self).kind == old(self).kind,
            final(self).operation_id == old(self).operation_id,
            final(self).phase == old(self).phase,
            final(self).expected_refs == old(self).expected_refs,
            final(self).planned_refs == old(self).planned_refs,
            r is Ok ==> forall|k: Seq<char>| #[trigger] old(self).expected_refs.view().contains_key(k)
                && old(self).expected_refs.view()[k] is Some ==> final(self).recovery_refs.view().contains_key(k),
    {
        let mut commands: Vec<String> = Vec::new();
        let n = self.expected_refs.len();
        let mut i: usize = 0;
        while i < n
            invariant
                i <= n,
                n == self.expected_refs.key_seq().len(),
                self.kind == old(self).kind,
                self.operation_id == old(self).operation_id,
                self.phase == old(self).phase,
                self.expected_refs == old(self).expected_refs,
                self.planned_refs == old(self).planned_refs,
                forall|j: int| 0 <= j < i && (#[trigger] self.expected_refs.view()[self.expected_refs.key_seq()[j]]) is Some
                    ==> self.recovery_refs.view().contains_key(self.expected_refs.key_seq()[j]),
            decreases n - i,
        {
            let entries = self.expected_refs.entries();
            proof {
                assert(entries@[i as int].0@ == self.expected_refs.key_seq()[i as int]);
            }
            let reference = entries[i].0.clone();
            let oid = match &entries[i].1 {
                Some(o) => o.clone(),
                None => {
                    i += 1;
                    continue;
                },
            };
            let recovery = recovery_ref(self.operation_id.as_str(), reference.as_str());
            match repo.resolve_ref_opt(recovery.as_str())? {
                Some(actual) => {
                    let mut c = cat3("update ", recovery.as_str(), " ");
                    c.append(oid.as_str());
                    c.append(" ");
                    c.append(actual.as_str());
                    commands.push(c);
                },
                None => {
                    let mut c = cat3("create ", recovery.as_str(), " ");
                    c.append(oid.as_str());
                    commands.push(c);
                },
            }
            self.recovery_refs.insert(reference, recovery);
            i += 1;
        }
        let listed = self.expected_refs.entries();
        proof {
            assert forall|k: Seq<char>| #[trigger] old(self).expected_refs.view().contains_key(k)
                && old(self).expected_refs.view()[k] is Some implies self.recovery_refs.view().contains_key(k) by {
                let j = choose|j: int| 0 <= j < listed@.len() && listed@[j].0@ == k;
                assert(listed@.map_values(|e: (String, Option<String>)| e.0@)[j] == k);
                assert(self.expected_refs.view()[self.expected_refs.key_seq()[j]] is Some);
            }
        }
        repo.update_refs_transaction(&commands)
    }

    /// Checks the journal and stores it at its path.
    pub fn persist(&self, repo: &GitRepo) -> (r: Result<()>)
        ensures
            !journal_valid(self) ==> r matches Err(StaircaseError::Other(_)),
    {
        validate_journal(self)?;
        let path = journal_path(repo, self.operation_id.as_str())?;
        match repo.host.save_journal(&path, self) {
            Ok(()) => Ok(()),
            Err(e) => Err(StaircaseError::Io(e)),
        }
    }

    /// Completes the operation: persists it as `Completed`, deletes its
    /// recovery refs and removes its journal.
    pub fn finish(&mut self, repo: &GitRepo) -> (r: Result<()>)
        ensures
            final(self).phase == OperationPhase::Completed,
            final(self).kind == old(self).kind,
            final(self).operation_id == old(self).operation_id,
    {
        self.phase = OperationPhase::Completed;
        self.persist(repo)?;
        remove_recovery_refs(repo, self)?;
        let path = journal_path(repo, self.operation_id.as_str())?;
        match repo.host.remove_file(&path) {
            Ok(()) => Ok(()),
            Err(e) => Err(StaircaseError::Io(e)),
        }
    }
}

/// Deletes, in one transaction, every recovery ref of `journal` that exists.
fn remove_recovery_refs(repo: &GitRepo, journal: &OperationJournal) -> (r: Result<()>) {
    let entries = journal.recovery_refs.entries();
    let mut commands: Vec<String> = Vec::new();
    let mut i: usize = 0;
    while i < entries.len()
        invariant
            i <= entries@.len(),
        decreases entries@.len() - i,
    {
        let recovery = entries[i].1.as_str();
        match repo.resolve_ref_opt(recovery)? {
            Some(actual) => {
                let mut c = cat3("delete ", recovery, " ");
                c.append(actual.as_str());
                commands.push(c);
            },
            None => {},
        }
        i += 1;
    }
    repo.update_refs_transaction(&commands)
}

/// The first stored journal, in path order, that has the current schema.
pub fn active_operation(repo: &GitRepo) -> (r: Result<Option<OperationJournal>>)
    ensures
        r matches Err(e) ==> (e is Io || e is GitCommandFailed),
        r matches Ok(Some(j)) ==> journal_valid(&j),
{
    let dir = journals_dir(repo)?;
    let journals = match repo.host.load_journals(&dir) {
        Ok(js) => js,
        Err(e) => return Err(StaircaseError::Io(e)),
    };
    let mut journals = journals;
    let mut i: usize = 0;
    while i < journals.len()
        invariant
            i <= journals@.len(),
        decreases journals@.len() - i,
    {
        if validate_journal(&journals[i]).is_ok() {
            let j = journals.remove(i);
            return Ok(Some(j));
        }
        i += 1;
    }
    Ok(None)
}

/// Fails with `OperationInProgress` when an operation is active.
pub fn ensure_no_active(repo: &GitRepo) -> (r: Result<()>)
    ensures
        r matches Err(e) ==> (e is Io || e is GitCommandFailed || e is OperationInProgress),
{
    ensure_no_active_except(repo, None)
}

/// Fails with `OperationInProgress` when an operation other than
/// `allowed_id` is active.
pub fn ensure_no_active_except(repo: &GitRepo, allowed_id: Option<&str>) -> (r: Result<()>)
    ensures
        r matches Err(e) ==> (e is Io || e is GitCommandFailed || e is OperationInProgress),
        r matches Err(StaircaseError::OperationInProgress { operation_id, .. }) ==> match allowed_id {
            Some(a) => operation_id@ != a@,
            None => true,
        },
{
    match active_operation(repo) {
        Ok(Some(active)) => {
            let allowed = match allowed_id {
                Some(a) => str_eq(a, active.operation_id.as_str()),
                None => false,
            };
            if !allowed {
                return Err(StaircaseError::OperationInProgress {
                    operation_id: active.operation_id,
                    kind: active.kind,
                });
            }
            Ok(())
        },
        Ok(None) => Ok(()),
        Err(StaircaseError::Io(e)) => Err(StaircaseError::Io(e)),
        Err(StaircaseError::GitCommandFailed { command, stdout, stderr }) => Err(StaircaseError::GitCommandFailed { command, stdout, stderr }),
        Err(_) => Ok(()),
    }
}

/// The arguments that abort a transient Git operation: rebase, merge,
/// cherry-pick and revert are aborted, bisect is reset; nothing else is.
pub open spec fn spec_abort_args(operation: Seq<char>) -> Option<(Seq<char>, Seq<char>)> {
    if operation == "rebase"@ {
        Some(("rebase"@, "--abort"@))
    } else if operation == "merge"@ {
        Some(("merge"@, "--abort"@))
    } else if operation == "cherry-pick"@ {
        Some(("cherry-pick"@, "--abort"@))
    } else if operation == "revert"@ {
        Some(("revert"@, "--abort"@))
    } else if operation == "bisect"@ {
        Some(("bisect"@, "reset"@))
    } else {
        None
    }
}

/// The arguments that abort a transient Git operation (see [`spec_abort_args`]).
pub fn abort_args(operation: &str) -> (r: Option<[&'static str; 2]>)
    ensures
        match spec_abort_args(operation@) {
            Some((a, b)) => r matches Some(x) && x[0]@ == a && x[1]@ == b,
            None => r is None,
        },
{
    if str_eq(operation, "rebase") {
        Some(["rebase", "--abort"])
    } else if str_eq(operation, "merge") {
        Some(["merge", "--abort"])
    } else if str_eq(operation, "cherry-pick") {
        Some(["cherry-pick", "--abort"])
    } else if str_eq(operation, "revert") {
        Some(["revert", "--abort"])
    } else if str_eq(operation, "bisect") {
        Some(["bisect", "reset"])
    } else {
        None
    }
}

/// `res` reports the abort of operation `j`: its id and kind, whether its
/// draft was restored, and how many of its refs moved back (see
/// `restore_commands` and `moved_count`, for what the refs held).
pub open spec fn abort_reported(j: OperationJournal, res: OperationResult) -> bool {
    &&& res.operation_id@ == j.operation_id@
    &&& res.kind@ == j.kind@
    &&& res.draft_restored == j.draft is Some
    &&& exists|current: Seq<Option<Seq<char>>>| {
        &&& current.len() == j.expected_refs.key_seq().len()
        &&& #[trigger] restore_commands(j.expected_refs.key_seq(), j.expected_refs.view(), j.planned_refs.view(), current) is Some
        &&& res.restored_refs == moved_count(j.expected_refs.key_seq(), j.expected_refs.view(), current)
    }
}

/// The result of an abort with no journal left to restore.
pub open spec fn cleaned_abort(res: OperationResult) -> bool {
    &&& res.schema@ == "git-staircase/operation-result"@
    &&& res.version == 1
    &&& res.operation_id@ == "none"@
    &&& res.kind@ == "none"@
    &&& res.transition@ == "aborted"@
    &&& res.restored_refs == 0
    &&& !res.draft_restored
}

/// The commands that put back the refs `keys` of an aborted operation,
/// given what each ref holds now (`current`): a ref at its expected value
/// needs none, one at its planned value is moved back to its expected value
/// (see `ref_command`); none at all when a ref is at neither (a collision).
pub open spec fn restore_commands(
    keys: Seq<Seq<char>>,
    expected: Map<Seq<char>, Option<String>>,
    planned: Map<Seq<char>, Option<String>>,
    current: Seq<Option<Seq<char>>>,
) -> Option<Seq<Seq<char>>>
    decreases keys.len(),
{
    if keys.len() == 0 {
        Some(seq![])
    } else {
        let n = keys.len() - 1;
        let k = keys[n];
        let e = table_value(expected, k);
        let c = current[n];
        match restore_commands(keys.drop_last(), expected, planned, current) {
            None => None,
            Some(before) => if c == e {
                Some(before)
            } else if c == table_value(planned, k) {
                Some(before + ref_command(k, c, e))
            } else {
                None
            },
        }
    }
}

/// How many of the refs `keys` do not hold their expected value now.
pub open spec fn moved_count(keys: Seq<Seq<char>>, expected: Map<Seq<char>, Option<String>>, current: Seq<Option<Seq<char>>>) -> nat
    decreases keys.len(),
{
    if keys.len() == 0 {
        0
    } else {
        let n = keys.len() - 1;
        moved_count(keys.drop_last(), expected, current) + if current[n] == table_value(expected, keys[n]) { 0nat } else { 1nat }
    }
}

/// The restoration of the refs `keys` reads only what those refs hold.
proof fn lemma_restore_frame(
    keys: Seq<Seq<char>>,
    expected: Map<Seq<char>, Option<String>>,
    planned: Map<Seq<char>, Option<String>>,
    c1: Seq<Option<Seq<char>>>,
    c2: Seq<Option<Seq<char>>>,
)
    requires
        c1.len() >= keys.len(),
        c2.len() >= keys.len(),
        forall|j: int| 0 <= j < keys.len() ==> c1[j] == c2[j],
    ensures
        restore_commands(keys, expected, planned, c1) == restore_commands(keys, expected, planned, c2),
        moved_count(keys, expected, c1) == moved_count(keys, expected, c2),
    decreases keys.len(),
{
    if keys.len() > 0 {
        lemma_restore_frame(keys.drop_last(), expected, planned, c1, c2);
    }
}

/// Aborts the active operation: under its locks it enters `Aborting`, aborts
/// a transient Git operation, moves every ref that holds its planned value
/// back to its expected value in one transaction (a ref at neither value is a
/// collision), restores the captured draft and finishes the journal. With no
/// valid journal, stray journal files are removed and the abort reports
/// `none`; with none at all, there is no active operation.
pub fn abort_active(repo: &GitRepo) -> (r: Result<OperationResult>)
    ensures
        r matches Ok(res) ==> res.transition@ == "aborted"@ && res.schema@ == "git-staircase/operation-result"@ && res.version == 1,
        r matches Ok(res) ==> cleaned_abort(res) || exists|j: OperationJournal| #[trigger] abort_reported(j, res),
{
    let journal = match active_operation(repo)? {
        Some(journal) => journal,
        None => {
            let dir = journals_dir(repo)?;
            let cleaned = match repo.host.remove_json_files(&dir) {
                Ok(c) => c,
                Err(e) => return Err(StaircaseError::Io(e)),
            };
            if cleaned {
                let res = OperationResult {
                    schema: owned("git-staircase/operation-result"),
                    version: 1,
                    operation_id: owned("none"),
                    kind: owned("none"),
                    transition: owned("aborted"),
                    restored_refs: 0,
                    draft_restored: false,
                };
                return Ok(res);
            }
            return Err(StaircaseError::NoActiveOperation);
        },
    };
    let locks = OperationLocks::acquire(repo, journal.operation_id.as_str(), journal.lineage_id_str())?;
    let ghost j = journal;
    let r = abort_locked(repo, journal);
    locks.release(repo);
    proof {
        if r is Ok {
            assert(abort_reported(j, r->Ok_0));
        }
    }
    r
}

fn abort_locked(repo: &GitRepo, journal: OperationJournal) -> (r: Result<OperationResult>)
    ensures
        r matches Ok(res) ==> res.transition@ == "aborted"@ && res.schema@ == "git-staircase/operation-result"@ && res.version == 1,
        r matches Ok(res) ==> res.operation_id@ == journal.operation_id@ && res.kind@ == journal.kind@
            && res.draft_restored == journal.draft is Some && res.restored_refs <= journal.expected_refs.key_seq().len(),
        r matches Ok(res) ==> abort_reported(journal, res),
{
    let ghost old_journal = journal;
    let mut journal = journal;
    journal.phase = OperationPhase::Aborting;
    journal.persist(repo)?;
    match check_transient_operation(repo)? {
        Some(operation) => {
            match abort_args(operation.as_str()) {
                Some(args) => {
                    repo.command().args(&args).run()?;
                },
                None => {},
            }
        },
        None => {},
    }
    let mut commands: Vec<String> = Vec::new();
    let mut restored: usize = 0;
    let n = journal.expected_refs.len();
    let ghost keys = journal.expected_refs.key_seq();
    let ghost mut current: Seq<Option<Seq<char>>> = seq![];
    let mut i: usize = 0;
    while i < n
        invariant
            i <= n,
            n == journal.expected_refs.key_seq().len(),
            keys == journal.expected_refs.key_seq(),
            journal.expected_refs == old_journal.expected_refs,
            journal.planned_refs == old_journal.planned_refs,
            restored <= i,
            journal.operation_id == old_journal.operation_id && journal.kind == old_journal.kind,
            journal.draft == old_journal.draft,
            current.len() == i,
            restore_commands(keys.take(i as int), journal.expected_refs.view(), journal.planned_refs.view(), current)
                == Some(views(commands@)),
            restored == moved_count(keys.take(i as int), journal.expected_refs.view(), current),
        decreases n - i,
    {
        let entries = journal.expected_refs.entries();
        proof {
            assert(entries@.map_values(|e: (String, Option<String>)| e.0@)[i as int] == entries@[i as int].0@);
        }
        let reference = entries[i].0.as_str();
        let expected = &entries[i].1;
        let cur_value = repo.resolve_ref_opt(reference)?;
        let planned: Option<String> = match journal.planned_refs.get(reference) {
            Some(Some(p)) => Some(p.clone()),
            _ => None,
        };
        let ghost before_current = current;
        proof {
            current = current.push(opt_view(cur_value));
            let t = keys.take(i + 1);
            assert(t.drop_last() =~= keys.take(i as int));
            assert(t.last() == reference@);
            assert(current.drop_last() =~= before_current);
            assert(opt_view(*expected) == table_value(journal.expected_refs.view(), reference@));
            assert(opt_view(planned) == table_value(journal.planned_refs.view(), reference@));
            lemma_restore_frame(keys.take(i as int), journal.expected_refs.view(), journal.planned_refs.view(), before_current, current);
        }
        if opt_str_eq(&cur_value, expected) {
            i += 1;
            continue;
        }
        if !opt_str_eq(&cur_value, &planned) {
            return Err(StaircaseError::RefCollision {
                reference: owned(reference),
                expected: or_missing(planned),
                actual: or_missing(cur_value),
            });
        }
        let cur = match &cur_value {
            Some(c) => Some(c.as_str()),
            None => None,
        };
        let exp = match expected {
            Some(e) => Some(e.as_str()),
            None => None,
        };
        push_ref_command(&mut commands, reference, cur, exp);
        restored += 1;
        i += 1;
    }
    proof {
        assert(keys.take(n as int) =~= keys);
    }
    repo.update_refs_transaction(&commands)?;
    let draft_restored = restore_draft(repo, &journal.draft)?;
    let result = OperationResult {
        schema: owned("git-staircase/operation-result"),
        version: 1,
        operation_id: journal.operation_id.clone(),
        kind: journal.kind.clone(),
        transition: owned("aborted"),
        restored_refs: restored,
        draft_restored,
    };
    journal.finish(repo)?;
    Ok(result)
}

} // verus!
