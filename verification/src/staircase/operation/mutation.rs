//! Mutation plans: the ref updates that an operation intends, each with the
//! value it expects to replace, validated against the repository and
//! published as one `update-ref` transaction.

use vstd::prelude::*;
use super::journal::{ensure_no_active_except, OperationJournal, OperationResult};
use super::lock::OperationLocks;
use crate::collections::SortedMap;
use crate::error::{Result, StaircaseError};
use crate::git::graph::contains_text;
use crate::git::repo::GitRepo;
use crate::text::{cat, cat3, cat4, opt_view, owned, str_eq, views};

verus! {

/// One intended ref update: the value the ref is expected to hold (none:
/// absent) and the value it is to hold (none: deleted).
#[derive(Debug, Clone, PartialEq, Eq)]
pub struct RefMutation {
    pub reference: String,
    pub expected: Option<String>,
    pub planned: Option<String>,
}

/// The ref updates of one operation.
#[derive(Debug, Clone, PartialEq, Eq)]
pub struct MutationPlan {
    pub schema: String,
    pub version: u32,
    pub kind: String,
    pub lineage_id: Option<String>,
    pub expected_record_revision: Option<String>,
    pub refs: Vec<RefMutation>,
}

/// The `update-ref --stdin` command (none or one) that moves `reference`
/// from `old` to `new`, each absent when none.
pub open spec fn ref_command(reference: Seq<char>, old: Option<Seq<char>>, new: Option<Seq<char>>) -> Seq<Seq<char>> {
    match (old, new) {
        (None, Some(n)) => seq!["create "@ + reference + " "@ + n],
        (Some(o), Some(n)) => seq!["update "@ + reference + " "@ + n + " "@ + o],
        (Some(o), None) => seq!["delete "@ + reference + " "@ + o],
        (None, None) => seq![],
    }
}

/// The value of `key` in a table of optional values; none when absent.
pub open spec fn table_value(m: Map<Seq<char>, Option<String>>, key: Seq<char>) -> Option<Seq<char>> {
    if m.contains_key(key) {
        opt_view(m[key])
    } else {
        None
    }
}

/// The commands that move every ref of `keys` (in order) from its value in
/// `expected` to its value in `planned`.
pub open spec fn ref_commands_spec(
    keys: Seq<Seq<char>>,
    expected: Map<Seq<char>, Option<String>>,
    planned: Map<Seq<char>, Option<String>>,
) -> Seq<Seq<char>>
    decreases keys.len(),
{
    if keys.len() == 0 {
        seq![]
    } else {
        ref_commands_spec(keys.drop_last(), expected, planned) + ref_command(
            keys.last(),
            table_value(expected, keys.last()),
            table_value(planned, keys.last()),
        )
    }
}

/// What applying the command that moves `reference` from `old` to `new` does
/// to a ref state: none when the state does not hold `old` (or, for a
/// create, already has the ref).
pub open spec fn apply_ref_command(
    state: Map<Seq<char>, Seq<char>>,
    reference: Seq<char>,
    old: Option<Seq<char>>,
    new: Option<Seq<char>>,
) -> Option<Map<Seq<char>, Seq<char>>> {
    let current = if state.contains_key(reference) { Some(state[reference]) } else { None };
    if old is None && new is None {
        Some(state)
    } else if current != old {
        None
    } else {
        match new {
            Some(n) => Some(state.insert(reference, n)),
            None => Some(state.remove(reference)),
        }
    }
}

/// Applying the command that moves a ref from `a` to `b` to a state where the
/// ref holds `a` succeeds and leaves the ref at `b`; applying the command that
/// moves it from `b` back to `a` then restores the state exactly.
pub proof fn law_ref_command_undo(state: Map<Seq<char>, Seq<char>>, reference: Seq<char>, a: Option<Seq<char>>, b: Option<Seq<char>>)
    requires
        (if state.contains_key(reference) { Some(state[reference]) } else { None }) == a,
    ensures
        apply_ref_command(state, reference, a, b) is Some,
        ({
            let s2 = apply_ref_command(state, reference, a, b)->0;
            &&& (if s2.contains_key(reference) { Some(s2[reference]) } else { None }) == b
            &&& forall|r: Seq<char>| r != reference ==> s2.contains_key(r) == state.contains_key(r)
                && (state.contains_key(r) ==> s2[r] == state[r])
            &&& apply_ref_command(s2, reference, b, a) == Some(state)
        }),
{
    let s2 = apply_ref_command(state, reference, a, b)->0;
    if a is None && b is None {
    } else {
        match b {
            Some(n) => {
                assert(s2 == state.insert(reference, n));
                match a {
                    Some(o) => {
                        assert(s2.insert(reference, o) =~= state);
                    },
                    None => {
                        assert(s2.remove(reference) =~= state);
                    },
                }
            },
            None => {
                assert(s2 == state.remove(reference));
                match a {
                    Some(o) => {
                        assert(s2.insert(reference, o) =~= state);
                    },
                    None => {},
                }
            },
        }
    }
}

/// Appends to `commands` the command that moves `reference` from `from` to
/// `to` (see [`ref_command`]).
pub fn push_ref_command(commands: &mut Vec<String>, reference: &str, from: Option<&str>, to: Option<&str>)
    ensures
        views(final(commands)@) == views(old(commands)@) + ref_command(
            reference@,
            match from { Some(o) => Some(o@), None => None },
            match to { Some(n) => Some(n@), None => None },
        ),
{
    let ghost before = commands@;
    match (from, to) {
        (None, Some(n)) => {
            let mut c = cat3("create ", reference, " ");
            c.append(n);
            commands.push(c);
        },
        (Some(o), Some(n)) => {
            let mut c = cat4("update ", reference, " ", n);
            c.append(" ");
            c.append(o);
            commands.push(c);
        },
        (Some(o), None) => {
            let mut c = cat3("delete ", reference, " ");
            c.append(o);
            commands.push(c);
        },
        (None, None) => {},
    }
    proof {
        assert(views(commands@) =~= views(before) + ref_command(
            reference@,
            match from { Some(o) => Some(o@), None => None },
            match to { Some(n) => Some(n@), None => None },
        ));
    }
}

/// The value of `key` in `table`, as text; none when absent or none.
pub fn table_lookup<'a>(table: &'a SortedMap<Option<String>>, key: &str) -> (r: Option<&'a str>)
    ensures
        match r { Some(s) => Some(s@), None => None } == table_value(table.view(), key@),
{
    match table.get(key) {
        Some(Some(v)) => Some(v.as_str()),
        _ => None,
    }
}

/// The commands that move every planned ref, in key order, from its
/// expected value to its planned value.
pub fn ref_commands(expected: &SortedMap<Option<String>>, planned: &SortedMap<Option<String>>) -> (commands: Vec<String>)
    ensures
        views(commands@) == ref_commands_spec(planned.key_seq(), expected.view(), planned.view()),
{
    let entries = planned.entries();
    let mut commands: Vec<String> = Vec::new();
    let mut i: usize = 0;
    proof {
        assert(planned.key_seq().take(0) =~= Seq::<Seq<char>>::empty());
    }
    while i < entries.len()
        invariant
            i <= entries@.len(),
            entries@.map_values(|e: (String, Option<String>)| e.0@) == planned.key_seq(),
            forall|j: int| 0 <= j < entries@.len() ==> planned.view().contains_key(#[trigger] entries@[j].0@)
                && planned.view()[entries@[j].0@] == entries@[j].1,
            views(commands@) == ref_commands_spec(planned.key_seq().take(i as int), expected.view(), planned.view()),
        decreases entries@.len() - i,
    {
        let reference = entries[i].0.as_str();
        let new = match &entries[i].1 {
            Some(v) => Some(v.as_str()),
            None => None,
        };
        let old = table_lookup(expected, reference);
        proof {
            let ks = planned.key_seq();
            assert(ks.take(i + 1).drop_last() =~= ks.take(i as int));
            assert(ks.take(i + 1).last() == ks[i as int]);
            assert(ks[i as int] == entries@[i as int].0@);
            assert(planned.view()[entries@[i as int].0@] == entries@[i as int].1);
        }
        push_ref_command(&mut commands, reference, old, new);
        i += 1;
    }
    proof {
        assert(planned.key_seq().take(i as int) =~= planned.key_seq());
    }
    commands
}

/// The commands that move every planned ref, in key order, from the value it
/// holds now to its planned value; refs already at their planned value get none.
pub fn ref_commands_from_current(repo: &GitRepo, planned: &SortedMap<Option<String>>) -> (r: Result<Vec<String>>)
    ensures
        r matches Err(e) ==> e is Io,
{
    let entries = planned.entries();
    let mut commands: Vec<String> = Vec::new();
    let mut i: usize = 0;
    while i < entries.len()
        invariant
            i <= entries@.len(),
        decreases entries@.len() - i,
    {
        let reference = entries[i].0.as_str();
        let old = repo.resolve_ref_opt(reference)?;
        let same = match (&old, &entries[i].1) {
            (Some(a), Some(b)) => str_eq(a.as_str(), b.as_str()),
            (None, None) => true,
            _ => false,
        };
        if !same {
            let o = match &old {
                Some(v) => Some(v.as_str()),
                None => None,
            };
            let n = match &entries[i].1 {
                Some(v) => Some(v.as_str()),
                None => None,
            };
            push_ref_command(&mut commands, reference, o, n);
        }
        i += 1;
    }
    Ok(commands)
}

/// `<missing>` for an absent value, else the value.
pub fn or_missing(v: Option<String>) -> (r: String)
    ensures
        r@ == match v { Some(s) => s@, None => "<missing>"@ },
{
    match v {
        Some(s) => s,
        None => owned("<missing>"),
    }
}

/// The message for a reference that a plan updates twice.
pub open spec fn duplicate_ref_message(reference: Seq<char>) -> Seq<char> {
    "mutation plan contains duplicate ref '"@ + reference + "'"@
}

/// No two mutations of `refs` name the same reference.
pub open spec fn references_distinct(refs: Seq<RefMutation>) -> bool {
    forall|i: int, j: int| 0 <= i < j < refs.len() ==> refs[i].reference@ != refs[j].reference@
}

impl MutationPlan {
    /// An empty plan of operation `kind`, for lineage `lineage_id` if any.
    pub fn new(kind: &str, lineage_id: Option<String>) -> (p: Self)
        ensures
            p.schema@ == "git-staircase/mutation-plan"@,
            p.version == 1,
            p.kind@ == kind@,
            p.lineage_id == lineage_id,
            p.expected_record_revision is None,
            p.refs@.len() == 0,
    {
        MutationPlan {
            schema: owned("git-staircase/mutation-plan"),
            version: 1,
            kind: owned(kind),
            lineage_id,
            expected_record_revision: None,
            refs: Vec::new(),
        }
    }

    /// The plan, expecting the staircase record at `oid`.
    pub fn expected_record(self, oid: Option<String>) -> (p: Self)
        ensures
            p.expected_record_revision == oid,
            p.schema == self.schema,
            p.version == self.version,
            p.kind == self.kind,
            p.lineage_id == self.lineage_id,
            p.refs == self.refs,
    {
        let mut this = self;
        this.expected_record_revision = oid;
        this
    }

    /// Adds the mutation of `reference` from `expected` to `planned`.
    pub fn update(&mut self, reference: String, expected: Option<String>, planned: Option<String>)
        ensures
            final(self).refs@ == old(self).refs@.push(RefMutation { reference, expected, planned }),
            final(self).schema == old(self).schema,
            final(self).version == old(self).version,
            final(self).kind == old(self).kind,
            final(self).lineage_id == old(self).lineage_id,
            final(self).expected_record_revision == old(self).expected_record_revision,
    {
        self.refs.push(RefMutation { reference, expected, planned });
    }

    /// Checks, in order, that no reference is planned twice and that every
    /// reference holds its expected value now.
    pub fn validate(&self, repo: &GitRepo) -> (r: Result<()>)
        ensures
            r is Ok ==> references_distinct(self.refs@),
            r matches Err(StaircaseError::Other(m)) ==> exists|i: int, j: int| 0 <= i < j < self.refs@.len()
                && self.refs@[i].reference@ == self.refs@[j].reference@ && m@ == duplicate_ref_message(self.refs@[j].reference@),
            r matches Err(StaircaseError::RefCollision { reference, expected, .. }) ==> exists|i: int| 0 <= i < self.refs@.len()
                && reference@ == self.refs@[i].reference@
                && expected@ == match self.refs@[i].expected { Some(s) => s@, None => "<missing>"@ },
            r matches Err(e) ==> (e is Io || e is Other || e is RefCollision),
    {
        let mut seen: Vec<String> = Vec::new();
        let mut i: usize = 0;
        while i < self.refs.len()
            invariant
                i <= self.refs@.len(),
                seen@.len() == i,
                forall|k: int| 0 <= k < i ==> #[trigger] seen@[k]@ == self.refs@[k].reference@,
                forall|a: int, b: int| 0 <= a < b < i ==> self.refs@[a].reference@ != self.refs@[b].reference@,
            decreases self.refs@.len() - i,
        {
            let edit = &self.refs[i];
            if contains_text(&seen, edit.reference.as_str()) {
                proof {
                    let k = choose|k: int| 0 <= k < seen@.len() && seen@[k]@ == edit.reference@;
                    assert(self.refs@[k].reference@ == self.refs@[i as int].reference@);
                }
                return Err(StaircaseError::Other(cat3("mutation plan contains duplicate ref '", edit.reference.as_str(), "'")));
            }
            seen.push(edit.reference.clone());
            let actual = repo.resolve_ref_opt(edit.reference.as_str())?;
            let same = match (&actual, &edit.expected) {
                (Some(a), Some(b)) => str_eq(a.as_str(), b.as_str()),
                (None, None) => true,
                _ => false,
            };
            if !same {
                let expected = match &edit.expected {
                    Some(s) => s.clone(),
                    None => owned("<missing>"),
                };
                return Err(StaircaseError::RefCollision {
                    reference: edit.reference.clone(),
                    expected,
                    actual: or_missing(actual),
                });
            }
            proof {
                assert forall|a: int, b: int| 0 <= a < b < i + 1 implies self.refs@[a].reference@ != self.refs@[b].reference@ by {
                    if b == i {
                        assert(seen@[a]@ == self.refs@[a].reference@);
                    }
                }
            }
            i += 1;
        }
        Ok(())
    }

    /// Validates the plan and, unless `dry_run`, publishes it: under the
    /// operation locks and with no other operation active, a journal records
    /// the plan and its recovery refs, the refs move in one transaction, and
    /// the journal is finished. A dry run publishes nothing and returns none.
    pub fn publish(&self, repo: &GitRepo, dry_run: bool) -> (r: Result<Option<OperationResult>>)
        ensures
            dry_run && r is Ok ==> r == Ok::<Option<OperationResult>, StaircaseError>(None),
            r matches Ok(Some(res)) ==> res.schema@ == "git-staircase/operation-result"@ && res.version == 1
                && res.kind == self.kind && res.transition@ == "completed"@ && res.restored_refs == 0 && !res.draft_restored,
    {
        self.validate(repo)?;
        if dry_run {
            return Ok(None);
        }
        let mut journal = OperationJournal::from_plan(repo, self)?;
        let locks = OperationLocks::acquire(repo, journal.operation_id.as_str(), journal.lineage_id_str())?;
        let r = self.publish_locked(repo, &mut journal);
        locks.release(repo);
        r
    }

    fn publish_locked(&self, repo: &GitRepo, journal: &mut OperationJournal) -> (r: Result<Option<OperationResult>>)
        requires
            old(journal).kind == self.kind,
        ensures
            r matches Ok(Some(res)) ==> res.schema@ == "git-staircase/operation-result"@ && res.version == 1
                && res.kind == self.kind && res.transition@ == "completed"@ && res.restored_refs == 0 && !res.draft_restored,
    {
        ensure_no_active_except(repo, None)?;
        journal.publish(repo)?;
        let result = OperationResult {
            schema: owned("git-staircase/operation-result"),
            version: 1,
            operation_id: journal.operation_id.clone(),
            kind: journal.kind.clone(),
            transition: owned("completed"),
            restored_refs: 0,
            draft_restored: false,
        };
        journal.finish(repo)?;
        Ok(Some(result))
    }
}

} // verus!
