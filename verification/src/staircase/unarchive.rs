//! Restoring an archived staircase: its record moves back to the active
//! namespace, under its name or a new one, and its branches come back.

use vstd::prelude::*;
use crate::error::{Result, StaircaseError};
use crate::fresh::fresh_uuid_simple;
use crate::git::repo::GitRepo;
use crate::model::{LifecycleEvent, LifecycleState, StaircaseRecord, Step};
use crate::monorepo::shadow::timestamp_iso8601;
use crate::staircase::archive::branch_name;
use crate::staircase::operation::mutation::{MutationPlan, RefMutation};
use crate::staircase::persistence::record::{mutation_view, read_record, spec_step_key, spec_step_ref, step_key, write_record};
use crate::staircase::refs::spec_record;
use crate::model::metadata::copy_opt;
use crate::staircase::refs::StaircaseRefs;
use crate::staircase::resolved::ResolvedSelector;
use crate::text::{cat, cat3, decimal, opt_view, owned, str_eq, trim_str, usize_to_decimal, views};

verus! {

/// Which branches an unarchived staircase gets back.
#[derive(Debug, Clone, Copy, PartialEq, Eq, Structural)]
pub enum UnarchiveBranchesMode {
    /// Each step's branch as it was archived.
    Exact,
    /// Branches under new names.
    Rename,
    /// No branches.
    NoBranches,
}

impl Default for UnarchiveBranchesMode {
    fn default() -> (r: Self)
        ensures
            r == UnarchiveBranchesMode::Exact,
    {
        UnarchiveBranchesMode::Exact
    }
}

/// How to unarchive a staircase.
#[derive(Debug, Clone)]
pub struct UnarchiveOptions {
    pub new_name: Option<String>,
    pub branch_base: Option<String>,
    pub branches_mode: UnarchiveBranchesMode,
    pub adopt_existing_branches: bool,
    pub reattach_worktrees: bool,
    pub adopt: bool,
    pub accept_current_context: bool,
}

impl Default for UnarchiveOptions {
    fn default() -> (r: Self)
        ensures
            r.new_name is None && r.branch_base is None && r.branches_mode == UnarchiveBranchesMode::Exact,
            !r.adopt_existing_branches && !r.reattach_worktrees && !r.adopt && !r.accept_current_context,
    {
        UnarchiveOptions {
            new_name: None,
            branch_base: None,
            branches_mode: UnarchiveBranchesMode::Exact,
            adopt_existing_branches: false,
            reattach_worktrees: false,
            adopt: false,
            accept_current_context: false,
        }
    }
}

/// What unarchiving restored.
#[derive(Debug, Clone)]
pub struct UnarchiveResult {
    pub restored_staircase_id: String,
    pub canonical_name: String,
    pub restored_branches: Vec<String>,
}

/// The branch restored for step `index` (from 0) of `total`: on a branch
/// base, `<base>-<index+1>` (the base itself for a single step); else the
/// step's archived branch without `refs/heads/`; else `<name>-<index+1>`.
pub open spec fn spec_restored_branch(
    index: nat,
    total: nat,
    base: Option<Seq<char>>,
    step_branch: Option<Seq<char>>,
    name: Seq<char>,
) -> Seq<char> {
    match base {
        Some(b) => if total > 1 { b + "-"@ + decimal(index + 1) } else { b },
        None => match step_branch {
            Some(sb) => if "refs/heads/"@.is_prefix_of(sb) { sb.skip(11) } else { sb },
            None => name + "-"@ + decimal(index + 1),
        },
    }
}

/// The branch restored for a step (see `spec_restored_branch`).
pub fn restored_branch_name(index: usize, total: usize, base: &Option<String>, step_branch: &Option<String>, name: &str) -> (r: String)
    requires
        index < usize::MAX,
    ensures
        r@ == spec_restored_branch(index as nat, total as nat, opt_view(*base), opt_view(*step_branch), name@),
{
    match base {
        Some(b) => {
            if total > 1 {
                cat3(b.as_str(), "-", usize_to_decimal(index + 1).as_str())
            } else {
                b.clone()
            }
        },
        None => match step_branch {
            Some(sb) => branch_name(sb.as_str()),
            None => cat3(name, "-", usize_to_decimal(index + 1).as_str()),
        },
    }
}

/// The message when a branch to restore already exists at the step's cut.
pub open spec fn adoption_needed_message(dest_ref: Seq<char>, oid: Seq<char>) -> Seq<char> {
    "branch '"@ + dest_ref + "' exists at step cut "@ + oid + "; adoption requires --adopt-existing-branches"@
}

/// The message when a branch to restore exists elsewhere.
pub open spec fn branch_conflict_message(dest_ref: Seq<char>, oid: Seq<char>, cut: Seq<char>) -> Seq<char> {
    "cannot restore "@ + dest_ref + ": branch exists at different OID ("@ + oid + ", expected "@ + cut + ")"@
}

/// Whether the branch `dest_ref`, now at `existing` (if it exists), can be
/// restored at `cut`: it must not exist, or exist at `cut` with adoption allowed.
pub fn check_restorable(dest_ref: &str, existing: &Option<String>, cut: &str, adopt_existing: bool) -> (r: Result<()>)
    ensures
        match *existing {
            None => r is Ok,
            Some(e) => if e@ == cut@ {
                if adopt_existing {
                    r is Ok
                } else {
                    r matches Err(StaircaseError::Other(m)) && m@ == adoption_needed_message(dest_ref@, e@)
                }
            } else {
                r matches Err(StaircaseError::Other(m)) && m@ == branch_conflict_message(dest_ref@, e@, cut@)
            },
        },
{
    match existing {
        None => Ok(()),
        Some(e) => {
            if str_eq(e.as_str(), cut) {
                if adopt_existing {
                    Ok(())
                } else {
                    let mut m = cat3("branch '", dest_ref, "' exists at step cut ");
                    m.append(e.as_str());
                    m.append("; adoption requires --adopt-existing-branches");
                    Err(StaircaseError::Other(m))
                }
            } else {
                let mut m = cat3("cannot restore ", dest_ref, ": branch exists at different OID (");
                m.append(e.as_str());
                m.append(", expected ");
                m.append(cut);
                m.append(")");
                Err(StaircaseError::Other(m))
            }
        },
    }
}

/// The message when the restored name belongs to another active staircase.
pub open spec fn name_collision_message(name: Seq<char>) -> Seq<char> {
    "canonical staircase name '"@ + name + "' collides with an active staircase; specify --name <new-name>"@
}

/// The message when configuration of a branch to restore belongs to no one archived.
pub open spec fn foreign_config_message(branch: Seq<char>) -> Seq<char> {
    "configuration for branch '"@ + branch + "' exists and is not owned by the archived staircase"@
}

/// Whether the archive manifest of `record` snapshotted configuration of `branch`.
fn config_is_owned(record: &StaircaseRecord, branch: &str) -> (r: bool)
    ensures
        r <==> (record.archive_manifest matches Some(m) && exists|j: int|
            0 <= j < m.branch_configs@.len() && (#[trigger] m.branch_configs@[j]).branch_name@ == branch@),
{
    match &record.archive_manifest {
        Some(m) => {
            let mut i: usize = 0;
            while i < m.branch_configs.len()
                invariant
                    record.archive_manifest == Some(*m),
                    i <= m.branch_configs@.len(),
                    forall|j: int| 0 <= j < i ==> (#[trigger] m.branch_configs@[j]).branch_name@ != branch@,
                decreases m.branch_configs@.len() - i,
            {
                if str_eq(m.branch_configs[i].branch_name.as_str(), branch) {
                    assert(m.branch_configs@[i as int].branch_name@ == branch@);
                    return true;
                }
                i += 1;
            }
            false
        },
        None => false,
    }
}

/// The branches to restore, with their cuts, checked against existing
/// branches and branch configuration.
fn branches_to_restore(repo: &GitRepo, record: &StaircaseRecord, target_name: &str, options: &UnarchiveOptions) -> (r: Result<Vec<(String, String)>>)
    ensures
        r matches Ok(v) ==> v@.len() == record.metadata.steps@.len(),
        r matches Ok(v) ==> forall|i: int| 0 <= i < v@.len() ==> {
            &&& (#[trigger] v@[i]).0@ == spec_restored_branch(i as nat, record.metadata.steps@.len(),
                opt_view(options.branch_base), opt_view(record.metadata.steps@[i].branch), target_name@)
            &&& v@[i].1@ == record.metadata.steps@[i].cut@
        },
{
    let steps = &record.metadata.steps;
    let mut out: Vec<(String, String)> = Vec::new();
    let mut i: usize = 0;
    while i < steps.len()
        invariant
            steps == &record.metadata.steps,
            i <= steps@.len(),
            out@.len() == i,
            forall|j: int| 0 <= j < i ==> {
                &&& (#[trigger] out@[j]).0@ == spec_restored_branch(j as nat, steps@.len(),
                    opt_view(options.branch_base), opt_view(steps@[j].branch), target_name@)
                &&& out@[j].1@ == steps@[j].cut@
            },
        decreases steps@.len() - i,
    {
        let step = &steps[i];
        let dest = restored_branch_name(i, steps.len(), &options.branch_base, &step.branch, target_name);
        let dest_ref = cat("refs/heads/", dest.as_str());
        match repo.resolve_ref_opt(dest_ref.as_str()) {
            Ok(existing) => check_restorable(dest_ref.as_str(), &existing, step.cut.as_str(), options.adopt_existing_branches)?,
            Err(_) => {},
        }
        let pattern = cat3("^branch\\.", dest.as_str(), "\\.");
        match repo.run(&["config", "--get-regexp", pattern.as_str()]) {
            Ok(stdout) => {
                if trim_str(stdout.as_str()).unicode_len() > 0 && !config_is_owned(record, dest.as_str()) {
                    let m = cat3("configuration for branch '", dest.as_str(), "' exists and is not owned by the archived staircase");
                    return Err(StaircaseError::Other(m));
                }
            },
            Err(_) => {},
        }
        out.push((dest, step.cut.clone()));
        i += 1;
    }
    Ok(out)
}

/// Fails when the active staircase that holds the public ref of `name` is
/// another than `id`.
fn check_name_free(repo: &GitRepo, name: &str, id: &str) -> (r: Result<()>)
    ensures
        r matches Err(e) ==> (e matches StaircaseError::Other(m) && m@ == name_collision_message(name@)),
{
    let public_ref = StaircaseRefs::public(name);
    match repo.resolve_ref_opt(public_ref.as_str()) {
        Ok(Some(oid)) => match read_record(repo, oid.as_str()) {
            Ok(existing) => {
                if !str_eq(existing.metadata.id.as_str(), id) {
                    let m = cat3("canonical staircase name '", name, "' collides with an active staircase; specify --name <new-name>");
                    return Err(StaircaseError::Other(m));
                }
                Ok(())
            },
            Err(_) => Ok(()),
        },
        _ => Ok(()),
    }
}

/// The branches that restoring `steps` on `base` under `name` creates, in
/// step order (see [`spec_restored_branch`]).
pub open spec fn restored_names(steps: Seq<Step>, base: Option<Seq<char>>, name: Seq<char>) -> Seq<Seq<char>> {
    Seq::new(steps.len(), |i: int| spec_restored_branch(i as nat, steps.len(), base, opt_view(steps[i].branch), name))
}

/// A ref move: the ref, the value it holds now (none: absent) and the value
/// it is to hold (none: deleted).
pub type RefMove = (Seq<char>, Option<Seq<char>>, Option<Seq<char>>);

/// The step ref moves of unarchiving staircase `id`: each step's archived
/// ref is deleted and its active ref created, at its cut, in step order.
pub open spec fn unarchive_step_moves(id: Seq<char>, steps: Seq<Step>) -> Seq<RefMove>
    decreases steps.len(),
{
    if steps.len() == 0 {
        seq![]
    } else {
        let s = steps.last();
        unarchive_step_moves(id, steps.drop_last()) + seq![
            (spec_step_ref(id, spec_step_key(s), LifecycleState::Archived), Some(s.cut@), None),
            (spec_step_ref(id, spec_step_key(s), LifecycleState::Active), None, Some(s.cut@)),
        ]
    }
}

/// The ref moves of unarchiving staircase `id` from record `record_oid` to
/// record `active_oid` under `name`: the archived record ref is deleted,
/// the active record ref and the public ref of `name` are created, the
/// step refs move (see `unarchive_step_moves`), the archived copies of
/// owned refs in `dropped` (ref and value) are deleted, and each branch of
/// `branches` (name, current value, cut) moves to its cut.
pub open spec fn unarchive_moves(
    id: Seq<char>,
    record_oid: Seq<char>,
    active_oid: Seq<char>,
    name: Seq<char>,
    steps: Seq<Step>,
    dropped: Seq<(String, String)>,
    branches: Seq<(String, Option<String>, String)>,
) -> Seq<RefMove> {
    seq![
        (spec_record(id, LifecycleState::Archived), Some(record_oid), None),
        (spec_record(id, LifecycleState::Active), None, Some(active_oid)),
        ("refs/staircases/"@ + name, None, Some(active_oid)),
    ] + unarchive_step_moves(id, steps) + dropped.map_values(|d: (String, String)| (d.0@, Some(d.1@), None::<Seq<char>>))
        + branches.map_values(
        |b: (String, Option<String>, String)| ("refs/heads/"@ + b.0@, opt_view(b.1), Some(b.2@)),
    )
}

/// The ref moves of a plan.
pub open spec fn plan_moves(p: MutationPlan) -> Seq<RefMove> {
    p.refs@.map_values(|m: RefMutation| mutation_view(m))
}

/// The mutation plan of unarchiving: kind `unarchive`, lineage `id`,
/// expecting record `record_oid`, with the moves of `unarchive_moves`.
pub fn unarchive_plan(
    id: &str,
    record_oid: &str,
    active_oid: &str,
    name: &str,
    steps: &Vec<Step>,
    dropped: &Vec<(String, String)>,
    branches: &Vec<(String, Option<String>, String)>,
) -> (p: MutationPlan)
    ensures
        p.kind@ == "unarchive"@,
        p.lineage_id matches Some(l) && l@ == id@,
        p.expected_record_revision matches Some(e) && e@ == record_oid@,
        plan_moves(p) == unarchive_moves(id@, record_oid@, active_oid@, name@, steps@, dropped@, branches@),
{
    let mut plan = MutationPlan::new("unarchive", Some(owned(id))).expected_record(Some(owned(record_oid)));
    plan.update(StaircaseRefs::record(id, LifecycleState::Archived), Some(owned(record_oid)), None);
    plan.update(StaircaseRefs::record(id, LifecycleState::Active), None, Some(owned(active_oid)));
    plan.update(StaircaseRefs::public(name), None, Some(owned(active_oid)));
    let ghost head: Seq<RefMove> = seq![
        (spec_record(id@, LifecycleState::Archived), Some(record_oid@), None),
        (spec_record(id@, LifecycleState::Active), None, Some(active_oid@)),
        ("refs/staircases/"@ + name@, None, Some(active_oid@)),
    ];
    proof {
        assert(plan_moves(plan) =~= head + unarchive_step_moves(id@, steps@.take(0)));
    }
    let mut k: usize = 0;
    while k < steps.len()
        invariant
            k <= steps@.len(),
            plan.kind@ == "unarchive"@,
            plan.lineage_id matches Some(l) && l@ == id@,
            plan.expected_record_revision matches Some(e) && e@ == record_oid@,
            plan_moves(plan) == head + unarchive_step_moves(id@, steps@.take(k as int)),
        decreases steps@.len() - k,
    {
        let step = &steps[k];
        let key = step_key(step);
        let ghost before = plan_moves(plan);
        plan.update(StaircaseRefs::step(id, key, LifecycleState::Archived), Some(step.cut.clone()), None);
        plan.update(StaircaseRefs::step(id, key, LifecycleState::Active), None, Some(step.cut.clone()));
        proof {
            let t = steps@.take(k + 1);
            assert(t.drop_last() =~= steps@.take(k as int));
            assert(t.last() == steps@[k as int]);
            assert(plan_moves(plan) =~= before + seq![
                (spec_step_ref(id@, key@, LifecycleState::Archived), Some(steps@[k as int].cut@), None),
                (spec_step_ref(id@, key@, LifecycleState::Active), None, Some(steps@[k as int].cut@)),
            ]);
        }
        k += 1;
    }
    let ghost mid = head + unarchive_step_moves(id@, steps@);
    proof {
        assert(steps@.take(steps@.len() as int) =~= steps@);
        assert(dropped@.take(0).map_values(|d: (String, String)| (d.0@, Some(d.1@), None::<Seq<char>>)) =~= Seq::<RefMove>::empty());
        assert(plan_moves(plan) =~= mid + dropped@.take(0).map_values(|d: (String, String)| (d.0@, Some(d.1@), None::<Seq<char>>)));
    }
    let mut q: usize = 0;
    while q < dropped.len()
        invariant
            q <= dropped@.len(),
            plan.kind@ == "unarchive"@,
            plan.lineage_id matches Some(l) && l@ == id@,
            plan.expected_record_revision matches Some(e) && e@ == record_oid@,
            plan_moves(plan) == mid + dropped@.take(q as int).map_values(|d: (String, String)| (d.0@, Some(d.1@), None::<Seq<char>>)),
        decreases dropped@.len() - q,
    {
        let ghost before = plan_moves(plan);
        plan.update(dropped[q].0.clone(), Some(dropped[q].1.clone()), None);
        proof {
            assert(dropped@.take(q + 1).map_values(|d: (String, String)| (d.0@, Some(d.1@), None::<Seq<char>>))
                =~= dropped@.take(q as int).map_values(|d: (String, String)| (d.0@, Some(d.1@), None::<Seq<char>>)).push((dropped@[q as int].0@, Some(dropped@[q as int].1@), None::<Seq<char>>)));
            assert(plan_moves(plan) =~= before.push((dropped@[q as int].0@, Some(dropped@[q as int].1@), None::<Seq<char>>)));
        }
        q += 1;
    }
    let ghost mid2 = mid + dropped@.map_values(|d: (String, String)| (d.0@, Some(d.1@), None::<Seq<char>>));
    proof {
        assert(dropped@.take(dropped@.len() as int) =~= dropped@);
        assert(branches@.take(0).map_values(|b: (String, Option<String>, String)| ("refs/heads/"@ + b.0@, opt_view(b.1), Some(b.2@))) =~= Seq::<RefMove>::empty());
        assert(plan_moves(plan) =~= mid2 + branches@.take(0).map_values(|b: (String, Option<String>, String)| ("refs/heads/"@ + b.0@, opt_view(b.1), Some(b.2@))));
    }
    let mut b: usize = 0;
    while b < branches.len()
        invariant
            b <= branches@.len(),
            plan.kind@ == "unarchive"@,
            plan.lineage_id matches Some(l) && l@ == id@,
            plan.expected_record_revision matches Some(e) && e@ == record_oid@,
            plan_moves(plan) == mid2 + branches@.take(b as int).map_values(|x: (String, Option<String>, String)| ("refs/heads/"@ + x.0@, opt_view(x.1), Some(x.2@))),
        decreases branches@.len() - b,
    {
        let ghost before = plan_moves(plan);
        let full_ref = cat("refs/heads/", branches[b].0.as_str());
        plan.update(full_ref, copy_opt(&branches[b].1), Some(branches[b].2.clone()));
        proof {
            let x = branches@[b as int];
            assert(branches@.take(b + 1).map_values(|x: (String, Option<String>, String)| ("refs/heads/"@ + x.0@, opt_view(x.1), Some(x.2@)))
                =~= branches@.take(b as int).map_values(|x: (String, Option<String>, String)| ("refs/heads/"@ + x.0@, opt_view(x.1), Some(x.2@))).push(("refs/heads/"@ + x.0@, opt_view(x.1), Some(x.2@))));
            assert(plan_moves(plan) =~= before.push(("refs/heads/"@ + x.0@, opt_view(x.1), Some(x.2@))));
        }
        b += 1;
    }
    proof {
        assert(branches@.take(branches@.len() as int) =~= branches@);
        reveal_strlit("unarchive");
    }
    plan
}

/// Unarchives the selected staircase: an active one is reported as it is.
/// Otherwise its name (or `new_name`) must not belong to another active
/// staircase, and unless no branches are asked for, each step gets a
/// branch (see `spec_restored_branch`) that must not exist elsewhere or
/// carry foreign configuration. One ref transaction (see `unarchive_plan`)
/// moves the record and step refs from the archive to the active
/// namespace, publishes the name, drops the archived copies of owned refs
/// and creates the branches; the archived branch configuration is then
/// restored. See `unarchive_record` for the record read.
pub fn unarchive_staircase(repo: &GitRepo, selector: &ResolvedSelector, options: &UnarchiveOptions) -> (r: Result<UnarchiveResult>)
    requires
        !(selector.staircase is ImplicitFamily),
    ensures
        r matches Ok(res) ==> (selector.staircase is Managed ==> res.restored_staircase_id@
            == selector.staircase->Managed_0.id@) && (selector.staircase is Implicit
            ==> res.restored_staircase_id@ == selector.staircase->Implicit_0.id@),
        r matches Ok(res) ==> (options.branches_mode == UnarchiveBranchesMode::NoBranches ==> res.restored_branches@.len() == 0),
{
    let meta = selector.metadata();
    let state = match &meta.lifecycle {
        Some(l) => l.state,
        None => LifecycleState::Archived,
    };
    let current_ref = StaircaseRefs::record(meta.id.as_str(), state);
    let record = read_record(repo, current_ref.as_str())?;
    unarchive_record(repo, meta.id.as_str(), meta.name.as_str(), &record, options)
}

/// Unarchives staircase `id` (named `name`) whose current record is
/// `record` (see `unarchive_staircase`). An active record is reported as it
/// is, with no branches. Otherwise the staircase is restored under
/// `new_name` or the archived name, and the branches restored are those of
/// the archived steps (see `restored_names`), none when none are asked for.
pub fn unarchive_record(repo: &GitRepo, id: &str, name: &str, record: &StaircaseRecord, options: &UnarchiveOptions) -> (r: Result<UnarchiveResult>)
    ensures
        record.lifecycle.state == LifecycleState::Active ==> (r matches Ok(res) && res.canonical_name@ == name@
            && res.restored_branches@.len() == 0),
        r matches Ok(res) ==> res.restored_staircase_id@ == id@,
        r matches Ok(res) ==> (options.branches_mode == UnarchiveBranchesMode::NoBranches ==> res.restored_branches@.len() == 0),
        record.lifecycle.state != LifecycleState::Active ==> (r matches Ok(res) ==> {
            &&& res.canonical_name@ == match options.new_name { Some(n) => n@, None => record.metadata.name@ }
            &&& options.branches_mode != UnarchiveBranchesMode::NoBranches ==> views(res.restored_branches@)
                == restored_names(record.metadata.steps@, opt_view(options.branch_base), res.canonical_name@)
        }),
{
    if record.lifecycle.state == LifecycleState::Active {
        return Ok(UnarchiveResult {
            restored_staircase_id: owned(id),
            canonical_name: owned(name),
            restored_branches: Vec::new(),
        });
    }
    let target_name = match &options.new_name {
        Some(n) => n.clone(),
        None => record.metadata.name.clone(),
    };
    check_name_free(repo, target_name.as_str(), id)?;
    let restoring = options.branches_mode != UnarchiveBranchesMode::NoBranches;
    let restored: Vec<(String, String)> = if restoring {
        branches_to_restore(repo, record, target_name.as_str(), options)?
    } else {
        Vec::new()
    };
    let event_id = cat("evt-unarchive-", fresh_uuid_simple().as_str());
    let mut lifecycle = record.lifecycle.clone();
    lifecycle.state = LifecycleState::Active;
    lifecycle.events.push(LifecycleEvent {
        event_id,
        kind: owned("unarchived"),
        timestamp: timestamp_iso8601(),
        actor: None,
        record_oid_before: Some(record.record_oid.clone()),
        record_oid_after: None,
        canonical_name: Some(target_name.clone()),
        reason: None,
        details: owned("null"),
    });
    let mut metadata = record.metadata.clone();
    metadata.name = target_name.clone();
    let mut steps: Vec<Step> = Vec::new();
    let mut i: usize = 0;
    while i < record.metadata.steps.len()
        invariant
            i <= record.metadata.steps@.len(),
        decreases record.metadata.steps@.len() - i,
    {
        let mut step = record.metadata.steps[i].copy();
        step.branch = if restoring && i < restored.len() {
            Some(restored[i].0.clone())
        } else if restoring {
            step.branch
        } else {
            None
        };
        steps.push(step);
        i += 1;
    }
    metadata.steps = steps;
    let active_record = write_record(
        repo,
        &metadata,
        &record.user_metadata,
        &lifecycle,
        None,
        Some(record.record_oid.as_str()),
        false,
    )?;
    let mut dropped: Vec<(String, String)> = Vec::new();
    match &record.archive_manifest {
        Some(manifest) => {
            let mut q: usize = 0;
            while q < manifest.owned_refs.len()
                invariant
                    q <= manifest.owned_refs@.len(),
                    record.lifecycle.state != LifecycleState::Active,
                decreases manifest.owned_refs@.len() - q,
            {
                let owned_ref = &manifest.owned_refs[q];
                if repo.resolve_ref_opt(owned_ref.archive_refname.as_str())?.is_some() {
                    dropped.push((owned_ref.archive_refname.clone(), owned_ref.original_oid.clone()));
                }
                q += 1;
            }
        },
        None => {},
    }
    let mut branches: Vec<(String, Option<String>, String)> = Vec::new();
    let mut b: usize = 0;
    while b < restored.len()
        invariant
            b <= restored@.len(),
            record.lifecycle.state != LifecycleState::Active,
        decreases restored@.len() - b,
    {
        let full_ref = cat("refs/heads/", restored[b].0.as_str());
        let current = repo.resolve_ref_opt(full_ref.as_str())?;
        branches.push((restored[b].0.clone(), current, restored[b].1.clone()));
        b += 1;
    }
    let plan = unarchive_plan(
        id,
        record.record_oid.as_str(),
        active_record.record_oid.as_str(),
        target_name.as_str(),
        &metadata.steps,
        &dropped,
        &branches,
    );
    plan.publish(repo, false)?;
    match &record.archive_manifest {
        Some(manifest) => {
            let mut c: usize = 0;
            while c < manifest.branch_configs.len()
                invariant
                    c <= manifest.branch_configs@.len(),
                decreases manifest.branch_configs@.len() - c,
            {
                let entries = &manifest.branch_configs[c].entries;
                let mut e: usize = 0;
                while e < entries.len()
                    invariant
                        e <= entries@.len(),
                    decreases entries@.len() - e,
                {
                    let _ = repo.run(&["config", entries[e].key.as_str(), entries[e].value.as_str()]);
                    e += 1;
                }
                c += 1;
            }
        },
        None => {},
    }
    let mut names: Vec<String> = Vec::new();
    let mut n: usize = 0;
    while n < restored.len()
        invariant
            n <= restored@.len(),
            names@.len() == n,
            forall|j: int| 0 <= j < n ==> (#[trigger] names@[j])@ == restored@[j].0@,
        decreases restored@.len() - n,
    {
        names.push(restored[n].0.clone());
        n += 1;
    }
    proof {
        if restoring {
            let wit = restored_names(record.metadata.steps@, opt_view(options.branch_base), target_name@);
            assert(views(names@) =~= wit);
        } else {
            assert(names@.len() == 0);
        }
    }
    Ok(UnarchiveResult {
        restored_staircase_id: owned(id),
        canonical_name: target_name,
        restored_branches: names,
    })
}

} // verus!
