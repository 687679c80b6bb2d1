//! Structural edits of a staircase: splitting and joining steps, reordering,
//! dropping and moving commits between steps, restacking, rebasing,
//! landing and deleting. Edits that keep every commit publish a new
//! structure; edits that change history replay commits (see `rewrite`).

use vstd::prelude::*;
use crate::error::{Result, StaircaseError};
use crate::fresh::fresh_uuid;
use crate::git::repo::GitRepo;
use crate::json::JsonValue;
use crate::model::{LandingPolicy, LifecycleState, StaircaseMetadata, Step};
use crate::staircase::local::{ensure_active, is_archived, publish_metadata, publish_record_parts_extra};
use crate::staircase::operation::mutation::MutationPlan;
use crate::staircase::persistence::record::{read_metadata, read_record};
use crate::staircase::refs::{StaircaseRefs, ARCHIVE_PREFIX, STATE_PREFIX};
use crate::staircase::resolved::{adopt, copy_structure, linear_metadata, validate_renumbering, ResolvedSelector, ResolvedStaircase};
use crate::staircase::rewrite::replay;
use crate::staircase::status::get_status_metadata;
use crate::text::{cat, cat3, owned, split_once, starts_with, str_eq, usize_to_decimal, decimal, views};

verus! {

/// How to rebase or restack.
#[derive(Debug, Clone)]
pub struct RebaseOptions {
    pub leave_upper_steps_stale: bool,
}

/// How to reorder steps.
#[derive(Debug, Clone)]
pub struct ReorderOptions {
    pub no_restack: bool,
}

/// How to drop a step.
#[derive(Debug, Clone)]
pub struct DropOptions {
    pub restack: bool,
    pub leave_descendants_stale: bool,
}

/// How to split a step.
#[derive(Debug, Clone)]
pub struct SplitOptions {
    pub no_ref: bool,
}

/// What joining does with the branch of the step that disappears.
#[derive(Debug, Clone, PartialEq, Eq)]
pub enum JoinRefAction {
    Delete,
    Rename(String),
    Keep,
}

/// How to join two steps.
#[derive(Debug, Clone)]
pub struct JoinOptions {
    pub ref_action: JoinRefAction,
}

/// How to land a staircase.
#[derive(Debug, Clone)]
pub struct LandOptions {
    pub policy: Option<LandingPolicy>,
}

/// The message for editing an archived staircase.
pub open spec fn archived_edit_message() -> Seq<char> {
    "staircase is archived; unarchive it before mutation"@
}

/// Refuses an archived staircase.
fn check_active(staircase: &ResolvedStaircase) -> (r: Result<()>)
    requires
        !(*staircase is ImplicitFamily),
    ensures
        is_archived(linear_metadata(*staircase)) <==> r is Err,
        r matches Err(e) ==> (e matches StaircaseError::Other(m) && m@ == archived_edit_message()),
{
    ensure_active(staircase.metadata())
}

/// The message for a step index past the last step.
pub open spec fn index_range_message(index: nat) -> Seq<char> {
    "Step index "@ + decimal(index) + " out of bounds"@
}

/// The message for a split point outside the step.
pub open spec fn split_below_message(at: Seq<char>, prev: Seq<char>) -> Seq<char> {
    "Commit "@ + at + " is not a descendant of previous step cut "@ + prev
}

/// The message for a split point above the step.
pub open spec fn split_above_message(at: Seq<char>, cut: Seq<char>) -> Seq<char> {
    "Commit "@ + at + " is not an ancestor of step cut "@ + cut
}

/// Checks that `at_commit` lies strictly inside step `step_index` (above
/// the previous cut, or the target, and below the step's cut), and returns
/// the commit it resolves to.
pub fn validate_split(repo: &GitRepo, staircase: &ResolvedStaircase, step_index: usize, at_commit: &str) -> (r: Result<String>)
    requires
        !(*staircase is ImplicitFamily),
    ensures
        step_index >= linear_metadata(*staircase).steps@.len() ==> (r matches Err(StaircaseError::InvalidStructure(m))
            && m@ == index_range_message(step_index as nat)),
        r matches Ok(at) ==> step_index < linear_metadata(*staircase).steps@.len()
            && at@ != linear_metadata(*staircase).steps@[step_index as int].cut@,
{
    let meta = staircase.metadata();
    if step_index >= meta.steps.len() {
        let mut m = cat("Step index ", usize_to_decimal(step_index).as_str());
        m.append(" out of bounds");
        return Err(StaircaseError::InvalidStructure(m));
    }
    let at_oid = repo.resolve_commit(at_commit)?;
    let cut_oid = &meta.steps[step_index].cut;
    let prev_cut_oid = if step_index == 0 {
        repo.resolve_commit(meta.target.as_str())?
    } else {
        meta.steps[step_index - 1].cut.clone()
    };
    if !repo.is_ancestor(prev_cut_oid.as_str(), at_oid.as_str())? {
        let mut m = cat3("Commit ", at_commit, " is not a descendant of previous step cut ");
        m.append(prev_cut_oid.as_str());
        return Err(StaircaseError::InvalidStructure(m));
    }
    if !repo.is_ancestor(at_oid.as_str(), cut_oid.as_str())? {
        let mut m = cat3("Commit ", at_commit, " is not an ancestor of step cut ");
        m.append(cut_oid.as_str());
        return Err(StaircaseError::InvalidStructure(m));
    }
    if str_eq(at_oid.as_str(), prev_cut_oid.as_str()) || str_eq(at_oid.as_str(), cut_oid.as_str()) {
        return Err(StaircaseError::InvalidStructure(owned("Cannot split at step boundaries")));
    }
    Ok(at_oid)
}

/// The name of the step split off below step `name` when none is given.
pub open spec fn split_name(name: Seq<char>) -> Seq<char> {
    name + "-split"@
}

/// Splits step `step_index` at `at_commit`: a new step (named as given, or
/// `<name>-split`) ending there is inserted below it.
pub fn split(
    repo: &GitRepo,
    staircase: &ResolvedStaircase,
    step_index: usize,
    at_commit: &str,
    new_step_name: Option<&str>,
    options: SplitOptions,
) -> (r: Result<()>)
    requires
        !(*staircase is ImplicitFamily),
    ensures
        is_archived(linear_metadata(*staircase)) ==> r is Err,
        !is_archived(linear_metadata(*staircase)) && step_index >= linear_metadata(*staircase).steps@.len() ==> (r matches Err(
            StaircaseError::InvalidStructure(m)) && m@ == index_range_message(step_index as nat)),
{
    check_active(staircase)?;
    let at_oid = validate_split(repo, staircase, step_index, at_commit)?;
    let meta = staircase.metadata();
    let name = match new_step_name {
        Some(n) => owned(n),
        None => cat(meta.steps[step_index].name.as_str(), "-split"),
    };
    let branch = if options.no_ref || staircase.is_managed() {
        None
    } else {
        match new_step_name {
            Some(n) => Some(owned(n)),
            None => None,
        }
    };
    let new_step = Step { id: fresh_uuid(), name, cut: at_oid, branch };
    staircase.add_step(repo, step_index, new_step, options.no_ref)?;
    Ok(())
}

/// Checks a split as `split` would make it, without publishing.
pub fn validate_split_plan(
    repo: &GitRepo,
    staircase: &ResolvedStaircase,
    step_index: usize,
    at_commit: &str,
    new_step_name: Option<&str>,
    no_ref: bool,
) -> (r: Result<()>)
    requires
        !(*staircase is ImplicitFamily),
{
    let at_oid = validate_split(repo, staircase, step_index, at_commit)?;
    let meta = staircase.metadata();
    let name = match new_step_name {
        Some(n) => owned(n),
        None => cat(meta.steps[step_index].name.as_str(), "-split"),
    };
    let branch = match new_step_name {
        Some(n) => Some(owned(n)),
        None => None,
    };
    let step = Step { id: fresh_uuid(), name, cut: at_oid, branch };
    let mut metadata = meta.clone();
    metadata.steps = copy_steps(&meta.steps);
    if no_ref {
        metadata.primary_branch_layout = None;
        metadata.branch_layout_base = None;
    }
    metadata.steps.insert(step_index, step);
    validate_renumbering(repo, meta, &mut metadata)
}

/// A copy of `steps`, step for step.
pub(crate) fn copy_steps(steps: &Vec<Step>) -> (r: Vec<Step>)
    ensures
        r@ == steps@,
{
    let mut out: Vec<Step> = Vec::new();
    let mut i: usize = 0;
    while i < steps.len()
        invariant
            i <= steps@.len(),
            out@ == steps@.take(i as int),
        decreases steps@.len() - i,
    {
        out.push(steps[i].copy());
        proof {
            assert(steps@.take(i + 1) =~= steps@.take(i as int).push(steps@[i as int]));
        }
        i += 1;
    }
    proof {
        assert(steps@.take(steps@.len() as int) =~= steps@);
    }
    out
}

/// The message for joining steps that are not neighbours.
pub open spec fn not_adjacent_message(low: nat, high: nat) -> Seq<char> {
    "Steps to join must be adjacent: "@ + decimal(low) + " and "@ + decimal(high)
}

/// The two steps to join, lower index first: they must be neighbours
/// within the staircase.
pub fn join_pair(i1: usize, i2: usize, count: usize) -> (r: Result<(usize, usize)>)
    ensures
        ({
            let low = if i1 < i2 { i1 } else { i2 };
            let high = if i1 < i2 { i2 } else { i1 };
            &&& low + 1 != high ==> (r matches Err(StaircaseError::InvalidStructure(m))
                && m@ == not_adjacent_message(low as nat, high as nat))
            &&& low + 1 == high && high >= count ==> (r matches Err(StaircaseError::InvalidStructure(m))
                && m@ == index_range_message(high as nat))
            &&& low + 1 == high && high < count ==> r == Ok::<(usize, usize), StaircaseError>((low, high))
        }),
{
    let (low, high) = if i1 < i2 { (i1, i2) } else { (i2, i1) };
    if low >= high || high - low != 1 {
        let mut m = cat("Steps to join must be adjacent: ", usize_to_decimal(low).as_str());
        m.append(" and ");
        m.append(usize_to_decimal(high).as_str());
        return Err(StaircaseError::InvalidStructure(m));
    }
    if high >= count {
        let mut m = cat("Step index ", usize_to_decimal(high).as_str());
        m.append(" out of bounds");
        return Err(StaircaseError::InvalidStructure(m));
    }
    Ok((low, high))
}

/// The name and cut of each step.
pub open spec fn step_points(steps: Seq<Step>) -> Seq<(Seq<char>, Seq<char>)> {
    steps.map_values(|s: Step| (s.name@, s.cut@))
}

/// Joining neighbouring steps `low` and `low + 1` keeps the upper one: the
/// staircase loses one step, the steps below `low` stay, the step at `low`
/// is the old upper step (its cut, so all its commits, stay in the
/// staircase), and the steps above move down by one.
pub proof fn law_join_keeps_upper(old: Seq<(Seq<char>, Seq<char>)>, low: int, joined: Seq<(Seq<char>, Seq<char>)>)
    requires
        0 <= low,
        low + 1 < old.len(),
        joined == old.remove(low),
    ensures
        joined.len() + 1 == old.len(),
        joined[low] == old[low + 1],
        forall|j: int| 0 <= j < low ==> joined[j] == old[j],
        forall|j: int| low <= j < joined.len() ==> joined[j] == old[j + 1],
        joined.last() == old.last(),
{
}

/// Joins two neighbouring steps: the lower one disappears into the upper
/// one. Its branch is deleted (it must still be at its cut), kept where it
/// is, or (renaming) refused.
pub fn join(repo: &GitRepo, staircase: &ResolvedStaircase, step_index_1: usize, step_index_2: usize, options: JoinOptions) -> (r: Result<()>)
    requires
        !(*staircase is ImplicitFamily),
    ensures
        is_archived(linear_metadata(*staircase)) ==> r is Err,
        ({
            let low = if step_index_1 < step_index_2 { step_index_1 } else { step_index_2 };
            let high = if step_index_1 < step_index_2 { step_index_2 } else { step_index_1 };
            let count = linear_metadata(*staircase).steps@.len();
            &&& !is_archived(linear_metadata(*staircase)) && low + 1 != high ==> (r matches Err(
                StaircaseError::InvalidStructure(m)) && m@ == not_adjacent_message(low as nat, high as nat))
            &&& !is_archived(linear_metadata(*staircase)) && low + 1 == high && high >= count ==> (r matches Err(
                StaircaseError::InvalidStructure(m)) && m@ == index_range_message(high as nat))
            &&& !is_archived(linear_metadata(*staircase)) && low + 1 == high && high < count && options.ref_action is Rename
                ==> (r matches Err(StaircaseError::UnsupportedTopology { operation: op, .. }) && op@ == "join"@)
        }),
{
    join_planned(repo, staircase, step_index_1, step_index_2, options)?;
    Ok(())
}

/// Joins two neighbouring steps (see `join`) and returns the steps of the
/// structure it publishes: the old steps without the lower one, whose
/// commits now belong to the upper one (see `law_join_keeps_upper`).
pub fn join_planned(
    repo: &GitRepo,
    staircase: &ResolvedStaircase,
    step_index_1: usize,
    step_index_2: usize,
    options: JoinOptions,
) -> (r: Result<Vec<Step>>)
    requires
        !(*staircase is ImplicitFamily),
    ensures
        is_archived(linear_metadata(*staircase)) ==> r is Err,
        ({
            let low = if step_index_1 < step_index_2 { step_index_1 } else { step_index_2 };
            let high = if step_index_1 < step_index_2 { step_index_2 } else { step_index_1 };
            let count = linear_metadata(*staircase).steps@.len();
            &&& !is_archived(linear_metadata(*staircase)) && low + 1 != high ==> (r matches Err(
                StaircaseError::InvalidStructure(m)) && m@ == not_adjacent_message(low as nat, high as nat))
            &&& !is_archived(linear_metadata(*staircase)) && low + 1 == high && high >= count ==> (r matches Err(
                StaircaseError::InvalidStructure(m)) && m@ == index_range_message(high as nat))
            &&& !is_archived(linear_metadata(*staircase)) && low + 1 == high && high < count && options.ref_action is Rename
                ==> (r matches Err(StaircaseError::UnsupportedTopology { operation: op, .. }) && op@ == "join"@)
            &&& r matches Ok(s) ==> low + 1 == high && high < count
                && step_points(s@) == step_points(linear_metadata(*staircase).steps@).remove(low as int)
                && step_points(s@).len() + 1 == count
                && step_points(s@)[low as int] == step_points(linear_metadata(*staircase).steps@)[high as int]
        }),
{
    check_active(staircase)?;
    let meta = staircase.metadata();
    let (low, _high) = join_pair(step_index_1, step_index_2, meta.steps.len())?;
    let removed = meta.steps[low].copy();
    match &options.ref_action {
        JoinRefAction::Rename(_) => {
            return Err(StaircaseError::UnsupportedTopology {
                operation: owned("join"),
                reason: owned("renaming a retired boundary ref is not a canonical join operation"),
            });
        },
        JoinRefAction::Delete => {
            match &removed.branch {
                Some(branch) => {
                    let reference = cat("refs/heads/", branch.as_str());
                    let actual = repo.resolve_ref_opt(reference.as_str())?;
                    let at_cut = match &actual {
                        Some(a) => str_eq(a.as_str(), removed.cut.as_str()),
                        None => false,
                    };
                    if !at_cut {
                        let found = match actual {
                            Some(a) => a,
                            None => owned("<missing>"),
                        };
                        return Err(StaircaseError::RefCollision { reference, expected: removed.cut.clone(), actual: found });
                    }
                },
                None => {},
            }
        },
        JoinRefAction::Keep => {},
    }
    let managed = match staircase {
        ResolvedStaircase::Managed(m) => copy_structure(m),
        _ => adopt(repo, meta)?,
    };
    proof {
        assert(step_points(managed.steps@) =~= step_points(meta.steps@));
    }
    let mut desired = managed.clone();
    desired.steps = copy_steps(&managed.steps);
    if low < desired.steps.len() {
        desired.steps.remove(low);
    }
    proof {
        assert(step_points(desired.steps@) =~= step_points(meta.steps@).remove(low as int));
    }
    let ghost before = desired.steps@;
    validate_renumbering(repo, &managed, &mut desired)?;
    proof {
        assert(step_points(desired.steps@) =~= step_points(before));
    }
    let published = copy_steps(&desired.steps);
    proof {
        law_join_keeps_upper(step_points(meta.steps@), low as int, step_points(published@));
    }
    let record = read_record(repo, StaircaseRefs::record(desired.id.as_str(), LifecycleState::Active).as_str())?;
    let mut extras: Vec<(String, Option<String>, Option<String>)> = Vec::new();
    let keep = match &options.ref_action {
        JoinRefAction::Keep => true,
        _ => false,
    };
    if keep {
        match &removed.branch {
            Some(branch) => extras.push((cat("refs/heads/", branch.as_str()), Some(removed.cut.clone()), Some(removed.cut.clone()))),
            None => {},
        }
    }
    let selector = ResolvedSelector { staircase: ResolvedStaircase::Managed(managed), step_index: None };
    publish_record_parts_extra(repo, &selector, desired, record.user_metadata, "join", false, &extras)?;
    Ok(published)
}

/// The message for an order with a bad or repeated index.
pub open spec fn bad_order_message() -> Seq<char> {
    "Invalid step indices in new order"@
}

/// Whether `order` lists indices below `count`, each at most once.
pub open spec fn valid_order(order: Seq<usize>, count: nat) -> bool {
    &&& forall|i: int| 0 <= i < order.len() ==> (#[trigger] order[i]) < count
    &&& forall|i: int, j: int| 0 <= i < j < order.len() ==> #[trigger] order[i] != #[trigger] order[j]
}

/// Checks a new order of `count` steps: valid indices, each once, and (when
/// required) all of them.
pub fn check_order(order: &[usize], count: usize, require_complete: bool) -> (r: Result<()>)
    ensures
        !valid_order(order@, count as nat) ==> (r matches Err(StaircaseError::Other(m)) && m@ == bad_order_message()),
        valid_order(order@, count as nat) && require_complete && order@.len() != count ==> (r matches Err(StaircaseError::InvalidStructure(m))
            && m@ == "new order must be a complete permutation of all steps"@),
        valid_order(order@, count as nat) && (!require_complete || order@.len() == count) ==> r is Ok,
{
    let mut i: usize = 0;
    while i < order.len()
        invariant
            i <= order@.len(),
            forall|a: int| 0 <= a < i ==> (#[trigger] order@[a]) < count,
            forall|a: int, b: int| 0 <= a < b < i ==> #[trigger] order@[a] != #[trigger] order@[b],
        decreases order@.len() - i,
    {
        if order[i] >= count {
            return Err(StaircaseError::Other(owned("Invalid step indices in new order")));
        }
        let mut k: usize = 0;
        while k < i
            invariant
                k <= i < order@.len(),
                forall|a: int| 0 <= a < k ==> order@[a] != order@[i as int],
            decreases i - k,
        {
            if order[k] == order[i] {
                proof {
                    assert(!valid_order(order@, count as nat)) by {
                        assert(order@[k as int] == order@[i as int]);
                    }
                }
                return Err(StaircaseError::Other(owned("Invalid step indices in new order")));
            }
            k += 1;
        }
        i += 1;
    }
    if require_complete && order.len() != count {
        return Err(StaircaseError::InvalidStructure(owned("new order must be a complete permutation of all steps")));
    }
    Ok(())
}

/// How many leading positions a new order leaves in place.
pub open spec fn unchanged_prefix(order: Seq<usize>) -> nat
    decreases order.len(),
{
    if order.len() == 0 {
        0
    } else if unchanged_prefix(order.drop_last()) == order.len() - 1 && order.last() == order.len() - 1 {
        order.len() as nat
    } else {
        unchanged_prefix(order.drop_last())
    }
}

/// The number of leading positions a new order leaves in place.
pub fn leading_in_place(order: &[usize]) -> (r: usize)
    ensures
        r <= order@.len(),
        forall|i: int| 0 <= i < r ==> order@[i] == i,
        r < order@.len() ==> order@[r as int] != r,
{
    let mut i: usize = 0;
    while i < order.len() && order[i] == i
        invariant
            i <= order@.len(),
            forall|k: int| 0 <= k < i ==> order@[k] == k,
        decreases order@.len() - i,
    {
        i += 1;
    }
    i
}

/// The commit of the integration boundary a rewrite starts from: the
/// recorded integration anchor, else the target's commit.
fn recorded_target(repo: &GitRepo, metadata: &StaircaseMetadata) -> (r: Result<String>) {
    match &metadata.user_metadata {
        Some(user) => match user.extensions.get("git-staircase.internal.integration-anchor") {
            Some(text) => match repo.host.parse_json(text.as_str()) {
                Ok(JsonValue::String(s)) => return Ok(s),
                _ => {},
            },
            None => {},
        },
        None => {},
    }
    repo.resolve_commit(metadata.target.as_str())
}

/// Refuses to rewrite a staircase with a merge commit in one of its steps.
fn ensure_rewrite_supported(repo: &GitRepo, metadata: &StaircaseMetadata, operation: &str) -> (r: Result<()>) {
    let mut predecessor = recorded_target(repo, metadata)?;
    let mut i: usize = 0;
    while i < metadata.steps.len()
        invariant
            i <= metadata.steps@.len(),
        decreases metadata.steps@.len() - i,
    {
        let step = &metadata.steps[i];
        match repo.has_merges(predecessor.as_str(), step.cut.as_str())? {
            Some(commit) => {
                let mut reason = cat3("step '", step.name.as_str(), "' contains merge commit ");
                reason.append(commit.as_str());
                reason.append("; configure an explicit merge policy first");
                return Err(StaircaseError::UnsupportedTopology { operation: owned(operation), reason });
            },
            None => {},
        }
        predecessor = step.cut.clone();
        i += 1;
    }
    Ok(())
}

/// The commits of each step (oldest first), each step above its predecessor.
fn step_commit_groups(repo: &GitRepo, metadata: &StaircaseMetadata) -> (r: Result<Vec<Vec<String>>>)
    ensures
        r matches Ok(g) ==> g@.len() == metadata.steps@.len(),
{
    let mut predecessor = recorded_target(repo, metadata)?;
    let mut groups: Vec<Vec<String>> = Vec::new();
    let mut i: usize = 0;
    while i < metadata.steps.len()
        invariant
            i <= metadata.steps@.len(),
            groups@.len() == i,
        decreases metadata.steps@.len() - i,
    {
        let step = &metadata.steps[i];
        if !repo.is_ancestor(predecessor.as_str(), step.cut.as_str())? {
            let reason = cat3("step '", step.name.as_str(), "' does not descend from its recorded predecessor");
            return Err(StaircaseError::UnsupportedTopology { operation: owned("rewrite"), reason });
        }
        groups.push(repo.commits_between(predecessor.as_str(), step.cut.as_str())?);
        predecessor = step.cut.clone();
        i += 1;
    }
    Ok(groups)
}

/// Publishes `metadata` as the structure of the staircase (recording an
/// implicit one first): it keeps the lineage id, and a step without an id
/// takes that of the old step with its name or branch.
fn publish_metadata_common(repo: &GitRepo, staircase: &ResolvedStaircase, metadata: StaircaseMetadata, kind: &str) -> (r: Result<()>)
    requires
        !(*staircase is ImplicitFamily),
{
    let managed = match staircase {
        ResolvedStaircase::Managed(m) => m.clone(),
        _ => adopt(repo, staircase.metadata())?,
    };
    let mut metadata = metadata;
    metadata.id = managed.id.clone();
    let ghost n = metadata.steps@.len();
    let mut i: usize = 0;
    while i < metadata.steps.len()
        invariant
            i <= metadata.steps@.len(),
            metadata.steps@.len() == n,
        decreases metadata.steps@.len() - i,
    {
        if metadata.steps[i].id.as_str().unicode_len() == 0 {
            let mut k: usize = 0;
            while k < managed.steps.len()
                invariant
                    k <= managed.steps@.len(),
                    i < metadata.steps@.len(),
                    metadata.steps@.len() == n,
                decreases managed.steps@.len() - k,
            {
                let original = &managed.steps[k];
                let same_branch = match (&metadata.steps[i].branch, &original.branch) {
                    (Some(a), Some(b)) => str_eq(a.as_str(), b.as_str()),
                    _ => false,
                };
                if str_eq(original.name.as_str(), metadata.steps[i].name.as_str()) || same_branch {
                    let mut s = metadata.steps[i].copy();
                    s.id = original.id.clone();
                    metadata.steps.set(i, s);
                    break;
                }
                k += 1;
            }
        }
        i += 1;
    }
    let selector = ResolvedSelector { staircase: ResolvedStaircase::Managed(managed), step_index: None };
    publish_metadata(repo, &selector, metadata, kind, false)?;
    Ok(())
}

/// Reorders the steps to `new_order` (the old index of each new position;
/// all of them). With `no_restack` only the structure changes; otherwise
/// the commits of the steps from the first moved position on are replayed
/// in the new order.
pub fn reorder(repo: &GitRepo, staircase: &ResolvedStaircase, new_order: &[usize], options: ReorderOptions) -> (r: Result<()>)
    requires
        !(*staircase is ImplicitFamily),
    ensures
        !valid_order(new_order@, linear_metadata(*staircase).steps@.len()) && !is_archived(linear_metadata(*staircase))
            ==> r is Err,
{
    reorder_internal(repo, staircase, new_order, options, true, false)?;
    Ok(())
}

/// Checks a reordering as `reorder` would make it, without changing anything.
pub fn reorder_dry_run(repo: &GitRepo, staircase: &ResolvedStaircase, new_order: &[usize], options: ReorderOptions) -> (r: Result<()>)
    requires
        !(*staircase is ImplicitFamily),
    ensures
        !valid_order(new_order@, linear_metadata(*staircase).steps@.len()) && !is_archived(linear_metadata(*staircase))
            ==> r is Err,
{
    reorder_internal(repo, staircase, new_order, options, true, true)?;
    Ok(())
}

/// The name and cut of the step that each position of `order` takes: the
/// old step at that index.
pub open spec fn reordered_points(points: Seq<(Seq<char>, Seq<char>)>, order: Seq<usize>) -> Seq<(Seq<char>, Seq<char>)> {
    Seq::new(order.len(), |k: int| points[order[k] as int])
}

/// A reorder puts at each position `k` the old step `order[k]`: the result
/// has one step per index of the order, the identity order leaves the steps
/// as they are, and two positions keep their relative order exactly when
/// their old indices do.
pub proof fn law_reorder_takes_steps_in_order(points: Seq<(Seq<char>, Seq<char>)>, order: Seq<usize>, result: Seq<(Seq<char>, Seq<char>)>)
    requires
        valid_order(order, points.len()),
        result == reordered_points(points, order),
    ensures
        result.len() == order.len(),
        forall|k: int| 0 <= k < order.len() ==> result[k] == points[order[k] as int],
        (forall|k: int| 0 <= k < order.len() ==> order[k] == k) ==> result == points.take(order.len() as int),
{
    if forall|k: int| 0 <= k < order.len() ==> order[k] == k {
        if order.len() > 0 {
            assert(order[order.len() - 1] == order.len() - 1);
            assert(order.len() <= points.len());
        }
        assert forall|k: int| 0 <= k < order.len() implies result[k] == points.take(order.len() as int)[k] by {
            assert(order[k] == k);
        }
        assert(result =~= points.take(order.len() as int));
    }
}

/// Reorders the steps (see `reorder`) and returns the planned structure:
/// at each position `k` the old step `new_order[k]`, renumbered in the
/// sequential layout; its cuts are published as they are with `no_restack`,
/// else the replay moves them.
fn reorder_internal(
    repo: &GitRepo,
    staircase: &ResolvedStaircase,
    new_order: &[usize],
    options: ReorderOptions,
    require_complete: bool,
    dry_run: bool,
) -> (r: Result<Vec<Step>>)
    requires
        !(*staircase is ImplicitFamily),
    ensures
        !valid_order(new_order@, linear_metadata(*staircase).steps@.len()) && !is_archived(linear_metadata(*staircase))
            ==> r is Err,
        r matches Ok(s) ==> {
            &&& step_points(s@) == reordered_points(step_points(linear_metadata(*staircase).steps@), new_order@)
            &&& s@.len() == new_order@.len()
            &&& forall|k: int| 0 <= k < new_order@.len() ==> #[trigger] step_points(s@)[k]
                == step_points(linear_metadata(*staircase).steps@)[new_order@[k] as int]
        },
{
    check_active(staircase)?;
    let meta = staircase.metadata();
    check_order(new_order, meta.steps.len(), require_complete)?;
    let mut metadata = meta.clone();
    let mut steps: Vec<Step> = Vec::new();
    let mut i: usize = 0;
    while i < new_order.len()
        invariant
            i <= new_order@.len(),
            valid_order(new_order@, meta.steps@.len()),
            steps@.len() == i,
            forall|k: int| 0 <= k < i ==> #[trigger] steps@[k] == meta.steps@[new_order@[k] as int],
        decreases new_order@.len() - i,
    {
        steps.push(meta.steps[new_order[i]].copy());
        i += 1;
    }
    proof {
        assert(step_points(steps@) =~= reordered_points(step_points(meta.steps@), new_order@));
    }
    metadata.steps = steps;
    let ghost before = metadata.steps@;
    validate_renumbering(repo, meta, &mut metadata)?;
    let planned = copy_steps(&metadata.steps);
    proof {
        assert(step_points(planned@) =~= step_points(before));
        law_reorder_takes_steps_in_order(step_points(meta.steps@), new_order@, step_points(planned@));
    }
    if options.no_restack {
        if dry_run {
            return Ok(planned);
        }
        publish_metadata_common(repo, staircase, metadata, "reorder")?;
        return Ok(planned);
    }
    ensure_rewrite_supported(repo, meta, "reorder")?;
    let groups = step_commit_groups(repo, meta)?;
    let start_step = leading_in_place(new_order);
    let mut reordered: Vec<Vec<String>> = Vec::new();
    let mut k: usize = start_step;
    while k < new_order.len()
        invariant
            start_step <= k <= new_order@.len(),
            valid_order(new_order@, meta.steps@.len()),
            groups@.len() == meta.steps@.len(),
        decreases new_order@.len() - k,
    {
        reordered.push(groups[new_order[k]].clone());
        k += 1;
    }
    let target = if start_step == 0 {
        recorded_target(repo, &metadata)?
    } else if start_step - 1 < metadata.steps.len() {
        metadata.steps[start_step - 1].cut.clone()
    } else {
        return Err(StaircaseError::InvalidStructure(owned("rewrite plan has inconsistent step ranges")));
    };
    replay(repo, staircase, metadata, reordered, start_step, target, "reorder", dry_run)?;
    Ok(planned)
}

/// Drops step `step_index`: with `restack` (and not leaving descendants
/// stale) the commits above it are replayed onto the step below, else only
/// the structure changes.
pub fn drop(repo: &GitRepo, staircase: &ResolvedStaircase, step_index: usize, options: DropOptions) -> (r: Result<()>)
    requires
        !(*staircase is ImplicitFamily),
    ensures
        step_index >= linear_metadata(*staircase).steps@.len() && !is_archived(linear_metadata(*staircase))
            ==> (r matches Err(StaircaseError::Other(m)) && m@ == "Step index out of bounds"@),
{
    drop_with_dry_run(repo, staircase, step_index, options, false)
}

/// Drops a step as `drop` does; a dry run only checks.
pub fn drop_with_dry_run(repo: &GitRepo, staircase: &ResolvedStaircase, step_index: usize, options: DropOptions, dry_run: bool) -> (r: Result<()>)
    requires
        !(*staircase is ImplicitFamily),
    ensures
        step_index >= linear_metadata(*staircase).steps@.len() && !is_archived(linear_metadata(*staircase))
            ==> (r matches Err(StaircaseError::Other(m)) && m@ == "Step index out of bounds"@),
{
    check_active(staircase)?;
    let meta = staircase.metadata();
    if step_index >= meta.steps.len() {
        return Err(StaircaseError::Other(owned("Step index out of bounds")));
    }
    let mut desired = meta.clone();
    desired.steps = copy_steps(&meta.steps);
    desired.steps.remove(step_index);
    validate_renumbering(repo, meta, &mut desired)?;
    if !options.restack || options.leave_descendants_stale {
        if dry_run {
            return Ok(());
        }
        return publish_metadata_common(repo, staircase, desired, "drop");
    }
    ensure_rewrite_supported(repo, meta, "drop")?;
    let mut groups = step_commit_groups(repo, meta)?;
    groups.remove(step_index);
    let start_step = if step_index < desired.steps.len() { step_index } else { desired.steps.len() };
    let target = if start_step == 0 {
        recorded_target(repo, meta)?
    } else {
        desired.steps[start_step - 1].cut.clone()
    };
    let mut tail: Vec<Vec<String>> = Vec::new();
    let mut k: usize = start_step;
    while k < groups.len()
        invariant
            start_step <= k,
        decreases groups@.len() - k,
    {
        tail.push(groups[k].clone());
        k += 1;
    }
    replay(repo, staircase, desired, tail, start_step, target, "drop", dry_run)
}

/// Moves `commits` from step `from_step_index` to step `to_step_index` (see
/// `move_commits_with_dry_run`).
pub fn move_commits(repo: &GitRepo, staircase: &ResolvedStaircase, from_step_index: usize, to_step_index: usize, commits: &[String]) -> (r: Result<()>)
    requires
        !(*staircase is ImplicitFamily),
    ensures
        commits@.len() == 0 && !is_archived(linear_metadata(*staircase)) ==> r is Ok,
{
    move_commits_with_dry_run(repo, staircase, from_step_index, to_step_index, commits, false)
}

/// Moves commits between steps: the selected commits (each once, all from
/// the source step, not all of it) join the end of the target step. When
/// the commits keep their order, only the cuts move; otherwise the steps
/// are replayed. A dry run only checks.
pub fn move_commits_with_dry_run(
    repo: &GitRepo,
    staircase: &ResolvedStaircase,
    from_step_index: usize,
    to_step_index: usize,
    commits: &[String],
    dry_run: bool,
) -> (r: Result<()>)
    requires
        !(*staircase is ImplicitFamily),
    ensures
        commits@.len() == 0 && !is_archived(linear_metadata(*staircase)) ==> r is Ok,
        commits@.len() > 0 && !is_archived(linear_metadata(*staircase)) && (from_step_index >= linear_metadata(*staircase).steps@.len()
            || to_step_index >= linear_metadata(*staircase).steps@.len()) ==> (r matches Err(StaircaseError::Other(m))
            && m@ == "Step index out of bounds"@),
{
    check_active(staircase)?;
    if commits.len() == 0 {
        return Ok(());
    }
    let meta = staircase.metadata();
    if from_step_index >= meta.steps.len() || to_step_index >= meta.steps.len() {
        return Err(StaircaseError::Other(owned("Step index out of bounds")));
    }
    if from_step_index == to_step_index {
        return Ok(());
    }
    move_commits_checked(repo, staircase, from_step_index, to_step_index, commits, dry_run)
}

/// Moves commits between two different valid steps (see `move_commits_with_dry_run`).
fn move_commits_checked(
    repo: &GitRepo,
    staircase: &ResolvedStaircase,
    from_step_index: usize,
    to_step_index: usize,
    commits: &[String],
    dry_run: bool,
) -> (r: Result<()>)
    requires
        !(*staircase is ImplicitFamily),
        from_step_index < linear_metadata(*staircase).steps@.len(),
        to_step_index < linear_metadata(*staircase).steps@.len(),
{
    let meta = staircase.metadata();
    ensure_rewrite_supported(repo, meta, "move")?;
    let groups = step_commit_groups(repo, meta)?;
    let mut selected: Vec<String> = Vec::new();
    let mut c: usize = 0;
    while c < commits.len()
        invariant
            c <= commits@.len(),
        decreases commits@.len() - c,
    {
        selected.push(repo.resolve_commit(commits[c].as_str())?);
        c += 1;
    }
    let ghost count = meta.steps@.len();
    let source = &groups[from_step_index];
    let mut in_source: Vec<bool> = Vec::new();
    let mut p: usize = 0;
    while p < source.len()
        invariant
            p <= source@.len(),
            in_source@.len() == p,
        decreases source@.len() - p,
    {
        in_source.push(false);
        p += 1;
    }
    let mut s: usize = 0;
    while s < selected.len()
        invariant
            s <= selected@.len(),
            in_source@.len() == source@.len(),
            meta.steps@.len() == count,
            from_step_index < count,
        decreases selected@.len() - s,
    {
        let mut pos: usize = 0;
        let mut found = false;
        while pos < source.len() && !found
            invariant
                s < selected@.len(),
                pos <= source@.len(),
                found ==> pos < source@.len(),
            decreases source@.len() - pos + (if found { 0int } else { 1int }),
        {
            if str_eq(source[pos].as_str(), selected[s].as_str()) {
                found = true;
            } else {
                pos += 1;
            }
        }
        if !found {
            let mut m = cat3("commit ", selected[s].as_str(), " does not belong to source step '");
            m.append(meta.steps[from_step_index].name.as_str());
            m.append("'");
            return Err(StaircaseError::InvalidStructure(m));
        }
        if in_source[pos] {
            return Err(StaircaseError::InvalidStructure(owned("move commit selection contains duplicates")));
        }
        in_source.set(pos, true);
        s += 1;
    }
    let mut kept: Vec<String> = Vec::new();
    let mut moved: Vec<String> = Vec::new();
    let mut q: usize = 0;
    while q < source.len()
        invariant
            q <= source@.len(),
            in_source@.len() == source@.len(),
        decreases source@.len() - q,
    {
        if in_source[q] {
            moved.push(source[q].clone());
        } else {
            kept.push(source[q].clone());
        }
        q += 1;
    }
    if kept.len() == 0 {
        return Err(StaircaseError::UnsupportedTopology {
            operation: owned("move"),
            reason: owned("moving all commits would leave the source step empty; use drop/join"),
        });
    }
    let mut new_groups: Vec<Vec<String>> = Vec::new();
    let mut g: usize = 0;
    while g < groups.len()
        invariant
            g <= groups@.len(),
            new_groups@.len() == g,
        decreases groups@.len() - g,
    {
        if g == from_step_index {
            new_groups.push(kept.clone());
        } else if g == to_step_index {
            let mut target_group = groups[g].clone();
            let mut m: usize = 0;
            while m < moved.len()
                invariant
                    m <= moved@.len(),
                decreases moved@.len() - m,
            {
                target_group.push(moved[m].clone());
                m += 1;
            }
            new_groups.push(target_group);
        } else {
            new_groups.push(groups[g].clone());
        }
        g += 1;
    }
    let mut metadata = meta.clone();
    metadata.steps = copy_steps(&meta.steps);
    if same_order(&groups, &new_groups) {
        let mut i: usize = 0;
        while i < metadata.steps.len() && i < new_groups.len()
            invariant
                i <= metadata.steps@.len(),
            decreases metadata.steps@.len() - i,
        {
            let group = &new_groups[i];
            if group.len() > 0 {
                let mut step = metadata.steps[i].copy();
                step.cut = group[group.len() - 1].clone();
                metadata.steps.set(i, step);
            }
            i += 1;
        }
        if dry_run {
            return Ok(());
        }
        return publish_metadata_common(repo, staircase, metadata, "move");
    }
    let target = recorded_target(repo, &metadata)?;
    replay(repo, staircase, metadata, new_groups, 0, target, "move", dry_run)
}

/// The commits of all groups in order, by their text.
pub open spec fn spec_flatten(groups: Seq<Vec<String>>) -> Seq<Seq<char>>
    decreases groups.len(),
{
    if groups.len() == 0 {
        seq![]
    } else {
        spec_flatten(groups.drop_last()) + views(groups.last()@)
    }
}

/// Whether two groupings list the same commits in the same order.
fn same_order(a: &Vec<Vec<String>>, b: &Vec<Vec<String>>) -> (r: bool)
    ensures
        r == (spec_flatten(a@) == spec_flatten(b@)),
{
    let fa = flatten(a);
    let fb = flatten(b);
    if fa.len() != fb.len() {
        proof {
            assert(views(fa@).len() != views(fb@).len());
        }
        return false;
    }
    let mut i: usize = 0;
    while i < fa.len()
        invariant
            i <= fa@.len(),
            fa@.len() == fb@.len(),
            views(fa@) == spec_flatten(a@),
            views(fb@) == spec_flatten(b@),
            forall|j: int| 0 <= j < i ==> fa@[j]@ == fb@[j]@,
        decreases fa@.len() - i,
    {
        if !str_eq(fa[i].as_str(), fb[i].as_str()) {
            proof {
                assert(views(fa@)[i as int] != views(fb@)[i as int]);
                if views(fa@) == views(fb@) {
                    assert(views(fa@)[i as int] == views(fb@)[i as int]);
                }
            }
            return false;
        }
        i += 1;
    }
    proof {
        assert(views(fa@) =~= views(fb@));
    }
    true
}

/// The commits of all groups in order (see [`spec_flatten`]).
fn flatten(groups: &Vec<Vec<String>>) -> (r: Vec<String>)
    ensures
        views(r@) == spec_flatten(groups@),
{
    let mut out: Vec<String> = Vec::new();
    let mut g: usize = 0;
    proof {
        assert(groups@.take(0) =~= seq![]);
        assert(views(out@) =~= seq![]);
    }
    while g < groups.len()
        invariant
            g <= groups@.len(),
            views(out@) == spec_flatten(groups@.take(g as int)),
        decreases groups@.len() - g,
    {
        let ghost start = views(out@);
        let mut c: usize = 0;
        while c < groups[g].len()
            invariant
                c <= groups@[g as int]@.len(),
                g < groups@.len(),
                views(out@) == start + views(groups@[g as int]@).take(c as int),
            decreases groups@[g as int]@.len() - c,
        {
            proof {
                crate::text::lemma_views_push(out@, groups@[g as int]@[c as int]);
                assert(views(groups@[g as int]@).take(c + 1) =~= views(groups@[g as int]@).take(c as int).push(
                    groups@[g as int]@[c as int]@,
                ));
            }
            out.push(groups[g][c].clone());
            c += 1;
        }
        proof {
            assert(views(groups@[g as int]@).take(groups@[g as int]@.len() as int) =~= views(groups@[g as int]@));
            let t = groups@.take(g + 1);
            assert(t.drop_last() =~= groups@.take(g as int));
            assert(t.last() == groups@[g as int]);
        }
        g += 1;
    }
    proof {
        assert(groups@.take(groups@.len() as int) =~= groups@);
    }
    out
}

/// The commit a step actually ends at: its branch's as the status found it,
/// else its cut.
fn actual_tip(status_steps: &Vec<crate::model::StepStatus>, index: usize, step: &Step) -> (r: String)
    ensures
        r@ == (if index < status_steps@.len() && status_steps@[index as int].actual_oid is Some {
            status_steps@[index as int].actual_oid->0@
        } else {
            step.cut@
        }),
{
    if index < status_steps.len() {
        match &status_steps[index].actual_oid {
            Some(a) => a.clone(),
            None => step.cut.clone(),
        }
    } else {
        step.cut.clone()
    }
}

/// Restacks a stale staircase: the steps still in place keep their commits
/// (their cuts follow their branches); from the first step that no longer
/// sits on its predecessor, each step's commits (from its branch) are
/// replayed (only the first, leaving upper steps stale). A clean staircase
/// is left as it is.
pub fn restack(repo: &GitRepo, staircase: &ResolvedStaircase, options: RebaseOptions) -> (r: Result<()>)
    requires
        !(*staircase is ImplicitFamily),
    ensures
        is_archived(linear_metadata(*staircase)) ==> r is Err,
{
    check_active(staircase)?;
    let status = get_status_metadata(repo, staircase.metadata().clone(), !staircase.is_managed())?;
    if status.is_clean {
        return Ok(());
    }
    let mut metadata = status.metadata;
    ensure_rewrite_supported(repo, &metadata, "restack")?;
    let mut groups: Vec<Vec<String>> = Vec::new();
    let mut actual_predecessor = recorded_target(repo, &metadata)?;
    let mut recorded_predecessor = actual_predecessor.clone();
    let mut current_base = repo.resolve_commit(metadata.target.as_str())?;
    let mut start_step: usize = 0;
    let mut index: usize = 0;
    while index < metadata.steps.len()
        invariant
            index <= metadata.steps@.len(),
            start_step <= index,
        decreases metadata.steps@.len() - index,
    {
        let step = metadata.steps[index].copy();
        let actual = actual_tip(&status.steps, index, &step);
        let predecessor = if repo.is_ancestor(actual_predecessor.as_str(), actual.as_str())? {
            actual_predecessor.clone()
        } else if repo.is_ancestor(recorded_predecessor.as_str(), actual.as_str())? {
            recorded_predecessor.clone()
        } else {
            let reason = cat3("actual tip of step '", step.name.as_str(), "' does not descend from its recorded predecessor");
            return Err(StaircaseError::UnsupportedTopology { operation: owned("restack"), reason });
        };
        if groups.len() == 0 && repo.is_ancestor(current_base.as_str(), actual.as_str())? {
            let mut s = metadata.steps[index].copy();
            s.cut = actual.clone();
            metadata.steps.set(index, s);
            current_base = actual.clone();
            start_step = index + 1;
        } else {
            groups.push(repo.commits_between(predecessor.as_str(), actual.as_str())?);
        }
        actual_predecessor = actual;
        recorded_predecessor = step.cut;
        index += 1;
    }
    if groups.len() == 0 {
        return publish_metadata_common(repo, staircase, metadata, "restack");
    }
    if options.leave_upper_steps_stale {
        groups.truncate(1);
    }
    replay(repo, staircase, metadata, groups, start_step, current_base, "restack", false)
}

/// Restacks the steps from `from_step` on: each must still descend from its
/// recorded predecessor, and their commits are replayed onto the step below.
pub fn restack_from(repo: &GitRepo, staircase: &ResolvedStaircase, from_step: usize, dry_run: bool) -> (r: Result<()>)
    requires
        !(*staircase is ImplicitFamily),
    ensures
        from_step >= linear_metadata(*staircase).steps@.len() && !is_archived(linear_metadata(*staircase))
            ==> (r matches Err(StaircaseError::InvalidStructure(m)) && m@ == "partial restack step is out of range"@),
{
    check_active(staircase)?;
    let meta = staircase.metadata();
    if from_step >= meta.steps.len() {
        return Err(StaircaseError::InvalidStructure(owned("partial restack step is out of range")));
    }
    ensure_rewrite_supported(repo, meta, "restack")?;
    let status = get_status_metadata(repo, meta.clone(), !staircase.is_managed())?;
    let smeta = status.metadata;
    let mut groups: Vec<Vec<String>> = Vec::new();
    let mut index: usize = from_step;
    while index < smeta.steps.len()
        invariant
            from_step <= index,
            from_step < linear_metadata(*staircase).steps@.len(),
        decreases smeta.steps@.len() - index,
    {
        let predecessor = if index == 0 {
            recorded_target(repo, &smeta)?
        } else {
            smeta.steps[index - 1].cut.clone()
        };
        let actual = actual_tip(&status.steps, index, &smeta.steps[index]);
        if !repo.is_ancestor(predecessor.as_str(), actual.as_str())? {
            let reason = cat3("step '", smeta.steps[index].name.as_str(), "' has diverged from its recorded predecessor");
            return Err(StaircaseError::UnsupportedTopology { operation: owned("restack"), reason });
        }
        groups.push(repo.commits_between(predecessor.as_str(), actual.as_str())?);
        index += 1;
    }
    let base = if from_step == 0 {
        repo.resolve_commit(smeta.target.as_str())?
    } else if from_step - 1 < smeta.steps.len() {
        smeta.steps[from_step - 1].cut.clone()
    } else {
        return Err(StaircaseError::InvalidStructure(owned("partial restack step is out of range")));
    };
    replay(repo, staircase, smeta, groups, from_step, base, "restack", dry_run)
}

/// Rebases the staircase onto `onto` (see `rebase_with_dry_run`).
pub fn rebase(repo: &GitRepo, staircase: &ResolvedStaircase, onto: &str, options: RebaseOptions) -> (r: Result<()>)
    requires
        !(*staircase is ImplicitFamily),
    ensures
        is_archived(linear_metadata(*staircase)) ==> r is Err,
{
    rebase_with_dry_run(repo, staircase, onto, options, false)
}

/// Rebases the staircase onto `onto`: its target becomes `onto` (as a full
/// refname when it is one) and every step's commits (only the first
/// step's, leaving upper steps stale) are replayed onto it. A dry run only
/// checks.
pub fn rebase_with_dry_run(repo: &GitRepo, staircase: &ResolvedStaircase, onto: &str, options: RebaseOptions, dry_run: bool) -> (r: Result<()>)
    requires
        !(*staircase is ImplicitFamily),
    ensures
        is_archived(linear_metadata(*staircase)) ==> r is Err,
{
    check_active(staircase)?;
    let original = staircase.metadata();
    ensure_rewrite_supported(repo, original, "rebase")?;
    let mut groups = step_commit_groups(repo, original)?;
    let mut metadata = original.clone();
    metadata.target = match repo.resolve_symbolic_full_name(onto) {
        Ok(full) => full,
        Err(_) => owned(onto),
    };
    if options.leave_upper_steps_stale {
        groups.truncate(1);
    }
    let base = repo.resolve_commit(onto)?;
    replay(repo, staircase, metadata, groups, 0, base, "rebase", dry_run)
}

/// A branch ref that must still hold its step's cut to be deleted: the ref
/// and the cut it holds, or a collision naming what it holds instead
/// (`<missing>` when it does not exist).
pub fn branch_at_cut(reference: String, cut: &str, actual: Option<String>) -> (r: Result<(String, String)>)
    ensures
        crate::text::opt_view(actual) == Some(cut@) ==> (r matches Ok((rf, held)) && rf == reference && held@ == cut@),
        crate::text::opt_view(actual) != Some(cut@) ==> (r matches Err(StaircaseError::RefCollision { reference: rf, expected, actual: found })
            && rf == reference && expected@ == cut@ && found@ == match actual { Some(a) => a@, None => "<missing>"@ }),
{
    match actual {
        Some(a) => {
            if str_eq(a.as_str(), cut) {
                Ok((reference, a))
            } else {
                Err(StaircaseError::RefCollision { reference, expected: owned(cut), actual: a })
            }
        },
        None => Err(StaircaseError::RefCollision { reference, expected: owned(cut), actual: owned("<missing>") }),
    }
}

/// Deletes the staircase `id` (by id or name): its state and archive refs,
/// its public ref and, when asked, its branches (each must still be at its
/// step's cut), in one transaction.
pub fn delete(repo: &GitRepo, id: &str, delete_branches: bool) -> (r: Result<()>) {
    let metadata = read_metadata(repo, id)?;
    let mut plan = MutationPlan::new("delete", Some(metadata.id.clone()));
    let mut state_prefix = cat(STATE_PREFIX, metadata.id.as_str());
    state_prefix.append("/");
    let mut archive_prefix = cat(ARCHIVE_PREFIX, metadata.id.as_str());
    archive_prefix.append("/");
    let prefixes = vec![state_prefix, archive_prefix];
    let mut p: usize = 0;
    while p < prefixes.len()
        invariant
            p <= prefixes@.len(),
        decreases prefixes@.len() - p,
    {
        let lines = repo.for_each_ref(prefixes[p].as_str(), "%(refname) %(objectname)", None)?;
        let mut i: usize = 0;
        while i < lines.len()
            invariant
                i <= lines@.len(),
            decreases lines@.len() - i,
        {
            match split_once(lines[i].as_str(), " ") {
                Some((reference, oid)) => plan.update(reference, Some(oid), None),
                None => {},
            }
            i += 1;
        }
        p += 1;
    }
    let public = StaircaseRefs::public(metadata.name.as_str());
    match repo.resolve_ref_opt(public.as_str())? {
        Some(oid) => plan.update(public, Some(oid), None),
        None => {},
    }
    if delete_branches {
        let mut s: usize = 0;
        while s < metadata.steps.len()
            invariant
                s <= metadata.steps@.len(),
            decreases metadata.steps@.len() - s,
        {
            let step = &metadata.steps[s];
            match &step.branch {
                Some(branch) => {
                    let reference = cat("refs/heads/", branch.as_str());
                    let actual = repo.resolve_ref_opt(reference.as_str())?;
                    let held = branch_at_cut(reference, step.cut.as_str(), actual)?;
                    plan.update(held.0, Some(held.1), None);
                },
                None => {},
            }
            s += 1;
        }
    }
    plan.publish(repo, false)?;
    Ok(())
}

/// The message for landing a staircase that is not clean.
pub open spec fn stale_land_message() -> Seq<char> {
    "Staircase is stale or modified. Please run restack or update metadata before landing."@
}

/// The plan of landing staircase `m`: kind `land`, with one update, which
/// moves its target ref to the cut of its top (last) step.
pub open spec fn lands_top(m: StaircaseMetadata, p: MutationPlan) -> bool {
    &&& m.steps@.len() > 0
    &&& p.kind@ == "land"@
    &&& p.refs@.len() == 1
    &&& p.refs@[0].reference@ == m.target@
    &&& p.refs@[0].planned matches Some(c) && c@ == m.steps@.last().cut@
}

/// Landing moves the target to the top of the staircase: the one ref moved
/// is the target, to the cut of the last step, so every step lands; the
/// commit landed depends on the top step alone (a staircase with other
/// lower steps lands the same commit).
pub proof fn law_land_moves_target_to_top(m: StaircaseMetadata, p: MutationPlan, other: StaircaseMetadata)
    requires
        lands_top(m, p),
        other.target == m.target,
        other.steps@.len() > 0,
        other.steps@.last().cut == m.steps@.last().cut,
    ensures
        p.refs@.len() == 1,
        forall|i: int| 0 <= i < p.refs@.len() ==> p.refs@[i].reference@ == m.target@
            && (p.refs@[i].planned matches Some(c) && c@ == m.steps@[m.steps@.len() - 1].cut@),
        lands_top(other, p),
{
}

/// Lands a clean staircase: its target ref moves to the top step's cut.
/// The target must be a ref.
pub fn land(repo: &GitRepo, staircase: &ResolvedStaircase, options: LandOptions) -> (r: Result<()>)
    requires
        !(*staircase is ImplicitFamily),
    ensures
        is_archived(linear_metadata(*staircase)) ==> r is Err,
{
    land_published(repo, staircase, options)?;
    Ok(())
}

/// Lands a clean staircase (see `land`) and returns the plan it published
/// (see `lands_top`).
pub fn land_published(repo: &GitRepo, staircase: &ResolvedStaircase, options: LandOptions) -> (r: Result<MutationPlan>)
    requires
        !(*staircase is ImplicitFamily),
    ensures
        is_archived(linear_metadata(*staircase)) ==> r is Err,
        r matches Ok(p) ==> lands_top(linear_metadata(*staircase), p),
{
    check_active(staircase)?;
    let status = get_status_metadata(repo, copy_structure(staircase.metadata()), !staircase.is_managed())?;
    if !status.is_clean {
        return Err(StaircaseError::Other(owned(
            "Staircase is stale or modified. Please run restack or update metadata before landing.",
        )));
    }
    let metadata = &status.metadata;
    let _policy = match options.policy {
        Some(p) => p,
        None => match metadata.landing_policy {
            Some(p) => p,
            None => LandingPolicy::Stepwise,
        },
    };
    if metadata.steps.len() == 0 {
        return Err(StaircaseError::InvalidStructure(owned("Empty staircase")));
    }
    let top_cut = metadata.steps[metadata.steps.len() - 1].cut.clone();
    if starts_with(metadata.target.as_str(), "refs/") {
        let expected = repo.resolve_ref_opt(metadata.target.as_str())?;
        let mut plan = MutationPlan::new("land", Some(metadata.id.clone()));
        plan.update(metadata.target.clone(), expected, Some(top_cut));
        plan.publish(repo, false)?;
        proof {
            reveal_strlit("land");
        }
        Ok(plan)
    } else {
        Err(StaircaseError::Other(cat3("Target ", metadata.target.as_str(), " is not a ref, cannot land")))
    }
}

/// Lands the steps up to `through_step` (not the whole staircase) of a
/// clean staircase on a symbolic target: the target ref moves to that
/// step's cut, the landed steps leave the staircase, and the record keeps
/// the landed cut as its integration anchor and the landed step ids. A dry
/// run only checks.
pub fn land_through(repo: &GitRepo, staircase: &ResolvedStaircase, through_step: usize, dry_run: bool) -> (r: Result<()>)
    requires
        !(*staircase is ImplicitFamily),
    ensures
        is_archived(linear_metadata(*staircase)) ==> r is Err,
{
    check_active(staircase)?;
    let managed = match staircase {
        ResolvedStaircase::Managed(m) => ResolvedStaircase::Managed(m.clone()),
        ResolvedStaircase::Implicit(m) => {
            if dry_run {
                ResolvedStaircase::Implicit(m.clone())
            } else {
                ResolvedStaircase::Managed(adopt(repo, m)?)
            }
        },
        ResolvedStaircase::ImplicitFamily(_) => vstd::pervasive::unreached(),
    };
    let is_managed = managed.is_managed();
    let metadata = match &managed {
        ResolvedStaircase::Managed(m) => m,
        ResolvedStaircase::Implicit(m) => m,
        ResolvedStaircase::ImplicitFamily(_) => vstd::pervasive::unreached(),
    };
    if through_step >= metadata.steps.len() {
        return Err(StaircaseError::InvalidStructure(owned("landing step is out of range")));
    }
    if through_step + 1 == metadata.steps.len() {
        return Err(StaircaseError::UnsupportedTopology {
            operation: owned("partial-land"),
            reason: owned("the selected prefix is the whole staircase; use aggregate or stepwise land"),
        });
    }
    let status = get_status_metadata(repo, metadata.clone(), !is_managed)?;
    if !status.is_clean {
        return Err(StaircaseError::UnsupportedTopology {
            operation: owned("partial-land"),
            reason: owned("partial landing requires a clean staircase"),
        });
    }
    let target_ref = match repo.resolve_symbolic_full_name(metadata.target.as_str()) {
        Ok(full) => full,
        Err(_) => metadata.target.clone(),
    };
    if !starts_with(target_ref.as_str(), "refs/") {
        return Err(StaircaseError::InvalidStructure(owned("partial landing requires a symbolic target ref")));
    }
    let old_target = repo.resolve_ref_opt(target_ref.as_str())?;
    let landed_cut = metadata.steps[through_step].cut.clone();
    let mut newly_landed: Vec<JsonValue> = Vec::new();
    let mut desired = metadata.clone();
    let mut rest: Vec<Step> = Vec::new();
    let mut i: usize = 0;
    while i < metadata.steps.len()
        invariant
            i <= metadata.steps@.len(),
        decreases metadata.steps@.len() - i,
    {
        if i <= through_step {
            newly_landed.push(JsonValue::String(metadata.steps[i].id.clone()));
        } else {
            rest.push(metadata.steps[i].copy());
        }
        i += 1;
    }
    desired.steps = rest;
    validate_renumbering(repo, metadata, &mut desired)?;
    if dry_run {
        return Ok(());
    }
    let record = read_record(repo, StaircaseRefs::record(desired.id.as_str(), LifecycleState::Active).as_str())?;
    let mut user_metadata = record.user_metadata;
    let anchor = crate::json_text::render_json(&JsonValue::String(landed_cut.clone()));
    user_metadata.extensions.insert(owned("git-staircase.internal.integration-anchor"), anchor);
    let mut landed_ids: Vec<JsonValue> = Vec::new();
    match user_metadata.extensions.get("git-staircase.internal.structural-state") {
        Some(text) => match repo.host.parse_json(text.as_str()) {
            Ok(state) => match state.get("landed_step_ids") {
                Some(JsonValue::Array(ids)) => {
                    let mut k: usize = 0;
                    while k < ids.len()
                        invariant
                            k <= ids@.len(),
                        decreases ids@.len() - k,
                    {
                        landed_ids.push(ids[k].duplicate());
                        k += 1;
                    }
                },
                _ => {},
            },
            Err(_) => {},
        },
        None => {},
    }
    let mut newly_landed = newly_landed;
    while newly_landed.len() > 0
        decreases newly_landed@.len(),
    {
        landed_ids.push(newly_landed.remove(0));
    }
    let structural_state = JsonValue::Object(vec![
        (owned("kind"), JsonValue::String(owned("partially-landed"))),
        (owned("landed_step_ids"), JsonValue::Array(landed_ids)),
    ]);
    let state_text = crate::json_text::render_json(&structural_state);
    user_metadata.extensions.insert(owned("git-staircase.internal.structural-state"), state_text);
    let selector = ResolvedSelector { staircase: managed, step_index: None };
    let extras = vec![(target_ref, old_target, Some(landed_cut))];
    publish_record_parts_extra(repo, &selector, desired, user_metadata, "partial-land", false, &extras)?;
    Ok(())
}

} // verus!
