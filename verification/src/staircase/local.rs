//! Local mutations of a staircase's representation: appending commits,
//! branch layouts, policies, discovery overrides and names. Each publishes
//! a new record and the ref changes it implies in one transaction.

use vstd::prelude::*;
use crate::collections::{SortedMap, StringMap};
use crate::error::{Result, StaircaseError};
use crate::fresh::fresh_uuid;
use crate::git::repo::{canonical_text, path_from, GitRepo};
use crate::json::{first_member, spec_as_str, spec_get, JsonValue};
use crate::model::{LifecycleState, StaircaseMetadata, StaircaseRecord, StaircaseUserMetadata, Step};
use crate::staircase::operation::mutation::MutationPlan;
use crate::staircase::persistence::record::{read_record, write_record};
use crate::staircase::persistence::list_archived_staircases;
use crate::staircase::refs::{spec_local, StaircaseRefs};
use crate::staircase::resolved::{adopt, linear_metadata, sequential_branch_name, spec_sequential_branch_name, ResolvedSelector, ResolvedStaircase};
use crate::text::{
    cat, cat3, lemma_views_push, lines, lines_of, opt_view, owned, starts_with, str_eq, views, words, words_of,
};

verus! {

/// A manual adjustment of what discovery finds for a staircase.
#[derive(Debug, Clone, PartialEq, Eq)]
pub struct DiscoveryOverride {
    pub id: String,
    pub kind: String,
    pub value: String,
}

/// What a local mutation did (or would do, on a dry run).
#[derive(Debug, Clone)]
pub struct LocalMutationResult {
    pub schema: String,
    pub version: u32,
    pub kind: String,
    pub staircase_id: String,
    pub staircase_name: String,
    pub record_oid: Option<String>,
    pub dry_run: bool,
    pub changed_refs: Vec<String>,
}

/// The state of a staircase's branch layout.
#[derive(Debug, Clone)]
pub struct LayoutState {
    pub schema: String,
    pub version: u32,
    pub staircase_id: String,
    pub profile: Option<String>,
    pub base: Option<String>,
    pub state: String,
    pub branches: Vec<LayoutBranch>,
}

/// One step's branch in a layout: where it should be and where it is.
#[derive(Debug, Clone)]
pub struct LayoutBranch {
    pub step_id: String,
    pub step_name: String,
    pub expected_ref: Option<String>,
    pub expected_oid: String,
    pub actual_oid: Option<String>,
}

/// The result of a local mutation of `kind` on `metadata`.
fn result(kind: &str, metadata: &StaircaseMetadata, record_oid: Option<String>, dry_run: bool, changed_refs: Vec<String>) -> (r: LocalMutationResult)
    ensures
        r.schema@ == "git-staircase/local-mutation-result"@ && r.version == 1,
        r.kind@ == kind@ && r.staircase_id@ == metadata.id@ && r.staircase_name@ == metadata.name@,
        r.record_oid == record_oid && r.dry_run == dry_run && r.changed_refs == changed_refs,
{
    LocalMutationResult {
        schema: owned("git-staircase/local-mutation-result"),
        version: 1,
        kind: owned(kind),
        staircase_id: metadata.id.clone(),
        staircase_name: metadata.name.clone(),
        record_oid,
        dry_run,
        changed_refs,
    }
}

/// Whether the staircase's lifecycle says it is archived.
pub open spec fn is_archived(metadata: StaircaseMetadata) -> bool {
    metadata.lifecycle matches Some(l) && l.state == LifecycleState::Archived
}

/// The message for mutating an archived staircase.
pub open spec fn archived_message() -> Seq<char> {
    "staircase is archived; unarchive it before mutation"@
}

/// The message for an operation that needs a recorded staircase.
pub open spec fn unmanaged_message() -> Seq<char> {
    "operation requires a managed staircase"@
}

/// Refuses an archived staircase.
pub fn ensure_active(metadata: &StaircaseMetadata) -> (r: Result<()>)
    ensures
        is_archived(*metadata) ==> (r matches Err(StaircaseError::Other(m)) && m@ == archived_message()),
        !is_archived(*metadata) ==> r is Ok,
{
    let archived = match &metadata.lifecycle {
        Some(l) => l.state == LifecycleState::Archived,
        None => false,
    };
    if archived {
        return Err(StaircaseError::Other(owned("staircase is archived; unarchive it before mutation")));
    }
    Ok(())
}

/// The active managed staircase of `selector`.
fn require_managed(selector: &ResolvedSelector) -> (r: Result<&StaircaseMetadata>)
    requires
        !(selector.staircase is ImplicitFamily),
    ensures
        !(selector.staircase is Managed) ==> (r matches Err(StaircaseError::Other(m)) && m@ == unmanaged_message()),
        selector.staircase is Managed && is_archived(linear_metadata(selector.staircase)) ==> (r matches Err(
            StaircaseError::Other(m)) && m@ == archived_message()),
        selector.staircase is Managed && !is_archived(linear_metadata(selector.staircase)) ==> r is Ok,
        r matches Ok(m) ==> selector.staircase == ResolvedStaircase::Managed(*m) && !is_archived(*m),
{
    if !selector.staircase.is_managed() {
        return Err(StaircaseError::Other(owned("operation requires a managed staircase")));
    }
    let m = selector.metadata();
    ensure_active(m)?;
    Ok(m)
}

/// The message for a layout profile other than `sequential-v1`.
pub open spec fn unsupported_layout_message() -> Seq<char> {
    "unsupported branch layout profile"@
}

/// The message for a sequential layout without its base.
pub open spec fn missing_base_message() -> Seq<char> {
    "sequential-v1 layout is missing its base"@
}

/// The branch names that the staircase's layout gives its steps: none
/// without a layout; with `sequential-v1` on a base, `base-1`, `base-2`, ...
/// and the base itself for the top step.
pub fn expected_layout_names(metadata: &StaircaseMetadata) -> (r: Result<Option<Vec<String>>>)
    ensures
        metadata.primary_branch_layout is None ==> r matches Ok(None),
        metadata.primary_branch_layout matches Some(p) && p@ != "sequential-v1"@ ==> (r matches Err(StaircaseError::Other(m))
            && m@ == unsupported_layout_message()),
        metadata.primary_branch_layout matches Some(p) && p@ == "sequential-v1"@ ==> match metadata.branch_layout_base {
            None => r matches Err(StaircaseError::Other(m)) && m@ == missing_base_message(),
            Some(base) => r matches Ok(Some(names)) && names@.len() == metadata.steps@.len()
                && forall|i: int| 0 <= i < names@.len() ==> (#[trigger] names@[i])@
                    == spec_sequential_branch_name(i as nat, metadata.steps@.len(), base@),
        },
{
    match &metadata.primary_branch_layout {
        None => Ok(None),
        Some(p) => {
            if !str_eq(p.as_str(), "sequential-v1") {
                return Err(StaircaseError::Other(owned("unsupported branch layout profile")));
            }
            let base = match &metadata.branch_layout_base {
                Some(b) => b,
                None => return Err(StaircaseError::Other(owned("sequential-v1 layout is missing its base"))),
            };
            let n = metadata.steps.len();
            let mut names: Vec<String> = Vec::new();
            let mut i: usize = 0;
            while i < n
                invariant
                    n == metadata.steps@.len(),
                    i <= n,
                    names@.len() == i,
                    forall|j: int| 0 <= j < i ==> (#[trigger] names@[j])@ == spec_sequential_branch_name(j as nat, n as nat, base@),
                decreases n - i,
            {
                names.push(sequential_branch_name(i, n, base.as_str()));
                i += 1;
            }
            Ok(Some(names))
        },
    }
}

/// Gives each step its branch from the layout (see `expected_layout_names`);
/// without a layout the steps are unchanged.
fn apply_layout_names(metadata: &mut StaircaseMetadata) -> (r: Result<()>)
    ensures
        final(metadata).steps@.len() == old(metadata).steps@.len(),
        final(metadata).primary_branch_layout == old(metadata).primary_branch_layout,
        final(metadata).branch_layout_base == old(metadata).branch_layout_base,
        final(metadata).id == old(metadata).id && final(metadata).name == old(metadata).name,
        r is Ok && old(metadata).primary_branch_layout is Some ==> (old(metadata).branch_layout_base matches Some(base)
            && forall|i: int| 0 <= i < final(metadata).steps@.len() ==> ((#[trigger] final(metadata).steps@[i]).branch matches Some(b)
                && b@ == spec_sequential_branch_name(i as nat, final(metadata).steps@.len(), base@))),
        forall|i: int| 0 <= i < final(metadata).steps@.len() ==> #[trigger] final(metadata).steps@[i].id == old(metadata).steps@[i].id
            && final(metadata).steps@[i].name == old(metadata).steps@[i].name
            && final(metadata).steps@[i].cut == old(metadata).steps@[i].cut,
        old(metadata).primary_branch_layout is None ==> r is Ok && *final(metadata) == *old(metadata),
        old(metadata).primary_branch_layout matches Some(p) && p@ != "sequential-v1"@ ==> (r matches Err(StaircaseError::Other(m))
            && m@ == unsupported_layout_message()),
        old(metadata).primary_branch_layout matches Some(p) && p@ == "sequential-v1"@ ==> match old(metadata).branch_layout_base {
            None => r matches Err(StaircaseError::Other(m)) && m@ == missing_base_message(),
            Some(_) => r is Ok,
        },
{
    let names = expected_layout_names(metadata)?;
    match names {
        Some(names) => {
            let n = metadata.steps.len();
            let mut i: usize = 0;
            while i < n
                invariant
                    n == metadata.steps@.len(),
                    names@.len() == n,
                    i <= n,
                    metadata.primary_branch_layout == old(metadata).primary_branch_layout,
                    metadata.branch_layout_base == old(metadata).branch_layout_base,
                    metadata.id == old(metadata).id && metadata.name == old(metadata).name,
                    metadata.steps@.len() == old(metadata).steps@.len(),
                    forall|j: int| 0 <= j < i ==> ((#[trigger] metadata.steps@[j]).branch matches Some(b) && b@ == names@[j]@),
                    forall|j: int| 0 <= j < n ==> #[trigger] metadata.steps@[j].id == old(metadata).steps@[j].id
                        && metadata.steps@[j].name == old(metadata).steps@[j].name
                        && metadata.steps@[j].cut == old(metadata).steps@[j].cut,
                decreases n - i,
            {
                let mut step = metadata.steps[i].copy();
                step.branch = Some(names[i].clone());
                metadata.steps.set(i, step);
                i += 1;
            }
        },
        None => {},
    }
    Ok(())
}

/// The namespaces of policy keys.
pub open spec fn policy_namespaces() -> Seq<Seq<char>> {
    seq!["discovery."@, "verification."@, "review."@, "landing."@, "merge."@, "retention."@, "layout."@,
        "github."@, "gerrit."@, "repo."@]
}

/// Whether `key` lies in a registered namespace.
pub open spec fn valid_policy_key(key: Seq<char>) -> bool {
    exists|i: int| 0 <= i < policy_namespaces().len() && (#[trigger] policy_namespaces()[i]).is_prefix_of(key)
}

/// The message for a policy key outside the registered namespaces.
pub open spec fn policy_key_message(key: Seq<char>) -> Seq<char> {
    "policy key '"@ + key + "' is not in a registered namespace"@
}

/// Refuses a policy key outside the registered namespaces.
pub fn validate_policy_key(key: &str) -> (r: Result<()>)
    ensures
        valid_policy_key(key@) ==> r is Ok,
        !valid_policy_key(key@) ==> (r matches Err(StaircaseError::Other(m)) && m@ == policy_key_message(key@)),
{
    let allowed = [
        "discovery.", "verification.", "review.", "landing.", "merge.", "retention.", "layout.", "github.", "gerrit.",
        "repo.",
    ];
    let ghost ns = policy_namespaces();
    let mut i: usize = 0;
    while i < 10
        invariant
            ns == policy_namespaces(),
            i <= 10,
            forall|k: int| 0 <= k < 10 ==> (#[trigger] allowed@[k])@ == ns[k],
            forall|k: int| 0 <= k < i ==> !(#[trigger] ns[k]).is_prefix_of(key@),
        decreases 10 - i,
    {
        if starts_with(key, allowed[i]) {
            return Ok(());
        }
        i += 1;
    }
    Err(StaircaseError::Other(cat3("policy key '", key, "' is not in a registered namespace")))
}

/// The record ref of a staircase: its archived one when its lifecycle (as
/// the staircase knows it) is archived, else its active one.
fn record_ref_of(metadata: &StaircaseMetadata) -> (r: String)
    ensures
        is_archived(*metadata) ==> r@ == "refs/staircase-archive/"@ + metadata.id@ + "/record"@,
        !is_archived(*metadata) ==> r@ == "refs/staircase-state/"@ + metadata.id@ + "/record"@,
{
    let archived = match &metadata.lifecycle {
        Some(l) => l.state == LifecycleState::Archived,
        None => false,
    };
    if archived {
        StaircaseRefs::archive_record(metadata.id.as_str())
    } else {
        StaircaseRefs::state_record(metadata.id.as_str())
    }
}

/// The current record of a staircase (archived or active).
fn current_record_for_metadata(repo: &GitRepo, metadata: &StaircaseMetadata) -> (r: Result<StaircaseRecord>) {
    read_record(repo, record_ref_of(metadata).as_str())
}

/// The current record of the selected managed staircase.
fn current_record(repo: &GitRepo, selector: &ResolvedSelector) -> (r: Result<StaircaseRecord>)
    requires
        !(selector.staircase is ImplicitFamily),
    ensures
        !(selector.staircase is Managed) ==> (r matches Err(StaircaseError::Other(m)) && m@ == unmanaged_message()),
{
    if !selector.staircase.is_managed() {
        return Err(StaircaseError::Other(owned("operation requires a managed staircase")));
    }
    current_record_for_metadata(repo, selector.metadata())
}


/// The message for a branch to move that another worktree has checked out.
pub open spec fn checked_out_message(reference: Seq<char>, path: Seq<char>) -> Seq<char> {
    "branch "@ + reference + " is checked out in worktree "@ + path + "; move or detach that worktree first"@
}

/// What happens to one branch of the layouts when a staircase changes from
/// the branches it owned (`old_oid`, where it should be) to those it will
/// own (`planned`): a branch that is neither where it should be nor
/// already where it goes, or that exists without being owned, is a
/// collision; a branch to move that another worktree has checked out is
/// refused; otherwise it moves, from where it is, when it is not already
/// where it goes.
pub open spec fn spec_branch_move(
    reference: Seq<char>,
    actual: Option<Seq<char>>,
    old_oid: Option<Seq<char>>,
    planned: Option<Seq<char>>,
    checked_out: Option<Seq<char>>,
) -> core::result::Result<Option<(Option<Seq<char>>, Option<Seq<char>>)>, (Seq<char>, Seq<char>, Seq<char>)> {
    match old_oid {
        Some(expected) if actual != Some(expected) && !(planned is Some && actual == planned) =>
            Err(("collision"@, expected, match actual { Some(a) => a, None => "<missing>"@ })),
        None if actual is Some => Err(("collision"@, "<missing>"@, actual->0)),
        _ => if actual != planned {
            match checked_out {
                Some(path) => Err(("checked-out"@, reference, path)),
                None => Ok(Some((actual, planned))),
            }
        } else {
            Ok(None)
        },
    }
}

/// The move of one branch (see `spec_branch_move`), or the error refusing it.
pub fn branch_move(
    reference: &str,
    actual: &Option<String>,
    old_oid: Option<&String>,
    planned: Option<&String>,
    checked_out: Option<&String>,
) -> (r: Result<Option<(Option<String>, Option<String>)>>)
    ensures
        match spec_branch_move(reference@, opt_view(*actual), match old_oid { Some(o) => Some(o@), None => None },
            match planned { Some(p) => Some(p@), None => None }, match checked_out { Some(c) => Some(c@), None => None }) {
            Ok(None) => r matches Ok(None),
            Ok(Some((e, p))) => r matches Ok(Some((x, y))) && opt_view(x) == e && opt_view(y) == p,
            Err((kind, a, b)) => if kind == "collision"@ {
                r matches Err(StaircaseError::RefCollision { reference: rf, expected, actual }) && rf@ == reference@
                    && expected@ == a && actual@ == b
            } else {
                r matches Err(StaircaseError::UnsupportedTopology { operation, reason }) && operation@ == "branch-layout"@
                    && reason@ == checked_out_message(a, b)
            },
        },
{
    proof {
        reveal_strlit("collision");
        reveal_strlit("checked-out");
    }
    let actual_is = |x: &String| -> (b: bool)
        ensures b == (opt_view(*actual) == Some(x@)),
    {
        match actual {
            Some(a) => str_eq(a.as_str(), x.as_str()),
            None => false,
        }
    };
    match old_oid {
        Some(expected) => {
            let at_planned = match planned {
                Some(p) => actual_is(p),
                None => false,
            };
            if !actual_is(expected) && !at_planned {
                let found = match actual {
                    Some(a) => a.clone(),
                    None => owned("<missing>"),
                };
                return Err(StaircaseError::RefCollision { reference: owned(reference), expected: expected.clone(), actual: found });
            }
        },
        None => {
            match actual {
                Some(a) => {
                    return Err(StaircaseError::RefCollision {
                        reference: owned(reference),
                        expected: owned("<missing>"),
                        actual: a.clone(),
                    });
                },
                None => {},
            }
        },
    }
    let same = match (actual, planned) {
        (Some(a), Some(p)) => str_eq(a.as_str(), p.as_str()),
        (None, None) => true,
        _ => false,
    };
    if same {
        return Ok(None);
    }
    match checked_out {
        Some(path) => {
            let mut reason = cat3("branch ", reference, " is checked out in worktree ");
            reason.append(path.as_str());
            reason.append("; move or detach that worktree first");
            proof {
                assert("checked-out"@.len() != "collision"@.len());
            }
            Err(StaircaseError::UnsupportedTopology { operation: owned("branch-layout"), reason })
        },
        None => Ok(Some((
            match actual {
                Some(a) => Some(a.clone()),
                None => None,
            },
            match planned {
                Some(p) => Some(p.clone()),
                None => None,
            },
        ))),
    }
}

/// The cut of the last step on each branch, by the branch's local ref.
pub open spec fn spec_owned_ref_cuts(steps: Seq<Step>) -> Map<Seq<char>, Seq<char>>
    decreases steps.len(),
{
    if steps.len() == 0 {
        Map::empty()
    } else {
        let before = spec_owned_ref_cuts(steps.drop_last());
        match steps.last().branch {
            Some(b) => before.insert(spec_local(b@), steps.last().cut@),
            None => before,
        }
    }
}

/// The owned branches of the steps (as full refs), in ref order, each with
/// the cut of the last step on it (see [`spec_owned_ref_cuts`]).
fn owned_refs_sorted(metadata: &StaircaseMetadata) -> (r: SortedMap<String>)
    ensures
        r.view().dom() == spec_owned_ref_cuts(metadata.steps@).dom(),
        forall|k: Seq<char>| #[trigger] r.view().contains_key(k) ==> r.view()[k]@ == spec_owned_ref_cuts(metadata.steps@)[k],
{
    let ghost st = metadata.steps@;
    let mut m: SortedMap<String> = SortedMap::new();
    let mut i: usize = 0;
    proof {
        assert(st.take(0) =~= seq![]);
        assert(m.view().dom() =~= spec_owned_ref_cuts(st.take(0)).dom());
    }
    while i < metadata.steps.len()
        invariant
            st == metadata.steps@,
            i <= st.len(),
            m.view().dom() == spec_owned_ref_cuts(st.take(i as int)).dom(),
            forall|k: Seq<char>| #[trigger] m.view().contains_key(k) ==> m.view()[k]@ == spec_owned_ref_cuts(st.take(i as int))[k],
        decreases st.len() - i,
    {
        proof {
            let t = st.take(i + 1);
            assert(t.drop_last() =~= st.take(i as int));
            assert(t.last() == st[i as int]);
        }
        match &metadata.steps[i].branch {
            Some(b) => {
                m.insert(StaircaseRefs::local(b.as_str()), metadata.steps[i].cut.clone());
                proof {
                    assert(m.view().dom() =~= spec_owned_ref_cuts(st.take(i + 1)).dom());
                }
            },
            None => {},
        }
        i += 1;
    }
    proof {
        assert(st.take(st.len() as int) =~= st);
    }
    m
}

/// Adds to `plan` the moves of the owned branches from the old layout to
/// the new one (see `branch_move`), skipping `overridden` refs.
fn add_branch_permutation(
    repo: &GitRepo,
    old_meta: &StaircaseMetadata,
    new_meta: &StaircaseMetadata,
    plan: &mut MutationPlan,
    overridden: &Vec<String>,
) -> (r: Result<()>)
    ensures
        final(plan).kind == old(plan).kind && final(plan).lineage_id == old(plan).lineage_id,
        final(plan).expected_record_revision == old(plan).expected_record_revision,
        final(plan).schema == old(plan).schema && final(plan).version == old(plan).version,
{
    let old_owned = owned_refs_sorted(old_meta);
    let new_owned = owned_refs_sorted(new_meta);
    let mut all: SortedMap<bool> = SortedMap::new();
    let oe = old_owned.entries();
    let mut i: usize = 0;
    while i < oe.len()
        invariant
            i <= oe@.len(),
        decreases oe@.len() - i,
    {
        all.insert(oe[i].0.clone(), true);
        i += 1;
    }
    let ne = new_owned.entries();
    let mut k: usize = 0;
    while k < ne.len()
        invariant
            k <= ne@.len(),
        decreases ne@.len() - k,
    {
        all.insert(ne[k].0.clone(), true);
        k += 1;
    }
    let current = match canonical_text(&repo.workdir) {
        Ok(t) => t,
        Err(_) => crate::git::repo::path_text(&repo.workdir),
    };
    let worktrees = repo.worktrees()?;
    let mut checked_out: StringMap<String> = StringMap::new();
    let mut w: usize = 0;
    while w < worktrees.len()
        invariant
            w <= worktrees@.len(),
        decreases worktrees@.len() - w,
    {
        let path = path_from(worktrees[w].path.clone());
        let canonical = match canonical_text(&path) {
            Ok(t) => t,
            Err(_) => worktrees[w].path.clone(),
        };
        if !str_eq(canonical.as_str(), current.as_str()) {
            match &worktrees[w].branch {
                Some(b) => checked_out.insert(b.clone(), worktrees[w].path.clone()),
                None => {},
            }
        }
        w += 1;
    }
    let refs = all.entries();
    let mut q: usize = 0;
    while q < refs.len()
        invariant
            q <= refs@.len(),
            plan.kind == old(plan).kind && plan.lineage_id == old(plan).lineage_id,
            plan.expected_record_revision == old(plan).expected_record_revision,
            plan.schema == old(plan).schema && plan.version == old(plan).version,
        decreases refs@.len() - q,
    {
        let reference = refs[q].0.as_str();
        if !crate::staircase::archive::contains_text(overridden, reference) {
            let actual = repo.resolve_ref_opt(reference)?;
            match branch_move(reference, &actual, old_owned.get(reference), new_owned.get(reference), checked_out.get(reference))? {
                Some((expected, planned)) => plan.update(owned(reference), expected, planned),
                None => {},
            }
        }
        q += 1;
    }
    Ok(())
}

/// The cut of each step id (a later step with the same id wins).
pub open spec fn spec_cuts_by_id(steps: Seq<Step>) -> Map<Seq<char>, Seq<char>>
    decreases steps.len(),
{
    if steps.len() == 0 {
        Map::empty()
    } else {
        spec_cuts_by_id(steps.drop_last()).insert(steps.last().id@, steps.last().cut@)
    }
}

/// The steps' cuts by id (see [`spec_cuts_by_id`]), in id order.
fn steps_by_id(steps: &Vec<Step>) -> (r: SortedMap<String>)
    ensures
        r.view().dom() == spec_cuts_by_id(steps@).dom(),
        forall|k: Seq<char>| #[trigger] r.view().contains_key(k) ==> r.view()[k]@ == spec_cuts_by_id(steps@)[k],
{
    let mut m: SortedMap<String> = SortedMap::new();
    let mut i: usize = 0;
    proof {
        assert(steps@.take(0) =~= seq![]);
        assert(m.view().dom() =~= spec_cuts_by_id(steps@.take(0)).dom());
    }
    while i < steps.len()
        invariant
            i <= steps@.len(),
            m.view().dom() == spec_cuts_by_id(steps@.take(i as int)).dom(),
            forall|k: Seq<char>| #[trigger] m.view().contains_key(k) ==> m.view()[k]@ == spec_cuts_by_id(steps@.take(i as int))[k],
        decreases steps@.len() - i,
    {
        m.insert(steps[i].id.clone(), steps[i].cut.clone());
        proof {
            let t = steps@.take(i + 1);
            assert(t.drop_last() =~= steps@.take(i as int));
            assert(t.last() == steps@[i as int]);
            assert(m.view().dom() =~= spec_cuts_by_id(t).dom());
        }
        i += 1;
    }
    proof {
        assert(steps@.take(steps@.len() as int) =~= steps@);
    }
    m
}

/// Publishes a new record of the selected managed staircase with the given
/// structure and descriptive metadata: its state ref, its public ref (when
/// it holds the current record), the refs of its steps (dropped, moved or
/// added) and its owned branches move in one transaction, with the extra
/// ref changes given. On a dry run nothing is written.
pub fn publish_record_parts_extra(
    repo: &GitRepo,
    selector: &ResolvedSelector,
    metadata: StaircaseMetadata,
    user_metadata: StaircaseUserMetadata,
    kind: &str,
    dry_run: bool,
    extra_refs: &Vec<(String, Option<String>, Option<String>)>,
) -> (r: Result<LocalMutationResult>)
    requires
        !(selector.staircase is ImplicitFamily),
    ensures
        !(selector.staircase is Managed) ==> (r matches Err(StaircaseError::Other(m)) && m@ == unmanaged_message()),
        r matches Ok(res) ==> res.kind@ == kind@ && res.dry_run == dry_run && (dry_run ==> res.record_oid is None)
            && res.staircase_id@ == metadata.id@,
{
    let old = current_record(repo, selector)?;
    ensure_active(&old.metadata)?;
    let mut metadata = metadata;
    let ghost id = metadata.id@;
    let mut steps: Vec<Step> = Vec::new();
    let mut i: usize = 0;
    while i < metadata.steps.len()
        invariant
            i <= metadata.steps@.len(),
        decreases metadata.steps@.len() - i,
    {
        let mut s = metadata.steps[i].copy();
        if s.id.as_str().unicode_len() == 0 {
            s.id = fresh_uuid();
        }
        steps.push(s);
        i += 1;
    }
    metadata.steps = steps;
    let record = if dry_run {
        None
    } else {
        Some(write_record(repo, &metadata, &user_metadata, &old.lifecycle, None, Some(old.record_oid.as_str()), false)?)
    };
    let planned_record_oid = match &record {
        Some(rec) => rec.record_oid.clone(),
        None => old.record_oid.clone(),
    };
    let mut plan = MutationPlan::new(kind, Some(metadata.id.clone())).expected_record(Some(old.record_oid.clone()));
    plan.update(StaircaseRefs::state_record(metadata.id.as_str()), Some(old.record_oid.clone()), Some(planned_record_oid.clone()));
    let public_ref = StaircaseRefs::public(selector.metadata().name.as_str());
    match repo.resolve_ref_opt(public_ref.as_str())? {
        Some(at) => {
            if str_eq(at.as_str(), old.record_oid.as_str()) {
                plan.update(public_ref, Some(old.record_oid.clone()), Some(planned_record_oid));
            }
        },
        None => {},
    }
    let old_steps = steps_by_id(&old.metadata.steps);
    let new_steps = steps_by_id(&metadata.steps);
    let oe = old_steps.entries();
    let mut a: usize = 0;
    while a < oe.len()
        invariant
            a <= oe@.len(),
        decreases oe@.len() - a,
    {
        if !new_steps.contains_key(oe[a].0.as_str()) {
            plan.update(StaircaseRefs::state_step(metadata.id.as_str(), oe[a].0.as_str()), Some(oe[a].1.clone()), None);
        }
        a += 1;
    }
    let ne = new_steps.entries();
    let mut b: usize = 0;
    while b < ne.len()
        invariant
            b <= ne@.len(),
        decreases ne@.len() - b,
    {
        let before = match old_steps.get(ne[b].0.as_str()) {
            Some(c) => Some(c.clone()),
            None => None,
        };
        plan.update(StaircaseRefs::state_step(metadata.id.as_str(), ne[b].0.as_str()), before, Some(ne[b].1.clone()));
        b += 1;
    }
    let mut overridden: Vec<String> = Vec::new();
    let mut e: usize = 0;
    while e < extra_refs.len()
        invariant
            e <= extra_refs@.len(),
        decreases extra_refs@.len() - e,
    {
        overridden.push(extra_refs[e].0.clone());
        e += 1;
    }
    add_branch_permutation(repo, &old.metadata, &metadata, &mut plan, &overridden)?;
    let mut x: usize = 0;
    while x < extra_refs.len()
        invariant
            x <= extra_refs@.len(),
        decreases extra_refs@.len() - x,
    {
        plan.update(extra_refs[x].0.clone(), extra_refs[x].1.clone(), extra_refs[x].2.clone());
        x += 1;
    }
    let mut changed: Vec<String> = Vec::new();
    let mut c: usize = 0;
    while c < plan.refs.len()
        invariant
            c <= plan.refs@.len(),
        decreases plan.refs@.len() - c,
    {
        changed.push(plan.refs[c].reference.clone());
        c += 1;
    }
    plan.publish(repo, dry_run)?;
    let record_oid = match record {
        Some(rec) => Some(rec.record_oid),
        None => None,
    };
    Ok(result(kind, &metadata, record_oid, dry_run, changed))
}

/// Publishes a new record with the given descriptive metadata (see
/// `publish_record_parts_extra`).
fn publish_record_parts(
    repo: &GitRepo,
    selector: &ResolvedSelector,
    metadata: StaircaseMetadata,
    user_metadata: StaircaseUserMetadata,
    kind: &str,
    dry_run: bool,
) -> (r: Result<LocalMutationResult>)
    requires
        !(selector.staircase is ImplicitFamily),
    ensures
        r matches Ok(res) ==> res.kind@ == kind@ && res.dry_run == dry_run && res.staircase_id@ == metadata.id@,
{
    let none: Vec<(String, Option<String>, Option<String>)> = Vec::new();
    publish_record_parts_extra(repo, selector, metadata, user_metadata, kind, dry_run, &none)
}

/// Publishes a new structure for the selected managed staircase, keeping
/// its descriptive metadata (see `publish_record_parts_extra`).
pub fn publish_metadata(
    repo: &GitRepo,
    selector: &ResolvedSelector,
    metadata: StaircaseMetadata,
    kind: &str,
    dry_run: bool,
) -> (r: Result<LocalMutationResult>)
    requires
        !(selector.staircase is ImplicitFamily),
    ensures
        !(selector.staircase is Managed) ==> (r matches Err(StaircaseError::Other(m)) && m@ == unmanaged_message()),
        r matches Ok(res) ==> res.kind@ == kind@ && res.dry_run == dry_run && res.staircase_id@ == metadata.id@,
{
    let old = current_record(repo, selector)?;
    publish_record_parts(repo, selector, metadata, old.user_metadata, kind, dry_run)
}


/// The message for an empty append range.
pub open spec fn empty_append_message() -> Seq<char> {
    "append range contains no commits"@
}

/// Checks that `commits` (oldest first) form a chain of single-parent
/// commits on top of `old_top`; `parents[i]` lists the parents of `commits[i]`.
pub open spec fn is_linear_chain(top: Seq<char>, commits: Seq<Seq<char>>, parents: Seq<Seq<Seq<char>>>) -> bool {
    &&& parents.len() == commits.len()
    &&& forall|i: int| 0 <= i < commits.len() ==> (#[trigger] parents[i]).len() == 1
    &&& commits.len() > 0 ==> parents[0][0] == top
    &&& forall|i: int| 0 < i < commits.len() ==> (#[trigger] parents[i])[0] == commits[i - 1]
}

/// The commits of `range` (oldest first), which must form a linear chain
/// on top of `old_top`.
fn resolve_linear_append(repo: &GitRepo, old_top: &str, range: &str) -> (r: Result<Vec<String>>)
    ensures
        r matches Ok(v) ==> v@.len() > 0,
{
    let listing = repo.run(&["rev-list", "--reverse", range])?;
    let commits = lines_of(listing.as_str());
    if commits.len() == 0 {
        return Err(StaircaseError::InvalidStructure(owned("append range contains no commits")));
    }
    let mut predecessor = repo.resolve_commit(old_top)?;
    let mut i: usize = 0;
    while i < commits.len()
        invariant
            i <= commits@.len(),
        decreases commits@.len() - i,
    {
        let shown = repo.run(&["show", "-s", "--format=%P", commits[i].as_str()])?;
        let parents = words_of(shown.as_str());
        if parents.len() != 1 {
            let reason = cat3("commit ", commits[i].as_str(), " is a merge or root commit");
            return Err(StaircaseError::UnsupportedTopology { operation: owned("append"), reason });
        }
        if !str_eq(parents[0].as_str(), predecessor.as_str()) {
            let reason = cat("range is not a contiguous dependency chain above current top ", old_top);
            return Err(StaircaseError::UnsupportedTopology { operation: owned("append"), reason });
        }
        predecessor = commits[i].clone();
        i += 1;
    }
    Ok(commits)
}

/// Appends the commits of `revision_range` (a linear chain on the top
/// step) to the staircase: the top step grows to the last commit, or with
/// `new_step` a step on the new branch `branch` ends there. A managed
/// staircase is republished; an implicit one only moves its top branch.
pub fn append(
    repo: &GitRepo,
    selector: &ResolvedSelector,
    revision_range: &str,
    new_step: bool,
    branch: Option<&str>,
    dry_run: bool,
) -> (r: Result<LocalMutationResult>)
    requires
        !(selector.staircase is ImplicitFamily),
    ensures
        r matches Ok(res) ==> res.kind@ == "append"@ && res.dry_run == dry_run,
        is_archived(linear_metadata(selector.staircase)) ==> (r matches Err(StaircaseError::Other(m)) && m@ == archived_message()),
        !is_archived(linear_metadata(selector.staircase)) && linear_metadata(selector.staircase).steps@.len() == 0
            ==> (r matches Err(StaircaseError::InvalidStructure(m)) && m@ == "empty staircase"@),
{
    let original = selector.metadata();
    ensure_active(original)?;
    if original.steps.len() == 0 {
        return Err(StaircaseError::InvalidStructure(owned("empty staircase")));
    }
    let mut metadata = original.clone();
    metadata.steps = crate::staircase::manipulation::copy_steps(&original.steps);
    let old_top = metadata.steps[metadata.steps.len() - 1].cut.clone();
    let commits = resolve_linear_append(repo, old_top.as_str(), revision_range)?;
    let new_top = commits[commits.len() - 1].clone();
    if new_step {
        let b = match branch {
            Some(b) => b,
            None => return Err(StaircaseError::Other(owned("--new-step requires --branch <local-branch>"))),
        };
        repo.check_ref_format(b, true)?;
        metadata.steps.push(Step { id: fresh_uuid(), name: owned(b), cut: new_top, branch: Some(owned(b)) });
    } else {
        if branch.is_some() {
            return Err(StaircaseError::Other(owned("--branch is valid only with --new-step")));
        }
        let last = metadata.steps.len() - 1;
        let mut top = metadata.steps[last].copy();
        top.cut = new_top;
        metadata.steps.set(last, top);
    }
    if selector.staircase.is_managed() {
        let r = publish_metadata(repo, selector, metadata, "append", dry_run)?;
        return Ok(r);
    }
    let tip = &metadata.steps[metadata.steps.len() - 1];
    let tip_branch = match &tip.branch {
        Some(b) => b,
        None => return Err(StaircaseError::Other(owned("append without a materializing branch requires adoption"))),
    };
    let reference = StaircaseRefs::local(tip_branch.as_str());
    let expected = repo.resolve_ref_opt(reference.as_str())?;
    let at_old_top = match &expected {
        Some(e) => str_eq(e.as_str(), old_top.as_str()),
        None => false,
    };
    if !new_step && !at_old_top {
        let actual = match expected {
            Some(e) => e,
            None => owned("<missing>"),
        };
        return Err(StaircaseError::RefCollision { reference, expected: old_top, actual });
    }
    let mut plan = MutationPlan::new("append", None);
    plan.update(reference.clone(), expected, Some(tip.cut.clone()));
    plan.publish(repo, dry_run)?;
    Ok(result("append", &metadata, None, dry_run, vec![reference]))
}

/// Republishes the record of a managed staircase as it is, restoring the
/// refs it implies.
pub fn normalize(repo: &GitRepo, selector: &ResolvedSelector, dry_run: bool) -> (r: Result<LocalMutationResult>)
    requires
        !(selector.staircase is ImplicitFamily),
    ensures
        !(selector.staircase is Managed) ==> (r matches Err(StaircaseError::Other(m))
            && m@ == "normalization requiring retained state requires a managed staircase"@),
        r matches Ok(res) ==> res.kind@ == "normalize"@,
{
    if !selector.staircase.is_managed() {
        return Err(StaircaseError::Other(owned("normalization requiring retained state requires a managed staircase")));
    }
    let metadata = selector.metadata().clone();
    publish_metadata(repo, selector, metadata, "normalize", dry_run)
}

/// The state of the staircase's branch layout: for each step, the branch
/// the layout expects and where it is; clean without a layout or when each
/// expected branch is at its step's cut.
pub fn layout_state(repo: &GitRepo, selector: &ResolvedSelector) -> (r: Result<LayoutState>)
    requires
        !(selector.staircase is ImplicitFamily),
    ensures
        r matches Ok(s) ==> s.schema@ == "git-staircase/layout-state"@ && s.version == 1
            && (s.state@ == "clean"@ || s.state@ == "dirty"@),
        r matches Ok(s) ==> (linear_metadata(selector.staircase).primary_branch_layout is None ==> s.state@ == "clean"@),
        r matches Ok(s) ==> s.branches@.len() == linear_metadata(selector.staircase).steps@.len(),
        linear_metadata(selector.staircase).primary_branch_layout matches Some(p) && p@ != "sequential-v1"@ ==> (r matches Err(
            StaircaseError::Other(m)) && m@ == unsupported_layout_message()),
        linear_metadata(selector.staircase).primary_branch_layout matches Some(p) && p@ == "sequential-v1"@
            && linear_metadata(selector.staircase).branch_layout_base is None ==> (r matches Err(StaircaseError::Other(m))
            && m@ == missing_base_message()),
{
    let metadata = selector.metadata();
    let expected_names = expected_layout_names(metadata)?;
    let mut branches: Vec<LayoutBranch> = Vec::new();
    let mut clean = true;
    let mut i: usize = 0;
    while i < metadata.steps.len()
        invariant
            i <= metadata.steps@.len(),
            branches@.len() == i,
            expected_names matches Some(names) ==> names@.len() == metadata.steps@.len(),
            *metadata == linear_metadata(selector.staircase),
            metadata.primary_branch_layout matches Some(p) ==> p@ == "sequential-v1"@ && metadata.branch_layout_base is Some,
        decreases metadata.steps@.len() - i,
    {
        let step = &metadata.steps[i];
        let expected_ref = match &expected_names {
            Some(names) => Some(StaircaseRefs::local(names[i].as_str())),
            None => None,
        };
        let actual_oid = match &expected_ref {
            Some(reference) => repo.resolve_ref_opt(reference.as_str())?,
            None => None,
        };
        if expected_ref.is_some() {
            let at_cut = match &actual_oid {
                Some(a) => str_eq(a.as_str(), step.cut.as_str()),
                None => false,
            };
            if !at_cut {
                clean = false;
            }
        }
        branches.push(LayoutBranch {
            step_id: step.id.clone(),
            step_name: step.name.clone(),
            expected_ref,
            expected_oid: step.cut.clone(),
            actual_oid,
        });
        i += 1;
    }
    let state = if metadata.primary_branch_layout.is_none() || clean { owned("clean") } else { owned("dirty") };
    Ok(LayoutState {
        schema: owned("git-staircase/layout-state"),
        version: 1,
        staircase_id: metadata.id.clone(),
        profile: metadata.primary_branch_layout.clone(),
        base: metadata.branch_layout_base.clone(),
        state,
        branches,
    })
}

/// Gives a managed staircase the sequential layout on `base` and renames
/// its branches accordingly.
pub fn set_layout(repo: &GitRepo, selector: &ResolvedSelector, base: &str, dry_run: bool) -> (r: Result<LocalMutationResult>)
    requires
        !(selector.staircase is ImplicitFamily),
    ensures
        r matches Ok(res) ==> res.kind@ == "layout-set"@,
{
    repo.check_ref_format(base, true)?;
    let mut metadata = require_managed(selector)?.clone();
    metadata.primary_branch_layout = Some(owned("sequential-v1"));
    metadata.branch_layout_base = Some(owned(base));
    apply_layout_names(&mut metadata)?;
    publish_metadata(repo, selector, metadata, "layout-set", dry_run)
}

/// Removes the branch layout of a managed staircase (its branches stay).
pub fn unset_layout(repo: &GitRepo, selector: &ResolvedSelector, dry_run: bool) -> (r: Result<LocalMutationResult>)
    requires
        !(selector.staircase is ImplicitFamily),
    ensures
        r matches Ok(res) ==> res.kind@ == "layout-unset"@,
{
    let mut metadata = require_managed(selector)?.clone();
    metadata.primary_branch_layout = None;
    metadata.branch_layout_base = None;
    publish_metadata(repo, selector, metadata, "layout-unset", dry_run)
}

/// The message for a step index past the last step.
pub open spec fn step_range_message(index: nat) -> Seq<char> {
    "step "@ + crate::text::decimal(index + 1) + " is out of range"@
}

/// Puts step `step_index` (from 0) of a managed staircase on branch `name`,
/// leaving any layout.
pub fn assign_step_branch(repo: &GitRepo, selector: &ResolvedSelector, step_index: usize, name: &str, dry_run: bool) -> (r: Result<LocalMutationResult>)
    requires
        !(selector.staircase is ImplicitFamily),
        step_index < usize::MAX,
    ensures
        r matches Ok(res) ==> res.kind@ == "layout-branch"@,
{
    repo.check_ref_format(name, true)?;
    let mut metadata = require_managed(selector)?.clone();
    if step_index >= metadata.steps.len() {
        let mut m = cat("step ", crate::text::usize_to_decimal(step_index + 1).as_str());
        m.append(" is out of range");
        return Err(StaircaseError::InvalidStructure(m));
    }
    let mut step = metadata.steps[step_index].copy();
    step.branch = Some(owned(name));
    metadata.steps.set(step_index, step);
    metadata.primary_branch_layout = None;
    metadata.branch_layout_base = None;
    publish_metadata(repo, selector, metadata, "layout-branch", dry_run)
}

/// Fails when the public name `name` is taken by another lineage than
/// `same_lineage`, or reserved by another archived staircase.
fn check_name_available(repo: &GitRepo, name: &str, same_lineage: Option<&str>) -> (r: Result<()>) {
    let reference = StaircaseRefs::public(name);
    match repo.resolve_ref_opt(reference.as_str())? {
        Some(oid) => {
            let lineage = match read_record(repo, oid.as_str()) {
                Ok(rec) => rec.metadata.id,
                Err(_) => String::new(),
            };
            let same = match same_lineage {
                Some(l) => str_eq(l, lineage.as_str()),
                None => false,
            };
            if !same {
                return Err(StaircaseError::RefCollision { reference, expected: owned("<missing>"), actual: oid });
            }
        },
        None => {},
    }
    let archived = list_archived_staircases(repo)?;
    let mut i: usize = 0;
    while i < archived.len()
        invariant
            i <= archived@.len(),
        decreases archived@.len() - i,
    {
        let a = &archived[i];
        let reserved = match &a.lifecycle {
            Some(l) => l.name_reserved,
            None => false,
        };
        let same = match same_lineage {
            Some(l) => str_eq(l, a.id.as_str()),
            None => false,
        };
        if str_eq(a.name.as_str(), name) && reserved && !same {
            return Err(StaircaseError::RefCollision {
                reference,
                expected: owned("<unreserved>"),
                actual: cat("reserved-by:", a.id.as_str()),
            });
        }
        i += 1;
    }
    Ok(())
}

/// Gives the selected staircase the public name `new_name` (recording an
/// implicit staircase under it).
pub fn name_staircase(repo: &GitRepo, selector: &ResolvedSelector, new_name: &str, dry_run: bool) -> (r: Result<LocalMutationResult>)
    requires
        !(selector.staircase is ImplicitFamily),
    ensures
        r matches Ok(res) ==> res.kind@ == "name"@ && res.changed_refs@.len() == 1
            && res.changed_refs@[0]@ == "refs/staircases/"@ + new_name@,
{
    let public = StaircaseRefs::public(new_name);
    repo.check_ref_format(public.as_str(), false)?;
    check_name_available(repo, new_name, None)?;
    if !selector.staircase.is_managed() {
        if dry_run {
            return Ok(result("name", selector.metadata(), None, true, vec![public]));
        }
        let mut metadata = selector.metadata().clone();
        metadata.name = owned(new_name);
        let adopted = adopt(repo, &metadata)?;
        let record = current_record_for_metadata(repo, &adopted)?;
        return Ok(result("name", &adopted, Some(record.record_oid), false, vec![public]));
    }
    let record = current_record(repo, selector)?;
    let mut plan = MutationPlan::new("name", Some(record.metadata.id.clone())).expected_record(Some(record.record_oid.clone()));
    plan.update(public.clone(), None, Some(record.record_oid.clone()));
    plan.publish(repo, dry_run)?;
    Ok(result("name", &record.metadata, Some(record.record_oid), dry_run, vec![public]))
}

/// Moves the public name of a managed staircase to `new_name`.
pub fn rename_staircase(repo: &GitRepo, selector: &ResolvedSelector, new_name: &str, dry_run: bool) -> (r: Result<LocalMutationResult>)
    requires
        !(selector.staircase is ImplicitFamily),
    ensures
        r matches Ok(res) ==> res.kind@ == "rename"@ && res.changed_refs@.len() == 2
            && res.changed_refs@[1]@ == "refs/staircases/"@ + new_name@,
{
    let new_ref = StaircaseRefs::public(new_name);
    repo.check_ref_format(new_ref.as_str(), false)?;
    let record = current_record(repo, selector)?;
    check_name_available(repo, new_name, Some(record.metadata.id.as_str()))?;
    let old_ref = StaircaseRefs::public(selector.metadata().name.as_str());
    let old_oid = repo.resolve_ref_opt(old_ref.as_str())?;
    let at_record = match &old_oid {
        Some(o) => str_eq(o.as_str(), record.record_oid.as_str()),
        None => false,
    };
    if !at_record {
        let actual = match old_oid {
            Some(o) => o,
            None => owned("<missing>"),
        };
        return Err(StaircaseError::ConcurrentRecordUpdate { reference: old_ref, expected: record.record_oid, actual });
    }
    let mut plan = MutationPlan::new("rename", Some(record.metadata.id.clone())).expected_record(Some(record.record_oid.clone()));
    plan.update(old_ref.clone(), old_oid, None);
    plan.update(new_ref.clone(), None, Some(record.record_oid.clone()));
    plan.publish(repo, dry_run)?;
    Ok(result("rename", &record.metadata, Some(record.record_oid), dry_run, vec![old_ref, new_ref]))
}

/// Removes the public name of a managed staircase.
pub fn unname_staircase(repo: &GitRepo, selector: &ResolvedSelector, dry_run: bool) -> (r: Result<LocalMutationResult>)
    requires
        !(selector.staircase is ImplicitFamily),
    ensures
        r matches Ok(res) ==> res.kind@ == "unname"@,
{
    let record = current_record(repo, selector)?;
    let reference = StaircaseRefs::public(selector.metadata().name.as_str());
    let current = repo.resolve_ref_opt(reference.as_str())?;
    let at_record = match &current {
        Some(o) => str_eq(o.as_str(), record.record_oid.as_str()),
        None => false,
    };
    if !at_record {
        let actual = match current {
            Some(o) => o,
            None => owned("<missing>"),
        };
        return Err(StaircaseError::ConcurrentRecordUpdate { reference, expected: record.record_oid, actual });
    }
    let mut plan = MutationPlan::new("unname", Some(record.metadata.id.clone())).expected_record(Some(record.record_oid.clone()));
    plan.update(reference.clone(), current, None);
    plan.publish(repo, dry_run)?;
    Ok(result("unname", &record.metadata, Some(record.record_oid), dry_run, vec![reference]))
}


/// The members of the JSON object stored under extension `git-staircase.<key>`,
/// by name (a later member of the same name wins); empty when there is
/// none or it is not an object.
fn extension_map(repo: &GitRepo, user_meta: &StaircaseUserMetadata, key: &str) -> (r: SortedMap<JsonValue>) {
    let mut out: SortedMap<JsonValue> = SortedMap::new();
    let name = cat("git-staircase.", key);
    match user_meta.extensions.get(name.as_str()) {
        Some(text) => match repo.host.parse_json(text.as_str()) {
            Ok(JsonValue::Object(members)) => {
                let mut members = members;
                while members.len() > 0
                    decreases members@.len(),
                {
                    let (k, v) = members.remove(0);
                    out.insert(k, v);
                }
            },
            _ => {},
        },
        None => {},
    }
    out
}

/// The policies of the selected managed staircase, by key.
pub fn policy_values(repo: &GitRepo, selector: &ResolvedSelector) -> (r: Result<SortedMap<JsonValue>>)
    requires
        !(selector.staircase is ImplicitFamily),
    ensures
        !(selector.staircase is Managed) ==> (r matches Err(StaircaseError::Other(m)) && m@ == unmanaged_message()),
{
    let record = current_record(repo, selector)?;
    Ok(extension_map(repo, &record.user_metadata, "policies"))
}

/// A JSON object of the entries of `map`, in key order.
fn object_of(map: SortedMap<JsonValue>) -> (r: JsonValue)
    ensures
        r is Object,
{
    JsonValue::Object(map.into_entries())
}

/// Sets (or, with no value, removes) policies of a managed staircase; each
/// key must lie in a registered namespace.
pub fn update_policies(
    repo: &GitRepo,
    selector: &ResolvedSelector,
    assignments: Vec<(String, Option<JsonValue>)>,
    dry_run: bool,
) -> (r: Result<LocalMutationResult>)
    requires
        !(selector.staircase is ImplicitFamily),
    ensures
        (exists|i: int| 0 <= i < assignments@.len() && !valid_policy_key((#[trigger] assignments@[i]).0@))
            && selector.staircase is Managed && !is_archived(linear_metadata(selector.staircase))
            ==> r is Err,
        !(selector.staircase is Managed) ==> (r matches Err(StaircaseError::Other(m)) && m@ == unmanaged_message()),
        selector.staircase is Managed && is_archived(linear_metadata(selector.staircase)) ==> (r matches Err(
            StaircaseError::Other(m)) && m@ == archived_message()),
        r matches Ok(res) ==> res.kind@ == "policy"@,
{
    require_managed(selector)?;
    let ghost all = assignments@;
    let mut k: usize = 0;
    while k < assignments.len()
        invariant
            k <= assignments@.len(),
            selector.staircase is Managed && !is_archived(linear_metadata(selector.staircase)),
            forall|j: int| 0 <= j < k ==> valid_policy_key((#[trigger] assignments@[j]).0@),
        decreases assignments@.len() - k,
    {
        validate_policy_key(assignments[k].0.as_str())?;
        k += 1;
    }
    let mut record = current_record(repo, selector)?;
    let mut policies = extension_map(repo, &record.user_metadata, "policies");
    let mut assignments = assignments;
    while assignments.len() > 0
        decreases assignments@.len(),
    {
        let (key, value) = assignments.remove(0);
        match value {
            Some(v) => policies.insert(key, v),
            None => {
                let entries = policies.into_entries();
                let mut kept: SortedMap<JsonValue> = SortedMap::new();
                let mut entries = entries;
                while entries.len() > 0
                    decreases entries@.len(),
                {
                    let (ek, ev) = entries.remove(0);
                    if !str_eq(ek.as_str(), key.as_str()) {
                        kept.insert(ek, ev);
                    }
                }
                policies = kept;
            },
        }
    }
    let text = crate::json_text::render_json(&object_of(policies));
    record.user_metadata.extensions.insert(owned("git-staircase.policies"), text);
    publish_record_parts(repo, selector, record.metadata, record.user_metadata, "policy", dry_run)
}

/// The view of a discovery override.
pub open spec fn override_view(o: DiscoveryOverride) -> (Seq<char>, Seq<char>, Seq<char>) {
    (o.id@, o.kind@, o.value@)
}

/// The string member `key` of a JSON object, when it has one.
fn string_member(v: &JsonValue, key: &str) -> (r: Option<String>)
    ensures
        match r { Some(s) => Some(s@), None => None } == spec_as_str(spec_get(*v, key@)),
{
    match v.get(key) {
        Some(JsonValue::String(s)) => Some(s.clone()),
        _ => None,
    }
}

/// The override that a stored JSON item describes: its string members
/// `id`, `kind` and `value`; none when one of them is missing.
pub open spec fn override_json(v: JsonValue) -> Option<(Seq<char>, Seq<char>, Seq<char>)> {
    match (spec_as_str(spec_get(v, "id"@)), spec_as_str(spec_get(v, "kind"@)), spec_as_str(spec_get(v, "value"@))) {
        (Some(id), Some(kind), Some(value)) => Some((id, kind, value)),
        _ => None,
    }
}

/// The JSON items describe the overrides, one for one.
pub open spec fn encodes_overrides(items: Seq<JsonValue>, overrides: Seq<DiscoveryOverride>) -> bool {
    &&& items.len() == overrides.len()
    &&& forall|i: int| 0 <= i < items.len() ==> override_json(#[trigger] items[i]) == Some(override_view(overrides[i]))
}

/// The discovery overrides stored in a JSON array of objects with string
/// members `id`, `kind` and `value`; any other value is a data error.
pub fn decode_overrides(value: &JsonValue) -> (r: Result<Vec<DiscoveryOverride>>)
    ensures
        r is Ok <==> (*value matches JsonValue::Array(items)
            && forall|i: int| 0 <= i < items@.len() ==> (#[trigger] override_json(items@[i])) is Some),
        r matches Ok(v) ==> (*value matches JsonValue::Array(items) && encodes_overrides(items@, v@)),
        r matches Err(e) ==> e is Serialization,
{
    let items = match value {
        JsonValue::Array(items) => items,
        _ => return Err(StaircaseError::Serialization(
            crate::staircase::persistence::structure::json_data_error("discovery overrides must be an array"),
        )),
    };
    let mut out: Vec<DiscoveryOverride> = Vec::new();
    let mut i: usize = 0;
    while i < items.len()
        invariant
            *value == JsonValue::Array(*items),
            i <= items@.len(),
            encodes_overrides(items@.take(i as int), out@),
            forall|j: int| 0 <= j < i ==> (#[trigger] override_json(items@[j])) is Some,
        decreases items@.len() - i,
    {
        let id = string_member(&items[i], "id");
        let kind = string_member(&items[i], "kind");
        let val = string_member(&items[i], "value");
        match (id, kind, val) {
            (Some(id), Some(kind), Some(value)) => {
                let ghost before = out@;
                out.push(DiscoveryOverride { id, kind, value });
                proof {
                    assert forall|j: int| 0 <= j < i + 1 implies override_json(#[trigger] items@.take(i + 1)[j])
                        == Some(override_view(out@[j])) by {
                        if j < i {
                            assert(items@.take(i + 1)[j] == items@.take(i as int)[j]);
                        }
                    }
                }
            },
            _ => {
                proof {
                    assert(override_json(items@[i as int]) is None);
                }
                return Err(StaircaseError::Serialization(
                    crate::staircase::persistence::structure::json_data_error("invalid discovery override"),
                ));
            },
        }
        i += 1;
    }
    proof {
        assert(items@.take(items@.len() as int) =~= items@);
    }
    Ok(out)
}

/// A stored override object: members `id`, `kind` and `value`, in that order.
proof fn lemma_override_members(m: Seq<(String, JsonValue)>)
    requires
        m.len() == 3,
        m[0].0@ == "id"@,
        m[1].0@ == "kind"@,
        m[2].0@ == "value"@,
    ensures
        first_member(m, "id"@) == Some(m[0].1),
        first_member(m, "kind"@) == Some(m[1].1),
        first_member(m, "value"@) == Some(m[2].1),
{
    reveal_strlit("id");
    reveal_strlit("kind");
    reveal_strlit("value");
    let rest = m.drop_first();
    assert(rest[0] == m[1]);
    assert(rest.drop_first()[0] == m[2]);
    assert("id"@ != "kind"@ && "id"@ != "value"@ && "kind"@ != "value"@) by {
        assert("id"@.len() == 2 && "kind"@.len() == 4 && "value"@.len() == 5);
    }
    assert(first_member(m, "kind"@) == first_member(rest, "kind"@));
    assert(first_member(m, "value"@) == first_member(rest, "value"@));
    assert(first_member(rest, "value"@) == first_member(rest.drop_first(), "value"@));
}

/// The JSON array that stores `overrides`: one object with string members
/// `id`, `kind` and `value` per override.
pub fn encode_overrides(overrides: &Vec<DiscoveryOverride>) -> (r: JsonValue)
    ensures
        r matches JsonValue::Array(items) && encodes_overrides(items@, overrides@),
{
    let mut items: Vec<JsonValue> = Vec::new();
    let mut i: usize = 0;
    while i < overrides.len()
        invariant
            i <= overrides@.len(),
            encodes_overrides(items@, overrides@.take(i as int)),
        decreases overrides@.len() - i,
    {
        let o = &overrides[i];
        let members = vec![
            (owned("id"), JsonValue::String(o.id.clone())),
            (owned("kind"), JsonValue::String(o.kind.clone())),
            (owned("value"), JsonValue::String(o.value.clone())),
        ];
        proof {
            lemma_override_members(members@);
        }
        items.push(JsonValue::Object(members));
        proof {
            assert forall|j: int| 0 <= j < i + 1 implies override_json(#[trigger] items@[j])
                == Some(override_view(overrides@.take(i + 1)[j])) by {
                if j < i {
                    assert(overrides@.take(i + 1)[j] == overrides@.take(i as int)[j]);
                }
            }
        }
        i += 1;
    }
    proof {
        assert(overrides@.take(overrides@.len() as int) =~= overrides@);
    }
    JsonValue::Array(items)
}

/// Reading back stored overrides gives the overrides that were stored: every
/// item that `encode_overrides` writes decodes, and whatever `decode_overrides`
/// reads from those items is the same list of overrides.
pub proof fn law_overrides_round_trip(
    items: Seq<JsonValue>,
    stored: Seq<DiscoveryOverride>,
    read: Seq<DiscoveryOverride>,
)
    requires
        encodes_overrides(items, stored),
    ensures
        forall|i: int| 0 <= i < items.len() ==> (#[trigger] override_json(items[i])) is Some,
        encodes_overrides(items, read) ==> read.map_values(|o: DiscoveryOverride| override_view(o))
            == stored.map_values(|o: DiscoveryOverride| override_view(o)),
{
    if encodes_overrides(items, read) {
        let f = |o: DiscoveryOverride| override_view(o);
        assert forall|i: int| 0 <= i < read.len() implies read.map_values(f)[i] == stored.map_values(f)[i] by {
            assert(override_json(items[i]) == Some(override_view(read[i])));
            assert(override_json(items[i]) == Some(override_view(stored[i])));
        }
        assert(read.map_values(f) =~= stored.map_values(f));
    }
}

/// The discovery overrides of the selected managed staircase.
pub fn discovery_overrides(repo: &GitRepo, selector: &ResolvedSelector) -> (r: Result<Vec<DiscoveryOverride>>)
    requires
        !(selector.staircase is ImplicitFamily),
    ensures
        !(selector.staircase is Managed) ==> (r matches Err(StaircaseError::Other(m)) && m@ == unmanaged_message()),
{
    let record = current_record(repo, selector)?;
    match record.user_metadata.extensions.get("git-staircase.discovery-overrides") {
        Some(text) => {
            let value = repo.host.parse_json(text.as_str())?;
            decode_overrides(&value)
        },
        None => Ok(Vec::new()),
    }
}

/// `overrides` with one of `kind` on `value` added under `id`, unless one
/// of that kind on that value is there already.
pub fn with_override(overrides: Vec<DiscoveryOverride>, kind: &str, value: &str, id: String) -> (r: Vec<DiscoveryOverride>)
    ensures
        (exists|i: int| 0 <= i < overrides@.len() && (#[trigger] overrides@[i]).kind@ == kind@ && overrides@[i].value@ == value@)
            ==> r@ == overrides@,
        !(exists|i: int| 0 <= i < overrides@.len() && (#[trigger] overrides@[i]).kind@ == kind@ && overrides@[i].value@ == value@)
            ==> (r@.len() == overrides@.len() + 1 && r@.take(overrides@.len() as int) == overrides@
                && override_view(r@.last()) == (id@, kind@, value@)),
{
    let mut i: usize = 0;
    while i < overrides.len()
        invariant
            i <= overrides@.len(),
            forall|j: int| 0 <= j < i ==> !((#[trigger] overrides@[j]).kind@ == kind@ && overrides@[j].value@ == value@),
        decreases overrides@.len() - i,
    {
        if str_eq(overrides[i].kind.as_str(), kind) && str_eq(overrides[i].value.as_str(), value) {
            return overrides;
        }
        i += 1;
    }
    let mut out = overrides;
    let ghost before = out@;
    out.push(DiscoveryOverride { id, kind: owned(kind), value: owned(value) });
    proof {
        assert(out@.take(before.len() as int) =~= before);
    }
    out
}

/// `overrides` without the one with id `id`; none when there is none.
pub fn without_override(overrides: &Vec<DiscoveryOverride>, id: &str) -> (r: Option<Vec<DiscoveryOverride>>)
    ensures
        (forall|i: int| 0 <= i < overrides@.len() ==> (#[trigger] overrides@[i]).id@ != id@) <==> r is None,
        r matches Some(v) ==> v@.len() < overrides@.len() && forall|i: int| 0 <= i < v@.len() ==> (#[trigger] v@[i]).id@ != id@,
{
    let mut out: Vec<DiscoveryOverride> = Vec::new();
    let mut removed = false;
    let mut i: usize = 0;
    while i < overrides.len()
        invariant
            i <= overrides@.len(),
            out@.len() <= i,
            removed <==> exists|j: int| 0 <= j < i && (#[trigger] overrides@[j]).id@ == id@,
            removed ==> out@.len() < i,
            forall|j: int| 0 <= j < out@.len() ==> (#[trigger] out@[j]).id@ != id@,
        decreases overrides@.len() - i,
    {
        if str_eq(overrides[i].id.as_str(), id) {
            removed = true;
        } else {
            let o = &overrides[i];
            out.push(DiscoveryOverride { id: o.id.clone(), kind: o.kind.clone(), value: o.value.clone() });
        }
        i += 1;
    }
    if removed {
        Some(out)
    } else {
        None
    }
}

/// The message for an unknown kind of discovery override.
pub open spec fn unknown_override_message(kind: Seq<char>) -> Seq<char> {
    "unknown discovery override kind '"@ + kind + "'"@
}

/// The value a discovery override of `kind` stores: a full refname for
/// ref overrides (an included ref must resolve), a commit for cut
/// overrides (an ignored cut may also be a full refname).
fn canonical_override_value(repo: &GitRepo, kind: &str, value: &str) -> (r: Result<String>)
    ensures
        !(kind@ == "include-ref"@ || kind@ == "exclude-ref"@ || kind@ == "add-cut"@ || kind@ == "ignore-cut"@)
            ==> (r matches Err(StaircaseError::Other(m)) && m@ == unknown_override_message(kind@)),
        (kind@ == "include-ref"@ || kind@ == "exclude-ref"@) && !"refs/"@.is_prefix_of(value@)
            ==> (r matches Err(StaircaseError::Other(m)) && m@ == "discovery ref overrides require a full refname"@),
{
    if str_eq(kind, "include-ref") || str_eq(kind, "exclude-ref") {
        if !starts_with(value, "refs/") {
            return Err(StaircaseError::Other(owned("discovery ref overrides require a full refname")));
        }
        repo.check_ref_format(value, false)?;
        if str_eq(kind, "include-ref") {
            repo.resolve_commit(value)?;
        }
        Ok(owned(value))
    } else if str_eq(kind, "add-cut") {
        repo.resolve_commit(value)
    } else if str_eq(kind, "ignore-cut") {
        if starts_with(value, "refs/") {
            repo.check_ref_format(value, false)?;
            Ok(owned(value))
        } else {
            repo.resolve_commit(value)
        }
    } else {
        Err(StaircaseError::Other(cat3("unknown discovery override kind '", kind, "'")))
    }
}

/// Adds a discovery override to a managed staircase (see `with_override`).
pub fn add_discovery_override(repo: &GitRepo, selector: &ResolvedSelector, kind: &str, raw_value: &str, dry_run: bool) -> (r: Result<LocalMutationResult>)
    requires
        !(selector.staircase is ImplicitFamily),
    ensures
        !(selector.staircase is Managed) ==> (r matches Err(StaircaseError::Other(m)) && m@ == unmanaged_message()),
        selector.staircase is Managed && is_archived(linear_metadata(selector.staircase)) ==> (r matches Err(
            StaircaseError::Other(m)) && m@ == archived_message()),
        r matches Ok(res) ==> res.kind@ == "discovery-override"@,
{
    require_managed(selector)?;
    let value = canonical_override_value(repo, kind, raw_value)?;
    let mut record = current_record(repo, selector)?;
    let overrides = discovery_overrides(repo, selector)?;
    let overrides = with_override(overrides, kind, value.as_str(), fresh_uuid());
    let text = crate::json_text::render_json(&encode_overrides(&overrides));
    record.user_metadata.extensions.insert(owned("git-staircase.discovery-overrides"), text);
    publish_record_parts(repo, selector, record.metadata, record.user_metadata, "discovery-override", dry_run)
}

/// Removes the discovery override `id` of a managed staircase; unknown ids
/// are not found.
pub fn clear_discovery_override(repo: &GitRepo, selector: &ResolvedSelector, id: &str, dry_run: bool) -> (r: Result<LocalMutationResult>)
    requires
        !(selector.staircase is ImplicitFamily),
    ensures
        !(selector.staircase is Managed) ==> (r matches Err(StaircaseError::Other(m)) && m@ == unmanaged_message()),
        selector.staircase is Managed && is_archived(linear_metadata(selector.staircase)) ==> (r matches Err(
            StaircaseError::Other(m)) && m@ == archived_message()),
        r matches Ok(res) ==> res.kind@ == "discovery-clear"@,
{
    require_managed(selector)?;
    let mut record = current_record(repo, selector)?;
    let overrides = discovery_overrides(repo, selector)?;
    let remaining = match without_override(&overrides, id) {
        Some(v) => v,
        None => return Err(StaircaseError::NotFound(owned(id))),
    };
    let text = crate::json_text::render_json(&encode_overrides(&remaining));
    record.user_metadata.extensions.insert(owned("git-staircase.discovery-overrides"), text);
    publish_record_parts(repo, selector, record.metadata, record.user_metadata, "discovery-clear", dry_run)
}

} // verus!
