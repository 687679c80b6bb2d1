//! Resolved staircases: managed (recorded) or implicit (discovered), and
//! the branch renumbering of the sequential layout.

use vstd::prelude::*;
use crate::collections::{SortedMap, StringMap};
use crate::error::{Result, StaircaseError};
use crate::git::repo::GitRepo;
use crate::model::{StaircaseFamily, StaircaseMetadata, Step};
use crate::staircase::operation::mutation::{or_missing, push_ref_command, ref_command};
use crate::staircase::persistence::record::{spec_step_key, step_key, write_metadata};
use crate::staircase::utils::{sequential_branch, spec_sequential_layout};
use crate::text::{cat, cat3, decimal, seq_lt, opt_str_eq, opt_view, owned, starts_with, str_eq, usize_to_decimal, views};

verus! {

/// A staircase as a selector resolved it.
#[derive(Debug, Clone, PartialEq, Eq)]
pub enum ResolvedStaircase {
    Managed(StaircaseMetadata),
    Implicit(StaircaseMetadata),
    ImplicitFamily(StaircaseFamily),
}

/// A resolved staircase and the step a selector named, if any.
#[derive(Debug, Clone, PartialEq, Eq)]
pub struct ResolvedSelector {
    pub staircase: ResolvedStaircase,
    pub step_index: Option<usize>,
}

/// The linear staircase of a resolved staircase (arbitrary for a family).
pub open spec fn linear_metadata(s: ResolvedStaircase) -> StaircaseMetadata {
    match s {
        ResolvedStaircase::Managed(m) => m,
        ResolvedStaircase::Implicit(m) => m,
        ResolvedStaircase::ImplicitFamily(_) => arbitrary(),
    }
}

impl ResolvedStaircase {
    /// The linear staircase; a family has none.
    pub fn metadata(&self) -> (m: &StaircaseMetadata)
        requires
            !(*self is ImplicitFamily),
        ensures
            *self == ResolvedStaircase::Managed(*m) || *self == ResolvedStaircase::Implicit(*m),
    {
        match self {
            ResolvedStaircase::Managed(s) => s,
            ResolvedStaircase::Implicit(s) => s,
            ResolvedStaircase::ImplicitFamily(_) => vstd::pervasive::unreached(),
        }
    }

    /// Whether the staircase is recorded.
    pub fn is_managed(&self) -> (b: bool)
        ensures
            b == (*self is Managed),
    {
        match self {
            ResolvedStaircase::Managed(_) => true,
            _ => false,
        }
    }
}

impl ResolvedSelector {
    /// The linear staircase of the selector.
    pub fn metadata(&self) -> (m: &StaircaseMetadata)
        requires
            !(self.staircase is ImplicitFamily),
        ensures
            self.staircase == ResolvedStaircase::Managed(*m) || self.staircase == ResolvedStaircase::Implicit(*m),
    {
        self.staircase.metadata()
    }
}

/// The branch of step `index` of `total` in the sequential layout on `base`:
/// the last step is `base` itself, step `i` (from 0) is `base-(i+1)`.
pub open spec fn spec_sequential_branch_name(index: nat, total: nat, base: Seq<char>) -> Seq<char> {
    if index + 1 == total {
        base
    } else {
        sequential_branch(base, index + 1)
    }
}

/// The branch of a step in the sequential layout (see [`spec_sequential_branch_name`]).
pub fn sequential_branch_name(index: usize, total: usize, base: &str) -> (r: String)
    requires
        index < total,
    ensures
        r@ == spec_sequential_branch_name(index as nat, total as nat, base@),
{
    if index == total - 1 {
        owned(base)
    } else {
        let n = usize_to_decimal(index + 1);
        cat3(base, "-", n.as_str())
    }
}

/// `step` is on branch `b`.
pub open spec fn has_branch(step: Step, b: Seq<char>) -> bool {
    step.branch matches Some(x) && x@ == b
}

/// `m` is in the sequential layout with a base.
pub open spec fn is_sequential(m: StaircaseMetadata) -> bool {
    &&& m.primary_branch_layout matches Some(l) && l@ == "sequential-v1"@
    &&& m.branch_layout_base is Some
}

/// `m` is `old_m` with the steps renumbered in the sequential layout on its base.
pub open spec fn renumbered_ok(old_m: StaircaseMetadata, m: StaircaseMetadata) -> bool {
    &&& m.steps@.len() == old_m.steps@.len()
    &&& forall|i: int| 0 <= i < old_m.steps@.len() ==> #[trigger] has_branch(m.steps@[i],
        spec_sequential_branch_name(i as nat, old_m.steps@.len(), old_m.branch_layout_base->0@))
    &&& forall|i: int| 0 <= i < old_m.steps@.len() ==> (#[trigger] m.steps@[i]).id == old_m.steps@[i].id
        && m.steps@[i].name == old_m.steps@[i].name && m.steps@[i].cut == old_m.steps@[i].cut
}

/// `a` and `b` agree in everything but their steps.
pub open spec fn same_but_steps(a: StaircaseMetadata, b: StaircaseMetadata) -> bool {
    &&& a.landing_policy == b.landing_policy && a.id == b.id && a.name == b.name && a.target == b.target
    &&& a.verification_policy == b.verification_policy && a.primary_branch_layout == b.primary_branch_layout
    &&& a.branch_layout_base == b.branch_layout_base && a.user_metadata == b.user_metadata && a.lifecycle == b.lifecycle
}

/// The steps with the branches of the sequential layout on `base`.
pub fn renumbered_steps(steps: &Vec<Step>, base: &str) -> (r: Vec<Step>)
    ensures
        r@.len() == steps@.len(),
        forall|i: int| 0 <= i < steps@.len() ==> #[trigger] r@[i].id == steps@[i].id && r@[i].name == steps@[i].name
            && r@[i].cut == steps@[i].cut && has_branch(r@[i], spec_sequential_branch_name(i as nat, steps@.len(), base@)),
{
    let n = steps.len();
    let mut r: Vec<Step> = Vec::new();
    let mut i: usize = 0;
    while i < n
        invariant
            n == steps@.len(),
            i <= n,
            r@.len() == i,
            forall|k: int| 0 <= k < i ==> #[trigger] r@[k].id == steps@[k].id && r@[k].name == steps@[k].name
                && r@[k].cut == steps@[k].cut && has_branch(r@[k], spec_sequential_branch_name(k as nat, n as nat, base@)),
        decreases n - i,
    {
        let mut s = steps[i].copy();
        s.branch = Some(sequential_branch_name(i, n, base));
        r.push(s);
        i += 1;
    }
    r
}

/// Renumbering yields the sequential layout: once a non-empty staircase has
/// the branches that renumbering on `base` gives, the layout check finds
/// that base.
pub proof fn law_renumbered_layout_is_sequential(steps: Seq<Step>, base: Seq<char>)
    requires
        steps.len() > 0,
        forall|i: int| 0 <= i < steps.len() ==> #[trigger] has_branch(steps[i], spec_sequential_branch_name(i as nat, steps.len(), base)),
    ensures
        spec_sequential_layout(steps) == Some(base),
{
    let n = steps.len() as int;
    assert(has_branch(steps[n - 1], spec_sequential_branch_name((n - 1) as nat, steps.len(), base)));
    assert(spec_sequential_branch_name((n - 1) as nat, steps.len(), base) == base);
    assert forall|i: int| 0 <= i < steps.len() - 1 implies (#[trigger] steps[i].branch matches Some(b)
        && b@ == sequential_branch(base, (i + 1) as nat)) by {
        assert(has_branch(steps[i], spec_sequential_branch_name(i as nat, steps.len(), base)));
    }
}

/// What renumbering does to one branch ref: `actual` is what it holds, `old`
/// the value the old layout owned it with (the step's new cut), `planned` the
/// value of the new layout. An owned ref must hold its old value (or already
/// the planned one) and an unowned ref must not exist; a ref already at its
/// planned value needs nothing; a ref checked out in a worktree cannot move;
/// otherwise it moves to its planned value.
pub open spec fn spec_renumber_ref(
    reference: Seq<char>,
    actual: Option<Seq<char>>,
    old: Option<Seq<char>>,
    planned: Option<Seq<char>>,
    checked_out: Option<Seq<char>>,
) -> core::result::Result<Seq<Seq<char>>, StaircaseErrorView> {
    match old {
        Some(expected) => if actual != Some(expected) && !(planned is Some && actual == planned) {
            Err(StaircaseErrorView::Collision(reference, expected, match actual { Some(a) => a, None => "<missing>"@ }))
        } else {
            spec_renumber_move(reference, actual, planned, checked_out)
        },
        None => if actual is Some {
            Err(StaircaseErrorView::Collision(reference, "<missing>"@, actual->0))
        } else {
            spec_renumber_move(reference, actual, planned, checked_out)
        },
    }
}

/// The move of a renumbered ref that passed its checks.
pub open spec fn spec_renumber_move(
    reference: Seq<char>,
    actual: Option<Seq<char>>,
    planned: Option<Seq<char>>,
    checked_out: Option<Seq<char>>,
) -> core::result::Result<Seq<Seq<char>>, StaircaseErrorView> {
    if actual == planned {
        Ok(seq![])
    } else {
        match checked_out {
            Some(path) => Err(StaircaseErrorView::CheckedOut(reference, path)),
            None => Ok(ref_command(reference, actual, planned)),
        }
    }
}

/// The errors of renumbering, by their contents.
pub enum StaircaseErrorView {
    Collision(Seq<char>, Seq<char>, Seq<char>),
    CheckedOut(Seq<char>, Seq<char>),
}

/// The error view of an error of renumbering.
pub open spec fn renumber_error_view(e: StaircaseError) -> Option<StaircaseErrorView> {
    match e {
        StaircaseError::RefCollision { reference, expected, actual } => Some(StaircaseErrorView::Collision(reference@, expected@, actual@)),
        StaircaseError::UnsupportedTopology { operation, reason } => if operation@ == "branch-layout"@ {
            Some(StaircaseErrorView::CheckedOut(seq![], reason@))
        } else {
            None
        },
        _ => None,
    }
}

/// Decides one branch ref of a renumbering (see [`spec_renumber_ref`]) and
/// appends its command.
pub fn renumber_ref(
    commands: &mut Vec<String>,
    reference: &str,
    actual: &Option<String>,
    owned_value: Option<&String>,
    planned: Option<&String>,
    checked_out: Option<&String>,
) -> (r: Result<()>)
    ensures
        match spec_renumber_ref(reference@, opt_view(*actual), match owned_value { Some(s) => Some(s@), None => None },
            match planned { Some(s) => Some(s@), None => None }, match checked_out { Some(s) => Some(s@), None => None }) {
            Ok(cmds) => r is Ok && views(final(commands)@) == views(old(commands)@) + cmds,
            Err(StaircaseErrorView::Collision(rf, ex, ac)) => r matches Err(StaircaseError::RefCollision { reference: a, expected: b, actual: c })
                && a@ == rf && b@ == ex && c@ == ac,
            Err(StaircaseErrorView::CheckedOut(rf, path)) => r matches Err(StaircaseError::UnsupportedTopology { operation, reason })
                && operation@ == "branch-layout"@ && reason@ == "branch "@ + rf + " is checked out in worktree "@ + path,
        },
{
    let planned_opt: Option<String> = match planned {
        Some(p) => Some(p.clone()),
        None => None,
    };
    match owned_value {
        Some(expected) => {
            let at_expected = match actual {
                Some(a) => str_eq(a.as_str(), expected.as_str()),
                None => false,
            };
            let already_planned = planned.is_some() && opt_str_eq(actual, &planned_opt);
            if !at_expected && !already_planned {
                return Err(StaircaseError::RefCollision {
                    reference: owned(reference),
                    expected: expected.clone(),
                    actual: or_missing(actual.clone()),
                });
            }
        },
        None => {
            match actual {
                Some(a) => {
                    return Err(StaircaseError::RefCollision {
                        reference: owned(reference),
                        expected: owned("<missing>"),
                        actual: a.clone(),
                    });
                },
                None => {},
            }
        },
    }
    if opt_str_eq(actual, &planned_opt) {
        return Ok(());
    }
    match checked_out {
        Some(path) => {
            let mut reason = cat3("branch ", reference, " is checked out in worktree ");
            reason.append(path.as_str());
            return Err(StaircaseError::UnsupportedTopology { operation: owned("branch-layout"), reason });
        },
        None => {},
    }
    let from = match actual {
        Some(a) => Some(a.as_str()),
        None => None,
    };
    let to = match planned {
        Some(p) => Some(p.as_str()),
        None => None,
    };
    push_ref_command(commands, reference, from, to);
    Ok(())
}

/// The cut of each step key (the last step with a key wins).
pub open spec fn cuts_by_key(steps: Seq<Step>) -> Map<Seq<char>, Seq<char>>
    decreases steps.len(),
{
    if steps.len() == 0 {
        Map::empty()
    } else {
        cuts_by_key(steps.drop_last()).insert(spec_step_key(steps.last()), steps.last().cut@)
    }
}

/// The branch refs that the old layout owns, each with the value it should
/// hold: the new cut of its step when the step is still there, else its
/// old cut.
pub open spec fn old_owned_refs(steps: Seq<Step>, new_cuts: Map<Seq<char>, Seq<char>>) -> Map<Seq<char>, Seq<char>>
    decreases steps.len(),
{
    if steps.len() == 0 {
        Map::empty()
    } else {
        let prev = old_owned_refs(steps.drop_last(), new_cuts);
        let s = steps.last();
        match s.branch {
            Some(b) => prev.insert("refs/heads/"@ + b@, if new_cuts.contains_key(spec_step_key(s)) {
                new_cuts[spec_step_key(s)]
            } else {
                s.cut@
            }),
            None => prev,
        }
    }
}

/// The branch refs that the new layout owns, each at its step's cut.
pub open spec fn new_owned_refs(steps: Seq<Step>) -> Map<Seq<char>, Seq<char>>
    decreases steps.len(),
{
    if steps.len() == 0 {
        Map::empty()
    } else {
        let prev = new_owned_refs(steps.drop_last());
        match steps.last().branch {
            Some(b) => prev.insert("refs/heads/"@ + b@, steps.last().cut@),
            None => prev,
        }
    }
}

/// The value of `k` in `m`, if any.
pub open spec fn value_at(m: Map<Seq<char>, Seq<char>>, k: Seq<char>) -> Option<Seq<char>> {
    if m.contains_key(k) { Some(m[k]) } else { None }
}

/// The commands of renumbering `refs` in order (see [`spec_renumber_ref`]),
/// `actual[i]` being what `refs[i]` holds and `checked_out` the worktree of
/// each checked-out branch; the first refusal, if any.
pub open spec fn renumber_all(
    refs: Seq<Seq<char>>,
    actual: Seq<Option<Seq<char>>>,
    old: Map<Seq<char>, Seq<char>>,
    new: Map<Seq<char>, Seq<char>>,
    checked_out: Map<Seq<char>, Seq<char>>,
) -> core::result::Result<Seq<Seq<char>>, StaircaseErrorView>
    decreases refs.len(),
{
    if refs.len() == 0 {
        Ok(seq![])
    } else {
        match renumber_all(refs.drop_last(), actual, old, new, checked_out) {
            Err(e) => Err(e),
            Ok(cs) => {
                let r = refs.last();
                match spec_renumber_ref(r, actual[refs.len() - 1], value_at(old, r), value_at(new, r), value_at(checked_out, r)) {
                    Ok(c) => Ok(cs + c),
                    Err(e) => Err(e),
                }
            },
        }
    }
}

/// The texts of a map of strings.
pub open spec fn map_texts(m: Map<Seq<char>, String>) -> Map<Seq<char>, Seq<char>> {
    m.map_values(|v: String| v@)
}

/// `commands` renumber the branch refs owned by the old layout
/// (`old_refs`) or the new one (`new_refs`), each once in increasing
/// order (`refs`), given what each holds (`actual`) and the checked-out
/// branches (see [`renumber_all`]).
pub open spec fn renumbering_planned(
    old_refs: Map<Seq<char>, Seq<char>>,
    new_refs: Map<Seq<char>, Seq<char>>,
    refs: Seq<Seq<char>>,
    actual: Seq<Option<Seq<char>>>,
    checked_out: Map<Seq<char>, Seq<char>>,
    commands: Seq<Seq<char>>,
) -> bool {
    &&& renumber_all(refs, actual, old_refs, new_refs, checked_out) == Ok::<Seq<Seq<char>>, StaircaseErrorView>(commands)
    &&& actual.len() == refs.len()
    &&& forall|k: Seq<char>| refs.contains(k) <==> (old_refs.contains_key(k) || new_refs.contains_key(k))
    &&& forall|i: int, j: int| 0 <= i < j < refs.len() ==> seq_lt(refs[i], refs[j])
}

/// Renumbering the first refs reads only what those refs hold.
proof fn lemma_renumber_all_frame(
    refs: Seq<Seq<char>>,
    a1: Seq<Option<Seq<char>>>,
    a2: Seq<Option<Seq<char>>>,
    old: Map<Seq<char>, Seq<char>>,
    new: Map<Seq<char>, Seq<char>>,
    checked_out: Map<Seq<char>, Seq<char>>,
)
    requires
        a1.len() >= refs.len(),
        a2.len() >= refs.len(),
        forall|i: int| 0 <= i < refs.len() ==> a1[i] == a2[i],
    ensures
        renumber_all(refs, a1, old, new, checked_out) == renumber_all(refs, a2, old, new, checked_out),
    decreases refs.len(),
{
    if refs.len() > 0 {
        lemma_renumber_all_frame(refs.drop_last(), a1, a2, old, new, checked_out);
    }
}

/// Plans the renumbering of the branches of a staircase in the sequential
/// layout (`sequential-v1` with a base; otherwise nothing is planned): every
/// step of `new_metadata` gets its sequential branch, and for every branch
/// ref owned by the old or the new layout, in ref order, the command that
/// moves it (see [`spec_renumber_ref`]).
pub fn plan_renumbering(repo: &GitRepo, old_metadata: &StaircaseMetadata, new_metadata: &mut StaircaseMetadata) -> (r: Result<Vec<String>>)
    ensures
        !is_sequential(*old(new_metadata)) ==> (r matches Ok(v) && v@.len() == 0) && *final(new_metadata) == *old(new_metadata),
        is_sequential(*old(new_metadata)) ==> renumbered_ok(*old(new_metadata), *final(new_metadata)),
        final(new_metadata).id == old(new_metadata).id,
        same_but_steps(*final(new_metadata), *old(new_metadata)),
        is_sequential(*old(new_metadata)) ==> (r matches Ok(v) ==> exists|refs: Seq<Seq<char>>, actual: Seq<Option<Seq<char>>>,
            checked_out: Map<Seq<char>, Seq<char>>| #[trigger] renumbering_planned(
                old_owned_refs(old_metadata.steps@, cuts_by_key(old(new_metadata).steps@)),
                new_owned_refs(final(new_metadata).steps@),
                refs,
                actual,
                checked_out,
                views(v@),
            )),
{
    let sequential = match &new_metadata.primary_branch_layout {
        Some(l) => str_eq(l.as_str(), "sequential-v1"),
        None => false,
    };
    if !sequential {
        return Ok(Vec::new());
    }
    let base = match &new_metadata.branch_layout_base {
        Some(b) => b.clone(),
        None => return Ok(Vec::new()),
    };
    let new_cuts: StringMap<String> = {
        let mut m: StringMap<String> = StringMap::new();
        let mut i: usize = 0;
        proof {
            assert(map_texts(m.view()) =~= cuts_by_key(new_metadata.steps@.take(0)));
        }
        while i < new_metadata.steps.len()
            invariant
                i <= new_metadata.steps@.len(),
                map_texts(m.view()) == cuts_by_key(new_metadata.steps@.take(i as int)),
            decreases new_metadata.steps@.len() - i,
        {
            let key = step_key(&new_metadata.steps[i]);
            let ghost before = m.view();
            m.insert(owned(key), new_metadata.steps[i].cut.clone());
            proof {
                let t = new_metadata.steps@.take(i + 1);
                assert(t.drop_last() =~= new_metadata.steps@.take(i as int));
                assert(t.last() == new_metadata.steps@[i as int]);
                assert(map_texts(m.view()) =~= map_texts(before).insert(key@, new_metadata.steps@[i as int].cut@));
            }
            i += 1;
        }
        proof {
            assert(new_metadata.steps@.take(new_metadata.steps@.len() as int) =~= new_metadata.steps@);
        }
        m
    };
    let ghost nc = map_texts(new_cuts.view());
    let mut old_owned: SortedMap<String> = SortedMap::new();
    let mut j: usize = 0;
    proof {
        assert(map_texts(old_owned.view()) =~= old_owned_refs(old_metadata.steps@.take(0), nc));
    }
    while j < old_metadata.steps.len()
        invariant
            j <= old_metadata.steps@.len(),
            nc == map_texts(new_cuts.view()),
            map_texts(old_owned.view()) == old_owned_refs(old_metadata.steps@.take(j as int), nc),
        decreases old_metadata.steps@.len() - j,
    {
        let step = &old_metadata.steps[j];
        let ghost before = old_owned.view();
        proof {
            let t = old_metadata.steps@.take(j + 1);
            assert(t.drop_last() =~= old_metadata.steps@.take(j as int));
            assert(t.last() == old_metadata.steps@[j as int]);
        }
        match &step.branch {
            Some(branch) => {
                let cut = match new_cuts.get(step_key(step)) {
                    Some(c) => c.clone(),
                    None => step.cut.clone(),
                };
                let reference = cat("refs/heads/", branch.as_str());
                old_owned.insert(reference, cut);
                proof {
                    assert(map_texts(old_owned.view()) =~= map_texts(before).insert(reference@, cut@));
                }
            },
            None => {},
        }
        j += 1;
    }
    proof {
        assert(old_metadata.steps@.take(old_metadata.steps@.len() as int) =~= old_metadata.steps@);
    }
    proof {
        assert(new_metadata.steps@ == old(new_metadata).steps@);
        assert(new_metadata.branch_layout_base == old(new_metadata).branch_layout_base);
    }
    let renumbered = renumbered_steps(&new_metadata.steps, base.as_str());
    let ghost rn = renumbered@;
    new_metadata.steps = renumbered;
    let ghost snap = *new_metadata;
    proof {
        assert(is_sequential(*old(new_metadata)));
        assert forall|i: int| 0 <= i < old(new_metadata).steps@.len() implies #[trigger] has_branch(snap.steps@[i],
            spec_sequential_branch_name(i as nat, old(new_metadata).steps@.len(), old(new_metadata).branch_layout_base->0@)) by {
            assert(rn[i].id == old(new_metadata).steps@[i].id);
        }
        assert forall|i: int| 0 <= i < old(new_metadata).steps@.len() implies (#[trigger] snap.steps@[i]).id
            == old(new_metadata).steps@[i].id && snap.steps@[i].name == old(new_metadata).steps@[i].name
            && snap.steps@[i].cut == old(new_metadata).steps@[i].cut by {
            assert(rn[i].id == old(new_metadata).steps@[i].id);
        }
        assert(same_but_steps(snap, *old(new_metadata)));
        assert(renumbered_ok(*old(new_metadata), snap));
    }
    let mut new_owned: SortedMap<String> = SortedMap::new();
    let mut refs: SortedMap<bool> = SortedMap::new();
    let mut k: usize = 0;
    proof {
        assert(map_texts(new_owned.view()) =~= new_owned_refs(snap.steps@.take(0)));
        assert(refs.view().dom() =~= new_owned.view().dom());
    }
    while k < new_metadata.steps.len()
        invariant
            k <= new_metadata.steps@.len(),
            map_texts(new_owned.view()) == new_owned_refs(snap.steps@.take(k as int)),
            refs.view().dom() == new_owned.view().dom(),
            *new_metadata == snap,
            new_metadata.id == old(new_metadata).id,
            is_sequential(*old(new_metadata)),
            renumbered_ok(*old(new_metadata), snap),
            same_but_steps(snap, *old(new_metadata)),
        decreases new_metadata.steps@.len() - k,
    {
        let ghost before = new_owned.view();
        proof {
            let t = snap.steps@.take(k + 1);
            assert(t.drop_last() =~= snap.steps@.take(k as int));
            assert(t.last() == snap.steps@[k as int]);
        }
        match &new_metadata.steps[k].branch {
            Some(branch) => {
                let reference = cat("refs/heads/", branch.as_str());
                new_owned.insert(reference.clone(), new_metadata.steps[k].cut.clone());
                refs.insert(reference, true);
                proof {
                    assert(map_texts(new_owned.view()) =~= map_texts(before).insert(reference@, snap.steps@[k as int].cut@));
                    assert(refs.view().dom() =~= new_owned.view().dom());
                }
            },
            None => {},
        }
        k += 1;
    }
    proof {
        assert(snap.steps@.take(snap.steps@.len() as int) =~= snap.steps@);
    }
    let ghost new_dom = new_owned.view().dom();
    let old_entries = old_owned.entries();
    let mut m: usize = 0;
    while m < old_entries.len()
        invariant
            m <= old_entries@.len(),
            forall|x: Seq<char>| #[trigger] refs.view().contains_key(x) <==> (new_dom.contains(x)
                || exists|y: int| 0 <= y < m && old_entries@[y].0@ == x),
            *new_metadata == snap,
            new_metadata.id == old(new_metadata).id,
            is_sequential(*old(new_metadata)),
            renumbered_ok(*old(new_metadata), snap),
            same_but_steps(snap, *old(new_metadata)),
        decreases old_entries@.len() - m,
    {
        let ghost before = refs.view();
        refs.insert(old_entries[m].0.clone(), true);
        proof {
            assert forall|x: Seq<char>| #[trigger] refs.view().contains_key(x) <==> (new_dom.contains(x)
                || exists|y: int| 0 <= y < m + 1 && old_entries@[y].0@ == x) by {
                if refs.view().contains_key(x) && x != old_entries@[m as int].0@ {
                    assert(before.contains_key(x));
                }
                if exists|y: int| 0 <= y < m + 1 && old_entries@[y].0@ == x {
                    let y = choose|y: int| 0 <= y < m + 1 && old_entries@[y].0@ == x;
                    if y < m {
                        assert(before.contains_key(x));
                    }
                }
            }
        }
        m += 1;
    }
    proof {
        assert forall|x: Seq<char>| #[trigger] refs.view().contains_key(x) <==> (new_dom.contains(x)
            || old_owned.view().contains_key(x)) by {
            if old_owned.view().contains_key(x) {
                let y = choose|y: int| 0 <= y < old_entries@.len() && old_entries@[y].0@ == x;
            }
            if exists|y: int| 0 <= y < old_entries@.len() && old_entries@[y].0@ == x {
                let y = choose|y: int| 0 <= y < old_entries@.len() && old_entries@[y].0@ == x;
                assert(old_owned.view().contains_key(old_entries@[y].0@));
            }
        }
    }
    let worktrees = repo.worktrees()?;
    let mut checked_out: StringMap<String> = StringMap::new();
    let mut w: usize = 0;
    while w < worktrees.len()
        invariant
            w <= worktrees@.len(),
            *new_metadata == snap,
            new_metadata.id == old(new_metadata).id,
            is_sequential(*old(new_metadata)),
            renumbered_ok(*old(new_metadata), snap),
            same_but_steps(snap, *old(new_metadata)),
        decreases worktrees@.len() - w,
    {
        match &worktrees[w].branch {
            Some(b) => checked_out.insert(b.clone(), worktrees[w].path.clone()),
            None => {},
        }
        w += 1;
    }
    let ghost co = map_texts(checked_out.view());
    let ghost oldm = map_texts(old_owned.view());
    let ghost newm = map_texts(new_owned.view());
    let mut commands: Vec<String> = Vec::new();
    let all = refs.entries();
    let ghost keys = all@.map_values(|e: (String, bool)| e.0@);
    let ghost mut actuals: Seq<Option<Seq<char>>> = seq![];
    proof {
        assert(keys.take(0) =~= Seq::<Seq<char>>::empty());
        assert(views(commands@) =~= Seq::<Seq<char>>::empty());
    }
    let mut q: usize = 0;
    while q < all.len()
        invariant
            q <= all@.len(),
            keys == all@.map_values(|e: (String, bool)| e.0@),
            co == map_texts(checked_out.view()),
            oldm == map_texts(old_owned.view()),
            newm == map_texts(new_owned.view()),
            actuals.len() == q,
            renumber_all(keys.take(q as int), actuals, oldm, newm, co) == Ok::<Seq<Seq<char>>, StaircaseErrorView>(views(commands@)),
            *new_metadata == snap,
            new_metadata.id == old(new_metadata).id,
            is_sequential(*old(new_metadata)),
            renumbered_ok(*old(new_metadata), snap),
            same_but_steps(snap, *old(new_metadata)),
        decreases all@.len() - q,
    {
        let reference = all[q].0.as_str();
        let actual = repo.resolve_ref_opt(reference)?;
        let ghost prev_actuals = actuals;
        proof {
            actuals = actuals.push(opt_view(actual));
            let t = keys.take(q + 1);
            assert(t.drop_last() =~= keys.take(q as int));
            assert(t.last() == reference@);
            lemma_renumber_all_frame(keys.take(q as int), prev_actuals, actuals, oldm, newm, co);
        }
        let ow = old_owned.get(reference);
        let nw = new_owned.get(reference);
        let cw = checked_out.get(reference);
        proof {
            assert(match ow { Some(x) => Some(x@), None => None } == value_at(oldm, reference@));
            assert(match nw { Some(x) => Some(x@), None => None } == value_at(newm, reference@));
            assert(match cw { Some(x) => Some(x@), None => None } == value_at(co, reference@));
        }
        renumber_ref(&mut commands, reference, &actual, ow, nw, cw)?;
        q += 1;
    }
    proof {
        assert(keys.take(keys.len() as int) =~= keys);
        assert forall|x: Seq<char>| keys.contains(x) <==> (oldm.contains_key(x) || newm.contains_key(x)) by {
            if keys.contains(x) {
                let y = choose|y: int| 0 <= y < keys.len() && keys[y] == x;
                assert(refs.view().contains_key(all@[y].0@));
            }
            if oldm.contains_key(x) || newm.contains_key(x) {
                assert(refs.view().contains_key(x));
                let y = choose|y: int| 0 <= y < all@.len() && all@[y].0@ == x;
                assert(keys[y] == x);
            }
        }
        assert forall|i: int, j: int| 0 <= i < j < keys.len() implies seq_lt(keys[i], keys[j]) by {
            assert(keys[i] == all@[i].0@ && keys[j] == all@[j].0@);
        }
        assert(renumber_all(keys, actuals, oldm, newm, co) == Ok::<Seq<Seq<char>>, StaircaseErrorView>(views(commands@)));
        assert(nc == cuts_by_key(old(new_metadata).steps@));
        assert(oldm == old_owned_refs(old_metadata.steps@, cuts_by_key(old(new_metadata).steps@)));
        assert(newm == new_owned_refs(snap.steps@));
        assert(renumbering_planned(oldm, newm, keys, actuals, co, views(commands@)));
    }
    let ghost cv = views(commands@);
    let out: Result<Vec<String>> = Ok(commands);
    proof {
        assert(out matches Ok(v) && views(v@) == cv);
        assert(new_metadata.steps@ == snap.steps@);
    }
    out
}

/// Checks that a renumbering can be planned (see [`plan_renumbering`]),
/// giving `new_metadata` its sequential branches.
pub fn validate_renumbering(repo: &GitRepo, old_metadata: &StaircaseMetadata, new_metadata: &mut StaircaseMetadata) -> (r: Result<()>)
    ensures
        !is_sequential(*old(new_metadata)) ==> r is Ok && *final(new_metadata) == *old(new_metadata),
        is_sequential(*old(new_metadata)) ==> renumbered_ok(*old(new_metadata), *final(new_metadata)),
        final(new_metadata).steps@.len() == old(new_metadata).steps@.len(),
        final(new_metadata).id == old(new_metadata).id,
        same_but_steps(*final(new_metadata), *old(new_metadata)),
{
    plan_renumbering(repo, old_metadata, new_metadata)?;
    Ok(())
}


/// Whether each step's cut resolves and lies strictly above its
/// predecessor's (the first step's above the integration target); false as
/// soon as the target or a cut does not resolve.
pub fn is_clean(repo: &GitRepo, staircase: &StaircaseMetadata) -> (r: Result<bool>)
    ensures
        r matches Err(e) ==> (e is Io || e is GitCommandFailed),
{
    let target_oid = match repo.resolve_commit(staircase.target.as_str()) {
        Ok(oid) => oid,
        Err(_) => return Ok(false),
    };
    let mut oids: Vec<&str> = vec![target_oid.as_str()];
    let mut i: usize = 0;
    while i < staircase.steps.len()
        invariant
            i <= staircase.steps@.len(),
        decreases staircase.steps@.len() - i,
    {
        oids.push(staircase.steps[i].cut.as_str());
        i += 1;
    }
    let _ = repo.preload_ancestry(oids.as_slice());
    let mut last_cut = target_oid.clone();
    let mut k: usize = 0;
    while k < staircase.steps.len()
        invariant
            k <= staircase.steps@.len(),
        decreases staircase.steps@.len() - k,
    {
        let current_cut = match repo.resolve_commit(staircase.steps[k].cut.as_str()) {
            Ok(oid) => oid,
            Err(_) => return Ok(false),
        };
        if str_eq(current_cut.as_str(), last_cut.as_str()) {
            return Ok(false);
        }
        if !repo.is_ancestor(last_cut.as_str(), current_cut.as_str())? {
            return Ok(false);
        }
        last_cut = current_cut;
        k += 1;
    }
    Ok(true)
}

/// The message for a step whose cut is its predecessor's.
pub open spec fn empty_step_message(name: Seq<char>, cut: Seq<char>) -> Seq<char> {
    "Step \""@ + name + "\" cut \""@ + cut + "\" is identical to its predecessor; every step must be non-empty"@
}

/// The message for a step whose cut does not descend from its predecessor's.
pub open spec fn unordered_step_message(name: Seq<char>, cut: Seq<char>) -> Seq<char> {
    "Step \""@ + name + "\" cut \""@ + cut + "\" is not a descendant of its predecessor"@
}

/// Checks that each step's cut lies strictly above its predecessor's, the
/// first step's above `target_oid`; the error names the first step that
/// does not.
pub fn check_step_order(repo: &GitRepo, target_oid: String, steps: &Vec<Step>) -> (r: Result<()>)
    ensures
        r matches Err(StaircaseError::InvalidStructure(msg)) ==> exists|i: int|
            0 <= i < steps@.len() && (msg@ == empty_step_message(
                #[trigger] steps@[i].name@, steps@[i].cut@)
                || msg@ == unordered_step_message(steps@[i].name@, steps@[i].cut@)),
        r matches Err(e) ==> (e is Io || e is GitCommandFailed || e is InvalidStructure),
        steps@.len() == 0 ==> r is Ok,
{
    let mut oids: Vec<&str> = vec![target_oid.as_str()];
    let mut k: usize = 0;
    while k < steps.len()
        invariant
            k <= steps@.len(),
        decreases steps@.len() - k,
    {
        oids.push(steps[k].cut.as_str());
        k += 1;
    }
    let _ = repo.preload_ancestry(oids.as_slice());
    let mut last_cut = target_oid.clone();
    let mut q: usize = 0;
    while q < steps.len()
        invariant
            q <= steps@.len(),
        decreases steps@.len() - q,
    {
        let step = &steps[q];
        let current_cut = repo.resolve_commit(step.cut.as_str())?;
        if str_eq(current_cut.as_str(), last_cut.as_str()) {
            let mut m = cat3("Step \"", step.name.as_str(), "\" cut \"");
            m.append(step.cut.as_str());
            m.append("\" is identical to its predecessor; every step must be non-empty");
            proof {
                assert(m@ == empty_step_message(steps@[q as int].name@, steps@[q as int].cut@));
            }
            return Err(StaircaseError::InvalidStructure(m));
        }
        if !repo.is_ancestor(last_cut.as_str(), current_cut.as_str())? {
            let mut m = cat3("Step \"", step.name.as_str(), "\" cut \"");
            m.append(step.cut.as_str());
            m.append("\" is not a descendant of its predecessor");
            proof {
                assert(m@ == unordered_step_message(steps@[q as int].name@, steps@[q as int].cut@));
            }
            return Err(StaircaseError::InvalidStructure(m));
        }
        last_cut = current_cut;
        q += 1;
    }
    Ok(())
}

/// Records a discovered staircase: its target becomes a full refname (or
/// the commit it resolves to), an implicit id and missing step ids become
/// fresh UUIDs, and each cut must lie strictly above its predecessor's.
/// The steps keep their names, cuts and branches, in order.
pub fn adopt(repo: &GitRepo, staircase: &StaircaseMetadata) -> (r: Result<StaircaseMetadata>)
    ensures
        r matches Ok(m) ==> {
            &&& m.name@ == staircase.name@
            &&& m.steps@.len() == staircase.steps@.len()
            &&& (forall|i: int| 0 <= i < m.steps@.len() ==> {
                &&& (#[trigger] m.steps@[i]).name@ == staircase.steps@[i].name@
                &&& m.steps@[i].cut@ == staircase.steps@[i].cut@
                &&& opt_view(m.steps@[i].branch) == opt_view(staircase.steps@[i].branch)
                &&& (staircase.steps@[i].id@.len() > 0 ==> m.steps@[i].id@ == staircase.steps@[i].id@)
                &&& m.steps@[i].id@.len() > 0
            })
            &&& ("implicit@"@.is_prefix_of(staircase.id@) ==> m.id@.len() == 36)
            &&& (!"implicit@"@.is_prefix_of(staircase.id@) ==> m.id@ == staircase.id@)
        },
{
    let target = match repo.resolve_symbolic_full_name(staircase.target.as_str()) {
        Ok(t) => t,
        Err(_) => repo.resolve_commit(staircase.target.as_str())?,
    };
    let target_oid = repo.resolve_commit(staircase.target.as_str())?;
    let mut adopted = staircase.clone();
    adopted.target = target;
    adopted.name = staircase.name.clone();
    adopted.id = if starts_with(staircase.id.as_str(), "implicit@") {
        crate::fresh::fresh_uuid()
    } else {
        staircase.id.clone()
    };
    let mut steps: Vec<Step> = Vec::new();
    let mut i: usize = 0;
    while i < staircase.steps.len()
        invariant
            i <= staircase.steps@.len(),
            steps@.len() == i,
            forall|j: int| 0 <= j < i ==> {
                &&& (#[trigger] steps@[j]).name@ == staircase.steps@[j].name@
                &&& steps@[j].cut@ == staircase.steps@[j].cut@
                &&& opt_view(steps@[j].branch) == opt_view(staircase.steps@[j].branch)
                &&& (staircase.steps@[j].id@.len() > 0 ==> steps@[j].id@ == staircase.steps@[j].id@)
                &&& steps@[j].id@.len() > 0
            },
        decreases staircase.steps@.len() - i,
    {
        let mut step = staircase.steps[i].copy();
        if step.id.as_str().unicode_len() == 0 {
            step.id = crate::fresh::fresh_uuid();
        }
        steps.push(step);
        i += 1;
    }
    adopted.steps = steps;
    check_step_order(repo, target_oid, &adopted.steps)?;
    write_metadata(repo, &adopted)?;
    Ok(adopted)
}


/// A copy of `steps`, step for step.
fn copy_steps(steps: &Vec<Step>) -> (r: Vec<Step>)
    ensures
        r@ == steps@,
{
    let mut out: Vec<Step> = Vec::new();
    let mut i: usize = 0;
    while i < steps.len()
        invariant
            i <= steps@.len(),
            out@ == steps@.take(i as int),
        decreases steps@.len() - i,
    {
        out.push(steps[i].copy());
        proof {
            assert(steps@.take(i + 1) =~= steps@.take(i as int).push(steps@[i as int]));
        }
        i += 1;
    }
    proof {
        assert(steps@.take(steps@.len() as int) =~= steps@);
    }
    out
}

/// Publishes `metadata` as the new structure of the managed staircase
/// `managed`, and returns it as managed.
fn publish_managed(repo: &GitRepo, managed: &StaircaseMetadata, metadata: StaircaseMetadata) -> (r: Result<ResolvedStaircase>)
    ensures
        r matches Ok(rs) ==> rs == ResolvedStaircase::Managed(metadata),
{
    let selector = ResolvedSelector { staircase: ResolvedStaircase::Managed(managed.clone()), step_index: None };
    crate::staircase::local::publish_metadata(repo, &selector, metadata.clone(), "structure", false)?;
    Ok(ResolvedStaircase::Managed(metadata))
}

/// `a` has the lineage, name, target and policies of `b`.
pub open spec fn same_frame(a: StaircaseMetadata, b: StaircaseMetadata) -> bool {
    &&& a.id == b.id && a.name == b.name && a.target == b.target && a.landing_policy == b.landing_policy
    &&& a.verification_policy == b.verification_policy
}

/// `got` are the steps `expected`, their branches renumbered when
/// `renumbered` (ids, names and cuts kept), else the same steps.
pub open spec fn steps_result(got: Seq<Step>, expected: Seq<Step>, renumbered: bool) -> bool {
    &&& got.len() == expected.len()
    &&& forall|i: int| 0 <= i < got.len() ==> (#[trigger] got[i]).id == expected[i].id && got[i].name == expected[i].name
        && got[i].cut == expected[i].cut
    &&& !renumbered ==> got == expected
}

/// `managed` with the cut of step `index` moved to `oid`.
pub open spec fn moved_cut(steps: Seq<Step>, index: int, oid: String) -> Seq<Step> {
    steps.update(index, Step { cut: oid, ..steps[index] })
}

/// `rs` is what `edit` makes of the managed staircase `managed`: a managed
/// staircase with the same lineage; an inserted step (the layout dropped
/// with `no_ref`), a removed step, a moved cut, or the given structure
/// under the lineage of `managed`; the sequential layout (if any) renumbers
/// the branches, except for a moved cut.
pub open spec fn edit_result(managed: StaircaseMetadata, edit: StepEdit, rs: ResolvedStaircase) -> bool {
    rs matches ResolvedStaircase::Managed(res) && match edit {
        StepEdit::Insert { index, step, no_ref } => {
            &&& same_frame(res, managed)
            &&& no_ref ==> res.primary_branch_layout is None && res.branch_layout_base is None
            &&& !no_ref ==> res.primary_branch_layout == managed.primary_branch_layout
                && res.branch_layout_base == managed.branch_layout_base
            &&& steps_result(res.steps@, managed.steps@.insert(index as int, step), !no_ref && is_sequential(managed))
        },
        StepEdit::Remove { index } => {
            &&& same_frame(res, managed)
            &&& res.primary_branch_layout == managed.primary_branch_layout
            &&& res.branch_layout_base == managed.branch_layout_base
            &&& steps_result(res.steps@, managed.steps@.remove(index as int), is_sequential(managed))
        },
        StepEdit::MoveCut { index, oid } => {
            &&& same_frame(res, managed)
            &&& res.primary_branch_layout == managed.primary_branch_layout
            &&& res.branch_layout_base == managed.branch_layout_base
            &&& res.steps@ == moved_cut(managed.steps@, index as int, oid)
        },
        StepEdit::Replace { metadata } => {
            &&& res.id == managed.id
            &&& res.name == metadata.name && res.target == metadata.target && res.landing_policy == metadata.landing_policy
            &&& res.verification_policy == metadata.verification_policy
            &&& res.primary_branch_layout == metadata.primary_branch_layout
            &&& res.branch_layout_base == metadata.branch_layout_base
            &&& steps_result(res.steps@, metadata.steps@, is_sequential(metadata))
        },
    }
}

/// `adopted` is what recording the implicit staircase `m` gives (see `adopt`).
pub open spec fn adopted_from(adopted: StaircaseMetadata, m: StaircaseMetadata) -> bool {
    &&& adopted.name@ == m.name@
    &&& adopted.steps@.len() == m.steps@.len()
    &&& forall|i: int| 0 <= i < adopted.steps@.len() ==> {
        &&& (#[trigger] adopted.steps@[i]).name@ == m.steps@[i].name@
        &&& adopted.steps@[i].cut@ == m.steps@[i].cut@
        &&& opt_view(adopted.steps@[i].branch) == opt_view(m.steps@[i].branch)
    }
}

/// `managed` is the managed form of `s`: `s` itself when managed, else
/// what adopting it gives.
pub open spec fn managed_form(s: ResolvedStaircase, managed: StaircaseMetadata) -> bool {
    ||| s == ResolvedStaircase::Managed(managed)
    ||| (s matches ResolvedStaircase::Implicit(m) && adopted_from(managed, m))
}

/// A copy of the lineage, name, target, policies, layout and steps of `m`.
pub(crate) fn copy_structure(m: &StaircaseMetadata) -> (r: StaircaseMetadata)
    ensures
        same_frame(r, *m),
        r.primary_branch_layout == m.primary_branch_layout && r.branch_layout_base == m.branch_layout_base,
        r.steps@ == m.steps@,
{
    let verification_policy = match &m.verification_policy {
        Some(p) => Some(crate::model::VerificationPolicy {
            build_command: crate::model::metadata::copy_opt(&p.build_command),
            test_command: crate::model::metadata::copy_opt(&p.test_command),
            verify_each_prefix: p.verify_each_prefix,
        }),
        None => None,
    };
    StaircaseMetadata {
        landing_policy: m.landing_policy,
        id: m.id.clone(),
        name: m.name.clone(),
        target: m.target.clone(),
        steps: copy_steps(&m.steps),
        verification_policy,
        primary_branch_layout: crate::model::metadata::copy_opt(&m.primary_branch_layout),
        branch_layout_base: crate::model::metadata::copy_opt(&m.branch_layout_base),
        user_metadata: m.user_metadata.clone(),
        lifecycle: m.lifecycle.clone(),
    }
}

/// What a step edit does to the managed staircase `managed`.
pub enum StepEdit {
    /// Inserts a step at an index, leaving the layout when asked.
    Insert { index: usize, step: Step, no_ref: bool },
    /// Removes the step at an index.
    Remove { index: usize },
    /// Moves the cut of the step at an index.
    MoveCut { index: usize, oid: String },
    /// Replaces the structure, keeping the lineage id.
    Replace { metadata: StaircaseMetadata },
}

/// Whether `edit` fits a staircase of `n` steps.
pub open spec fn edit_fits(edit: StepEdit, n: nat) -> bool {
    match edit {
        StepEdit::Insert { index, .. } => index <= n,
        StepEdit::Remove { index } => index < n,
        StepEdit::MoveCut { index, .. } => index < n,
        StepEdit::Replace { .. } => true,
    }
}

/// Applies `edit` to the managed staircase `managed` and publishes the result:
/// the sequential layout (if any) renumbers the branches, except a moved cut.
fn edit_managed(repo: &GitRepo, managed: &StaircaseMetadata, edit: StepEdit) -> (r: Result<ResolvedStaircase>)
    requires
        edit_fits(edit, managed.steps@.len()),
    ensures
        r matches Ok(rs) ==> edit_result(*managed, edit, rs),
{
    let ghost e = edit;
    match edit {
        StepEdit::Insert { index, step, no_ref } => {
            let mut metadata = copy_structure(managed);
            if no_ref {
                metadata.primary_branch_layout = None;
                metadata.branch_layout_base = None;
            }
            metadata.steps.insert(index, step);
            let ghost pre = metadata;
            validate_renumbering(repo, managed, &mut metadata)?;
            proof {
                assert(is_sequential(pre) == (!no_ref && is_sequential(*managed)));
            }
            publish_managed(repo, managed, metadata)
        },
        StepEdit::Remove { index } => {
            let mut metadata = copy_structure(managed);
            metadata.steps.remove(index);
            let ghost pre = metadata;
            validate_renumbering(repo, managed, &mut metadata)?;
            proof {
                assert(is_sequential(pre) == is_sequential(*managed));
            }
            publish_managed(repo, managed, metadata)
        },
        StepEdit::MoveCut { index, oid } => {
            let mut metadata = copy_structure(managed);
            let mut step = metadata.steps[index].copy();
            step.cut = oid;
            metadata.steps.set(index, step);
            proof {
                assert(metadata.steps@ =~= moved_cut(managed.steps@, index as int, oid));
            }
            publish_managed(repo, managed, metadata)
        },
        StepEdit::Replace { metadata } => {
            let mut metadata = metadata;
            metadata.id = managed.id.clone();
            let ghost pre = metadata;
            validate_renumbering(repo, managed, &mut metadata)?;
            proof {
                assert(is_sequential(pre) == is_sequential(e->Replace_metadata));
            }
            publish_managed(repo, managed, metadata)
        },
    }
}

impl ResolvedStaircase {
    /// Applies `edit` to the staircase, recording an implicit one first
    /// (see `adopt`), and publishes the result.
    fn edit(&self, repo: &GitRepo, edit: StepEdit) -> (r: Result<ResolvedStaircase>)
        requires
            !(*self is ImplicitFamily),
            edit_fits(edit, linear_metadata(*self).steps@.len()),
        ensures
            r matches Ok(rs) ==> exists|managed: StaircaseMetadata| managed_form(*self, managed) && #[trigger] edit_result(
                managed, edit, rs),
    {
        match self {
            ResolvedStaircase::Managed(m) => edit_managed(repo, m, edit),
            ResolvedStaircase::Implicit(m) => {
                let adopted = adopt(repo, m)?;
                edit_managed(repo, &adopted, edit)
            },
            ResolvedStaircase::ImplicitFamily(_) => vstd::pervasive::unreached(),
        }
    }

    /// Inserts `step` at `index` and publishes (leaving the layout with `no_ref`).
    pub fn add_step(&self, repo: &GitRepo, index: usize, step: Step, no_ref: bool) -> (r: Result<ResolvedStaircase>)
        requires
            !(*self is ImplicitFamily),
            index <= linear_metadata(*self).steps@.len(),
        ensures
            r matches Ok(rs) ==> exists|managed: StaircaseMetadata| managed_form(*self, managed) && #[trigger] edit_result(
                managed, StepEdit::Insert { index, step, no_ref }, rs),
    {
        self.edit(repo, StepEdit::Insert { index, step, no_ref })
    }

    /// Removes the step at `index` and publishes.
    pub fn remove_step(&self, repo: &GitRepo, index: usize) -> (r: Result<ResolvedStaircase>)
        requires
            !(*self is ImplicitFamily),
            index < linear_metadata(*self).steps@.len(),
        ensures
            r matches Ok(rs) ==> exists|managed: StaircaseMetadata| managed_form(*self, managed) && #[trigger] edit_result(
                managed, StepEdit::Remove { index }, rs),
    {
        self.edit(repo, StepEdit::Remove { index })
    }

    /// Moves the cut of the step at `index` to `new_oid` and publishes.
    pub fn update_step_oid(&self, repo: &GitRepo, index: usize, new_oid: String) -> (r: Result<ResolvedStaircase>)
        requires
            !(*self is ImplicitFamily),
            index < linear_metadata(*self).steps@.len(),
        ensures
            r matches Ok(rs) ==> exists|managed: StaircaseMetadata| managed_form(*self, managed) && #[trigger] edit_result(
                managed, StepEdit::MoveCut { index, oid: new_oid }, rs),
    {
        self.edit(repo, StepEdit::MoveCut { index, oid: new_oid })
    }

    /// Replaces the whole structure (keeping the lineage id) and publishes.
    pub fn commit_metadata(&self, repo: &GitRepo, metadata: StaircaseMetadata) -> (r: Result<ResolvedStaircase>)
        requires
            !(*self is ImplicitFamily),
        ensures
            r matches Ok(rs) ==> exists|managed: StaircaseMetadata| managed_form(*self, managed) && #[trigger] edit_result(
                managed, StepEdit::Replace { metadata }, rs),
    {
        self.edit(repo, StepEdit::Replace { metadata })
    }
}

} // verus!
