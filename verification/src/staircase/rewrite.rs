//! Rewriting history under a resumable operation: the commits of a range of
//! steps are cherry-picked onto a new base, one at a time, with the progress
//! kept in the operation journal so that a conflict can be resolved and the
//! replay continued; at the end the new record and every ref it implies are
//! published against the values leased at the start.

use vstd::prelude::*;
use crate::collections::SortedMap;
use crate::error::{Result, StaircaseError};
use crate::git::host::{PartKind, RecordPart};
use crate::git::repo::{canonical_text, path_from, path_text, GitRepo};
use crate::model::{LifecycleState, StaircaseLifecycle, StaircaseMetadata, StaircaseUserMetadata, Step};
use crate::staircase::archive::contains_text;
use crate::staircase::draft::check_transient_operation;
use crate::staircase::operation::journal::{OperationJournal, OperationPhase, OperationResult};
use crate::staircase::operation::mutation::{or_missing, MutationPlan};
use crate::staircase::operation::recovery::restore_draft_after_success;
use crate::staircase::operation::{begin_resumable, publish_resumable};
use crate::staircase::persistence::record::{read_record, write_record};
use crate::staircase::refs::StaircaseRefs;
use crate::staircase::resolved::{adopt, check_step_order, linear_metadata, ResolvedStaircase};
use crate::text::{cat, cat3, opt_str_eq, opt_view, owned, str_eq, strip_prefix, usize_to_decimal, views, words_of};

verus! {

/// Where a rewrite stands: what it started from, what it builds, the
/// commits of each rewritten step, and the next commit to replay.
#[derive(Debug)]
pub struct RewriteContinuation {
    pub schema: String,
    pub version: u32,
    pub kind: String,
    pub old_record_oid: String,
    pub original: StaircaseMetadata,
    pub desired: StaircaseMetadata,
    pub user_metadata: StaircaseUserMetadata,
    pub lifecycle: StaircaseLifecycle,
    pub commit_groups: Vec<Vec<String>>,
    pub start_step: usize,
    pub end_step: usize,
    pub next_step: usize,
    pub next_commit: usize,
    pub current_base: String,
    pub pending_cherry_pick: bool,
}

/// Whether the progress of a rewrite is consistent: the rewritten steps are
/// steps of the desired staircase, one commit group each, and the next
/// position lies within them.
pub open spec fn progress_ok(s: RewriteContinuation) -> bool {
    &&& s.start_step <= s.next_step <= s.end_step <= s.desired.steps@.len()
    &&& s.end_step - s.start_step == s.commit_groups@.len()
    &&& s.next_step < s.end_step ==> s.next_commit <= s.commit_groups@[s.next_step - s.start_step]@.len()
}

/// The message for a rewrite whose step ranges do not fit the staircase.
pub open spec fn inconsistent_plan_message() -> Seq<char> {
    "rewrite plan has inconsistent step ranges"@
}

/// The message for a step that a rewrite would leave without commits.
pub open spec fn empty_step_message(name: Seq<char>) -> Seq<char> {
    "rewrite would leave step '"@ + name + "' empty"@
}

/// The full ref of a step's branch: `refs/heads/` and the branch without
/// that prefix.
pub open spec fn full_branch(b: Seq<char>) -> Seq<char> {
    "refs/heads/"@ + (if "refs/heads/"@.is_prefix_of(b) { b.skip(11) } else { b })
}

/// The cut of the last step on each branch, by full ref.
pub open spec fn spec_branch_cuts(steps: Seq<Step>) -> Map<Seq<char>, Seq<char>>
    decreases steps.len(),
{
    if steps.len() == 0 {
        Map::empty()
    } else {
        let before = spec_branch_cuts(steps.drop_last());
        match steps.last().branch {
            Some(b) => before.insert(full_branch(b@), steps.last().cut@),
            None => before,
        }
    }
}

/// The full refs of the steps' branches (`refs/heads/` added once), each
/// with the cut of the last step on it, in ref order.
fn owned_branches(metadata: &StaircaseMetadata) -> (r: SortedMap<String>)
    ensures
        r.view().dom() == spec_branch_cuts(metadata.steps@).dom(),
        forall|k: Seq<char>| #[trigger] r.view().contains_key(k) ==> r.view()[k]@ == spec_branch_cuts(metadata.steps@)[k],
{
    let ghost st = metadata.steps@;
    let mut m: SortedMap<String> = SortedMap::new();
    let mut i: usize = 0;
    proof {
        assert(st.take(0) =~= seq![]);
        assert(m.view().dom() =~= spec_branch_cuts(st.take(0)).dom());
    }
    while i < metadata.steps.len()
        invariant
            st == metadata.steps@,
            i <= st.len(),
            m.view().dom() == spec_branch_cuts(st.take(i as int)).dom(),
            forall|k: Seq<char>| #[trigger] m.view().contains_key(k) ==> m.view()[k]@ == spec_branch_cuts(st.take(i as int))[k],
        decreases st.len() - i,
    {
        proof {
            let t = st.take(i + 1);
            assert(t.drop_last() =~= st.take(i as int));
            assert(t.last() == st[i as int]);
        }
        match &metadata.steps[i].branch {
            Some(b) => {
                proof {
                    reveal_strlit("refs/heads/");
                }
                let short = match strip_prefix(b.as_str(), "refs/heads/") {
                    Some(s) => s,
                    None => b.clone(),
                };
                let key = cat("refs/heads/", short.as_str());
                proof {
                    assert(key@ == full_branch(b@));
                }
                m.insert(key, metadata.steps[i].cut.clone());
                proof {
                    assert(m.view().dom() =~= spec_branch_cuts(st.take(i + 1)).dom());
                }
            },
            None => {},
        }
        i += 1;
    }
    proof {
        assert(st.take(st.len() as int) =~= st);
    }
    m
}

/// The keys of two maps, each once, in increasing order.
fn union_keys(a: &SortedMap<String>, b: &SortedMap<String>) -> (r: Vec<String>)
    ensures
        forall|k: Seq<char>| views(r@).contains(k) <==> (a.view().contains_key(k) || b.view().contains_key(k)),
        views(r@).no_duplicates(),
{
    let mut all: SortedMap<bool> = SortedMap::new();
    let ae = a.entries();
    let mut i: usize = 0;
    while i < ae.len()
        invariant
            i <= ae@.len(),
            forall|k: Seq<char>| #[trigger] all.view().contains_key(k) <==> exists|j: int| 0 <= j < i && ae@[j].0@ == k,
        decreases ae@.len() - i,
    {
        let ghost prev = all.view();
        all.insert(ae[i].0.clone(), true);
        proof {
            assert forall|k: Seq<char>| #[trigger] all.view().contains_key(k) <==> exists|j: int| 0 <= j < i + 1 && ae@[j].0@ == k by {
                if all.view().contains_key(k) && k != ae@[i as int].0@ {
                    assert(prev.contains_key(k));
                }
                if exists|j: int| 0 <= j < i + 1 && ae@[j].0@ == k {
                    let j = choose|j: int| 0 <= j < i + 1 && ae@[j].0@ == k;
                    if j < i {
                        assert(prev.contains_key(k));
                    }
                }
            }
        }
        i += 1;
    }
    let be = b.entries();
    let mut q0: usize = 0;
    while q0 < be.len()
        invariant
            q0 <= be@.len(),
            forall|k: Seq<char>| #[trigger] all.view().contains_key(k) <==> ((exists|j: int| 0 <= j < ae@.len() && ae@[j].0@ == k)
                || exists|j: int| 0 <= j < q0 && be@[j].0@ == k),
        decreases be@.len() - q0,
    {
        let ghost prev = all.view();
        all.insert(be[q0].0.clone(), true);
        proof {
            assert forall|k: Seq<char>| #[trigger] all.view().contains_key(k) <==> ((exists|j: int| 0 <= j < ae@.len() && ae@[j].0@ == k)
                || exists|j: int| 0 <= j < q0 + 1 && be@[j].0@ == k) by {
                if all.view().contains_key(k) && k != be@[q0 as int].0@ {
                    assert(prev.contains_key(k));
                }
                if exists|j: int| 0 <= j < q0 + 1 && be@[j].0@ == k {
                    let j = choose|j: int| 0 <= j < q0 + 1 && be@[j].0@ == k;
                    if j < q0 {
                        assert(prev.contains_key(k));
                    }
                }
            }
        }
        q0 += 1;
    }
    let ghost amap = all.view();
    let entries = all.into_entries();
    let mut keys: Vec<String> = Vec::new();
    let mut q: usize = 0;
    while q < entries.len()
        invariant
            q <= entries@.len(),
            views(keys@) == entries@.take(q as int).map_values(|e: (String, bool)| e.0@),
        decreases entries@.len() - q,
    {
        proof {
            crate::text::lemma_views_push(keys@, entries@[q as int].0);
            assert(entries@.take(q + 1).map_values(|e: (String, bool)| e.0@) =~= entries@.take(q as int).map_values(
                |e: (String, bool)| e.0@,
            ).push(entries@[q as int].0@));
        }
        keys.push(entries[q].0.clone());
        q += 1;
    }
    proof {
        let ks = entries@.map_values(|e: (String, bool)| e.0@);
        assert(entries@.take(entries@.len() as int) =~= entries@);
        assert(views(keys@) == ks);
        assert forall|k: Seq<char>| views(keys@).contains(k) <==> amap.contains_key(k) by {
            if views(keys@).contains(k) {
                let j = choose|j: int| 0 <= j < ks.len() && ks[j] == k;
                assert(amap.contains_key(entries@[j].0@));
            }
            if amap.contains_key(k) {
                let j = choose|j: int| 0 <= j < entries@.len() && entries@[j].0@ == k;
                assert(ks[j] == k);
            }
        }
        assert forall|x: int, y: int| 0 <= x < ks.len() && 0 <= y < ks.len() && x != y implies ks[x] != ks[y] by {
            assert(ks[x] == entries@[x].0@ && ks[y] == entries@[y].0@);
        }
        assert forall|k: Seq<char>| views(keys@).contains(k) <==> (a.view().contains_key(k) || b.view().contains_key(k)) by {
            assert(views(keys@).contains(k) <==> amap.contains_key(k));
            assert(amap.contains_key(k) <==> ((exists|j: int| 0 <= j < ae@.len() && ae@[j].0@ == k)
                || exists|j: int| 0 <= j < be@.len() && be@[j].0@ == k));
            if a.view().contains_key(k) {
                let j = choose|j: int| 0 <= j < ae@.len() && ae@[j].0@ == k;
            }
            if exists|j: int| 0 <= j < ae@.len() && ae@[j].0@ == k {
                let j = choose|j: int| 0 <= j < ae@.len() && ae@[j].0@ == k;
                assert(a.view().contains_key(ae@[j].0@));
            }
            if b.view().contains_key(k) {
                let j = choose|j: int| 0 <= j < be@.len() && be@[j].0@ == k;
            }
            if exists|j: int| 0 <= j < be@.len() && be@[j].0@ == k {
                let j = choose|j: int| 0 <= j < be@.len() && be@[j].0@ == k;
                assert(b.view().contains_key(be@[j].0@));
            }
        }
    }
    keys
}

/// Refuses a rewrite while another worktree has one of the branches it
/// moves checked out.
fn ensure_worktree_safety(repo: &GitRepo, old_meta: &StaircaseMetadata, new_meta: &StaircaseMetadata) -> (r: Result<()>) {
    let changed = union_keys(&owned_branches(old_meta), &owned_branches(new_meta));
    let current = match canonical_text(&repo.workdir) {
        Ok(t) => t,
        Err(_) => path_text(&repo.workdir),
    };
    let worktrees = repo.worktrees()?;
    let mut i: usize = 0;
    while i < worktrees.len()
        invariant
            i <= worktrees@.len(),
        decreases worktrees@.len() - i,
    {
        let path = match canonical_text(&path_from(worktrees[i].path.clone())) {
            Ok(t) => t,
            Err(_) => worktrees[i].path.clone(),
        };
        if !str_eq(path.as_str(), current.as_str()) {
            match &worktrees[i].branch {
                Some(b) => {
                    if contains_text(&changed, b.as_str()) {
                        let mut reason = cat3(b.as_str(), " is checked out in worktree ", worktrees[i].path.as_str());
                        reason.append("; detach it before rewriting");
                        return Err(StaircaseError::UnsupportedTopology { operation: owned("rewrite"), reason });
                    }
                },
                None => {},
            }
        }
        i += 1;
    }
    Ok(())
}

/// Leases `reference` at `expected` in `plan`: it must be there now.
fn lease(repo: &GitRepo, plan: &mut MutationPlan, reference: String, expected: Option<String>) -> (r: Result<()>)
    ensures
        final(plan).kind == old(plan).kind && final(plan).lineage_id == old(plan).lineage_id,
        final(plan).expected_record_revision == old(plan).expected_record_revision,
        final(plan).schema == old(plan).schema && final(plan).version == old(plan).version,
        r is Ok ==> {
            &&& final(plan).refs@.len() == old(plan).refs@.len() + 1
            &&& final(plan).refs@.take(old(plan).refs@.len() as int) == old(plan).refs@
            &&& final(plan).refs@.last().reference == reference
            &&& opt_view(final(plan).refs@.last().expected) == opt_view(expected)
            &&& opt_view(final(plan).refs@.last().planned) == opt_view(expected)
        },
        r is Err ==> *final(plan) == *old(plan),
        r matches Err(StaircaseError::RefCollision { reference: rr, .. }) ==> rr == reference,
{
    let actual = repo.resolve_ref_opt(reference.as_str())?;
    if !opt_str_eq(&actual, &expected) {
        return Err(StaircaseError::RefCollision { reference, expected: or_missing(expected), actual: or_missing(actual) });
    }
    plan.update(reference, actual.clone(), actual);
    Ok(())
}

/// The refs a rewrite leases, each at its current value: the record, the
/// public name when it holds the record, every step ref of the old and new
/// staircase, and every owned branch of either (which must be where the
/// old staircase has it, except for a restack).
fn lease_plan(repo: &GitRepo, old_meta: &StaircaseMetadata, new_meta: &StaircaseMetadata, old_record_oid: &str, kind: &str) -> (r: Result<MutationPlan>)
    ensures
        r matches Ok(p) ==> (p.kind@ == kind@ && (p.expected_record_revision matches Some(e) && e@ == old_record_oid@)),
        r matches Ok(p) ==> (p.lineage_id matches Some(l) && l@ == old_meta.id@),
        r matches Ok(p) ==> p.refs@.len() >= 1 && p.refs@[0].reference@ == "refs/staircase-state/"@ + old_meta.id@ + "/record"@
            && opt_view(p.refs@[0].expected) == Some(old_record_oid@) && opt_view(p.refs@[0].planned) == Some(old_record_oid@),
{
    let mut plan = MutationPlan::new(kind, Some(old_meta.id.clone())).expected_record(Some(owned(old_record_oid)));
    lease(repo, &mut plan, StaircaseRefs::record(old_meta.id.as_str(), LifecycleState::Active), Some(owned(old_record_oid)))?;
    let ghost first = plan.refs@[0];
    let public = StaircaseRefs::public(old_meta.name.as_str());
    match repo.resolve_ref_opt(public.as_str())? {
        Some(at) => {
            if str_eq(at.as_str(), old_record_oid) {
                lease(repo, &mut plan, public, Some(owned(old_record_oid)))?;
            }
        },
        None => {},
    }
    let mut ids: SortedMap<bool> = SortedMap::new();
    let mut i: usize = 0;
    while i < old_meta.steps.len()
        invariant
            i <= old_meta.steps@.len(),
        decreases old_meta.steps@.len() - i,
    {
        ids.insert(old_meta.steps[i].id.clone(), true);
        i += 1;
    }
    let mut k: usize = 0;
    while k < new_meta.steps.len()
        invariant
            k <= new_meta.steps@.len(),
        decreases new_meta.steps@.len() - k,
    {
        ids.insert(new_meta.steps[k].id.clone(), true);
        k += 1;
    }
    let id_entries = ids.entries();
    let mut q: usize = 0;
    while q < id_entries.len()
        invariant
            q <= id_entries@.len(),
            plan.kind@ == kind@,
            plan.expected_record_revision matches Some(e) && e@ == old_record_oid@,
            plan.lineage_id matches Some(l) && l@ == old_meta.id@,
            plan.refs@.len() >= 1 && plan.refs@[0] == first,
            first.reference@ == "refs/staircase-state/"@ + old_meta.id@ + "/record"@,
            opt_view(first.expected) == Some(old_record_oid@) && opt_view(first.planned) == Some(old_record_oid@),
        decreases id_entries@.len() - q,
    {
        let reference = StaircaseRefs::step(old_meta.id.as_str(), id_entries[q].0.as_str(), LifecycleState::Active);
        let actual = repo.resolve_ref_opt(reference.as_str())?;
        plan.update(reference, actual.clone(), actual);
        q += 1;
    }
    let old_owned = owned_branches(old_meta);
    let new_owned = owned_branches(new_meta);
    let refs = union_keys(&old_owned, &new_owned);
    let restack = str_eq(kind, "restack");
    let mut b: usize = 0;
    while b < refs.len()
        invariant
            b <= refs@.len(),
            plan.kind@ == kind@,
            plan.expected_record_revision matches Some(e) && e@ == old_record_oid@,
            plan.lineage_id matches Some(l) && l@ == old_meta.id@,
            plan.refs@.len() >= 1 && plan.refs@[0] == first,
            first.reference@ == "refs/staircase-state/"@ + old_meta.id@ + "/record"@,
            opt_view(first.expected) == Some(old_record_oid@) && opt_view(first.planned) == Some(old_record_oid@),
        decreases refs@.len() - b,
    {
        let reference = refs[b].as_str();
        let actual = repo.resolve_ref_opt(reference)?;
        match old_owned.get(reference) {
            Some(expected) => {
                let at = match &actual {
                    Some(a) => str_eq(a.as_str(), expected.as_str()),
                    None => false,
                };
                if !restack && !at {
                    return Err(StaircaseError::RefCollision {
                        reference: owned(reference),
                        expected: expected.clone(),
                        actual: or_missing(actual),
                    });
                }
            },
            None => {
                match &actual {
                    Some(a) => {
                        return Err(StaircaseError::RefCollision {
                            reference: owned(reference),
                            expected: owned("<missing>"),
                            actual: a.clone(),
                        });
                    },
                    None => {},
                }
            },
        }
        plan.update(owned(reference), actual.clone(), actual);
        b += 1;
    }
    Ok(plan)
}

/// The commits of each rewritten step must be single-parent commits, and
/// no rewritten step may be left without commits.
fn check_replayable(repo: &GitRepo, desired: &StaircaseMetadata, groups: &Vec<Vec<String>>, start_step: usize, kind: &str) -> (r: Result<()>)
    requires
        start_step + groups@.len() <= desired.steps@.len(),
    ensures
        (exists|i: int| 0 <= i < groups@.len() && (#[trigger] groups@[i])@.len() == 0
            && forall|j: int| 0 <= j < i ==> (#[trigger] groups@[j])@.len() > 0) ==> r is Err,
{
    let n = desired.steps.len();
    let mut g: usize = 0;
    while g < groups.len()
        invariant
            n == desired.steps@.len(),
            start_step + groups@.len() <= desired.steps@.len(),
            g <= groups@.len(),
            forall|j: int| 0 <= j < g ==> (#[trigger] groups@[j])@.len() > 0,
        decreases groups@.len() - g,
    {
        let commits = &groups[g];
        if commits.len() == 0 {
            let reason = cat3("rewrite would leave step '", desired.steps[start_step + g].name.as_str(), "' empty");
            return Err(StaircaseError::UnsupportedTopology { operation: owned(kind), reason });
        }
        let mut c: usize = 0;
        while c < commits.len()
            invariant
                c <= commits@.len(),
            decreases commits@.len() - c,
        {
            let listing = repo.run(&["rev-list", "--parents", "-n", "1", commits[c].as_str()])?;
            let words = words_of(listing.as_str());
            let parents: usize = if words.len() > 0 { words.len() - 1 } else { 0 };
            if parents != 1 {
                let mut reason = cat3("commit ", commits[c].as_str(), " has ");
                reason.append(usize_to_decimal(parents).as_str());
                reason.append(" parents; only single-parent commits can be replayed");
                return Err(StaircaseError::UnsupportedTopology { operation: owned(kind), reason });
            }
            c += 1;
        }
        g += 1;
    }
    Ok(())
}

/// Replays `commit_groups` (one per step from `start_step`) onto `base_oid`
/// to build `desired` (recording an implicit staircase first): the step
/// ranges must fit, every replayed step must keep commits and every commit
/// a single parent. The record, name, step refs and branches are leased,
/// the draft is saved, and the commits are cherry-picked one by one under a
/// resumable operation (see `run`). A dry run only checks.
pub fn replay(
    repo: &GitRepo,
    staircase: &ResolvedStaircase,
    desired: StaircaseMetadata,
    commit_groups: Vec<Vec<String>>,
    start_step: usize,
    base_oid: String,
    kind: &str,
    dry_run: bool,
) -> (r: Result<()>)
    requires
        !(*staircase is ImplicitFamily),
    ensures
        (start_step > desired.steps@.len() || start_step + commit_groups@.len() > desired.steps@.len())
            ==> (r matches Err(StaircaseError::InvalidStructure(m)) && m@ == inconsistent_plan_message()),
{
    if start_step > desired.steps.len() || commit_groups.len() > desired.steps.len() - start_step {
        return Err(StaircaseError::InvalidStructure(owned("rewrite plan has inconsistent step ranges")));
    }
    check_replayable(repo, &desired, &commit_groups, start_step, kind)?;
    if dry_run {
        return Ok(());
    }
    let managed = match staircase {
        ResolvedStaircase::Managed(m) => m.clone(),
        _ => adopt(repo, staircase.metadata())?,
    };
    let mut desired = desired;
    desired.id = managed.id.clone();
    desired.name = managed.name.clone();
    let ghost n = desired.steps@.len();
    let mut i: usize = 0;
    while i < desired.steps.len() && i < managed.steps.len()
        invariant
            i <= desired.steps@.len(),
            desired.steps@.len() == n,
        decreases desired.steps@.len() - i,
    {
        if desired.steps[i].id.as_str().unicode_len() == 0 {
            let mut s = desired.steps[i].copy();
            s.id = managed.steps[i].id.clone();
            desired.steps.set(i, s);
        }
        i += 1;
    }
    let record_ref = StaircaseRefs::record(desired.id.as_str(), LifecycleState::Active);
    let old_record_oid = repo.resolve_ref(record_ref.as_str())?;
    let mut old_record = read_record(repo, old_record_oid.as_str())?;
    old_record.metadata.name = managed.name.clone();
    ensure_worktree_safety(repo, &old_record.metadata, &desired)?;
    let plan = lease_plan(repo, &old_record.metadata, &desired, old_record_oid.as_str(), kind)?;
    let end_step = start_step + commit_groups.len();
    let mut user_metadata = old_record.user_metadata;
    if start_step == 0 && (str_eq(kind, "rebase") || str_eq(kind, "restack")) {
        let anchor = crate::json_text::render_json(&crate::json::JsonValue::String(base_oid.clone()));
        user_metadata.extensions.insert(owned("git-staircase.internal.integration-anchor"), anchor);
    }
    let state = RewriteContinuation {
        schema: owned("git-staircase/rewrite-continuation"),
        version: 1,
        kind: owned(kind),
        old_record_oid,
        original: old_record.metadata,
        desired,
        user_metadata,
        lifecycle: old_record.lifecycle,
        commit_groups,
        start_step,
        end_step,
        next_step: start_step,
        next_commit: 0,
        current_base: base_oid,
        pending_cherry_pick: false,
    };
    let part = RecordPart::RewriteState(state);
    let text = repo.host.encode_part(&part)?;
    let state = match part {
        RecordPart::RewriteState(s) => s,
        _ => vstd::pervasive::unreached(),
    };
    let mut journal = begin_resumable(repo, &plan, text)?;
    repo.run(&["reset", "--hard", "HEAD"])?;
    repo.run(&["checkout", "--detach", state.current_base.as_str()])?;
    run(repo, &mut journal)
}

/// The rewrite state a journal carries.
fn read_state(repo: &GitRepo, journal: &OperationJournal) -> (r: Result<RewriteContinuation>)
    ensures
        r matches Ok(s) ==> progress_ok(s),
        journal.continuation is None ==> (r matches Err(StaircaseError::Other(m)) && m@ == "rewrite journal has no continuation"@),
{
    let text = match &journal.continuation {
        Some(t) => t,
        None => return Err(StaircaseError::Other(owned("rewrite journal has no continuation"))),
    };
    let state = match repo.host.decode_part(PartKind::RewriteState, text.as_str())? {
        RecordPart::RewriteState(s) => s,
        _ => return Err(StaircaseError::Other(owned("unsupported rewrite continuation schema"))),
    };
    if !str_eq(state.schema.as_str(), "git-staircase/rewrite-continuation") || state.version != 1 {
        return Err(StaircaseError::Other(owned("unsupported rewrite continuation schema")));
    }
    if !(state.start_step <= state.next_step && state.next_step <= state.end_step
        && state.end_step <= state.desired.steps.len() && state.end_step - state.start_step == state.commit_groups.len()) {
        return Err(StaircaseError::Other(owned("unsupported rewrite continuation schema")));
    }
    if state.next_step < state.end_step && state.next_commit > state.commit_groups[state.next_step - state.start_step].len() {
        return Err(StaircaseError::Other(owned("unsupported rewrite continuation schema")));
    }
    Ok(state)
}

/// Records the progress of a rewrite: its recovery ref moves to the current
/// base, and the journal keeps the state.
fn save_state(repo: &GitRepo, journal: &mut OperationJournal, state: RewriteContinuation) -> (r: Result<RewriteContinuation>)
    ensures
        final(journal).kind == old(journal).kind && final(journal).operation_id == old(journal).operation_id,
        r matches Ok(s) ==> s == state,
{
    let progress_ref = cat3("refs/staircase-recovery/", journal.operation_id.as_str(), "/progress");
    let actual = repo.resolve_ref_opt(progress_ref.as_str())?;
    let at_base = match &actual {
        Some(a) => str_eq(a.as_str(), state.current_base.as_str()),
        None => false,
    };
    if !at_base {
        let command = match actual {
            Some(prev) => {
                let mut c = cat3("update ", progress_ref.as_str(), " ");
                c.append(state.current_base.as_str());
                c.append(" ");
                c.append(prev.as_str());
                c
            },
            None => {
                let mut c = cat3("create ", progress_ref.as_str(), " ");
                c.append(state.current_base.as_str());
                c
            },
        };
        repo.update_refs_transaction(&vec![command])?;
    }
    journal.recovery_refs.insert(owned("__rewrite_progress__"), progress_ref);
    let part = RecordPart::RewriteState(state);
    let text = repo.host.encode_part(&part)?;
    journal.continuation = Some(text);
    journal.persist(repo)?;
    match part {
        RecordPart::RewriteState(s) => Ok(s),
        _ => vstd::pervasive::unreached(),
    }
}

/// Replays the remaining commits, one per step at a time, recording the
/// progress after each; a cherry-pick that fails pauses the operation
/// (remembering whether Git has a cherry-pick in progress). When all are
/// replayed, the rewrite is finalized.
fn run(repo: &GitRepo, journal: &mut OperationJournal) -> (r: Result<()>)
    ensures
        final(journal).kind == old(journal).kind && final(journal).operation_id == old(journal).operation_id,
{
    let mut state = read_state(repo, journal)?;
    while state.next_step < state.end_step
        invariant
            progress_ok(state),
            journal.kind == old(journal).kind && journal.operation_id == old(journal).operation_id,
        decreases state.end_step - state.next_step, state.commit_groups@[state.next_step - state.start_step]@.len() - state.next_commit,
    {
        let group = state.next_step - state.start_step;
        if state.next_commit < state.commit_groups[group].len() {
            let commit = state.commit_groups[group][state.next_commit].clone();
            match repo.run(&["cherry-pick", commit.as_str()]) {
                Ok(_) => {},
                Err(_) => {
                    let pending = match check_transient_operation(repo)? {
                        Some(op) => str_eq(op.as_str(), "cherry-pick"),
                        None => false,
                    };
                    state.pending_cherry_pick = pending;
                    journal.phase = OperationPhase::Paused;
                    let _ = save_state(repo, journal, state)?;
                    return Err(StaircaseError::OperationPaused {
                        operation_id: journal.operation_id.clone(),
                        kind: journal.kind.clone(),
                    });
                },
            }
            state.current_base = repo.resolve_commit("HEAD")?;
            state.next_commit = state.next_commit + 1;
            state = save_state(repo, journal, state)?;
        } else {
            let mut step = state.desired.steps[state.next_step].copy();
            step.cut = state.current_base.clone();
            state.desired.steps.set(state.next_step, step);
            state.next_step = state.next_step + 1;
            state.next_commit = 0;
            state = save_state(repo, journal, state)?;
        }
    }
    finalize(repo, journal, &state)
}

/// Ends a rewrite: a full rewrite must leave a clean staircase; the new
/// record is written, the leased refs move to their new values, the saved
/// draft comes back and the operation is finished.
fn finalize(repo: &GitRepo, journal: &mut OperationJournal, state: &RewriteContinuation) -> (r: Result<()>)
    ensures
        final(journal).kind == old(journal).kind && final(journal).operation_id == old(journal).operation_id,
{
    let require_clean = state.start_step == 0 && state.end_step == state.desired.steps.len();
    if require_clean {
        let target_oid = repo.resolve_commit(state.desired.target.as_str())?;
        check_step_order(repo, target_oid, &state.desired.steps)?;
    }
    let record = write_record(
        repo,
        &state.desired,
        &state.user_metadata,
        &state.lifecycle,
        None,
        Some(state.old_record_oid.as_str()),
        false,
    )?;
    let plan = publication_plan(repo, state, record.record_oid.as_str(), journal)?;
    publish_resumable(repo, journal, &plan)?;
    let _ = restore_draft_after_success(repo, &journal.draft)?;
    journal.continuation = None;
    journal.finish(repo)
}

/// Adds to `plan` the move of a leased ref to `planned`: the journal must
/// have leased it, and it must still be where it was leased.
fn publish_update(repo: &GitRepo, journal: &OperationJournal, plan: &mut MutationPlan, reference: String, planned: Option<String>) -> (r: Result<()>)
    ensures
        final(plan).kind == old(plan).kind,
        final(plan).expected_record_revision == old(plan).expected_record_revision,
        !journal.expected_refs.view().contains_key(reference@) ==> (r matches Err(StaircaseError::Other(m))
            && m@ == "rewrite did not lease '"@ + reference@ + "'"@),
        r is Ok ==> {
            &&& journal.expected_refs.view().contains_key(reference@)
            &&& final(plan).refs@.len() == old(plan).refs@.len() + 1
            &&& final(plan).refs@.take(old(plan).refs@.len() as int) == old(plan).refs@
            &&& final(plan).refs@.last().reference == reference
            &&& opt_view(final(plan).refs@.last().expected) == opt_view(journal.expected_refs.view()[reference@])
            &&& final(plan).refs@.last().planned == planned
        },
        r is Err ==> *final(plan) == *old(plan),
{
    let expected: Option<String> = match journal.expected_refs.get(reference.as_str()) {
        Some(v) => v.clone(),
        None => return Err(StaircaseError::Other(cat3("rewrite did not lease '", reference.as_str(), "'"))),
    };
    let actual = repo.resolve_ref_opt(reference.as_str())?;
    if !opt_str_eq(&actual, &expected) {
        return Err(StaircaseError::RefCollision { reference, expected: or_missing(expected), actual: or_missing(actual) });
    }
    plan.update(reference, expected, planned);
    Ok(())
}

/// The moves that publish a finished rewrite: the record (and the name
/// when it was leased), every step ref of the old and new staircase, and
/// every owned branch, each from where it was leased.
fn publication_plan(repo: &GitRepo, state: &RewriteContinuation, new_record_oid: &str, journal: &OperationJournal) -> (r: Result<MutationPlan>)
    ensures
        r matches Ok(p) ==> p.kind@ == state.kind@,
        r matches Ok(p) ==> (p.expected_record_revision matches Some(e) && e@ == state.old_record_oid@),
        r matches Ok(p) ==> p.refs@.len() >= 1 && p.refs@[0].reference@ == "refs/staircase-state/"@ + state.desired.id@ + "/record"@
            && opt_view(p.refs@[0].planned) == Some(new_record_oid@),
        !journal.expected_refs.view().contains_key("refs/staircase-state/"@ + state.desired.id@ + "/record"@) ==> (r matches Err(
            StaircaseError::Other(m)) && m@ == "rewrite did not lease '"@ + ("refs/staircase-state/"@ + state.desired.id@ + "/record"@) + "'"@),
{
    let mut plan = MutationPlan::new(state.kind.as_str(), Some(state.desired.id.clone())).expected_record(Some(state.old_record_oid.clone()));
    proof {
        assert(plan.kind@ == state.kind@);
    }
    publish_update(repo, journal, &mut plan, StaircaseRefs::record(state.desired.id.as_str(), LifecycleState::Active), Some(owned(new_record_oid)))?;
    let ghost first = plan.refs@[0];
    let public = StaircaseRefs::public(state.original.name.as_str());
    if journal.expected_refs.contains_key(public.as_str()) {
        publish_update(repo, journal, &mut plan, public, Some(owned(new_record_oid)))?;
    }
    let mut old_steps: SortedMap<String> = SortedMap::new();
    let mut i: usize = 0;
    while i < state.original.steps.len()
        invariant
            i <= state.original.steps@.len(),
        decreases state.original.steps@.len() - i,
    {
        old_steps.insert(state.original.steps[i].id.clone(), state.original.steps[i].cut.clone());
        i += 1;
    }
    let mut new_steps: SortedMap<String> = SortedMap::new();
    let mut k: usize = 0;
    while k < state.desired.steps.len()
        invariant
            k <= state.desired.steps@.len(),
        decreases state.desired.steps@.len() - k,
    {
        new_steps.insert(state.desired.steps[k].id.clone(), state.desired.steps[k].cut.clone());
        k += 1;
    }
    let ids = union_keys(&old_steps, &new_steps);
    let mut q: usize = 0;
    while q < ids.len()
        invariant
            q <= ids@.len(),
            plan.kind@ == state.kind@,
            plan.expected_record_revision matches Some(e) && e@ == state.old_record_oid@,
            plan.refs@.len() >= 1 && plan.refs@[0] == first,
            journal.expected_refs.view().contains_key("refs/staircase-state/"@ + state.desired.id@ + "/record"@),
        decreases ids@.len() - q,
    {
        let planned = match new_steps.get(ids[q].as_str()) {
            Some(c) => Some(c.clone()),
            None => None,
        };
        publish_update(repo, journal, &mut plan, StaircaseRefs::step(state.desired.id.as_str(), ids[q].as_str(), LifecycleState::Active), planned)?;
        q += 1;
    }
    let old_owned = owned_branches(&state.original);
    let new_owned = owned_branches(&state.desired);
    let refs = union_keys(&old_owned, &new_owned);
    let mut b: usize = 0;
    while b < refs.len()
        invariant
            b <= refs@.len(),
            plan.kind@ == state.kind@,
            plan.expected_record_revision matches Some(e) && e@ == state.old_record_oid@,
            plan.refs@.len() >= 1 && plan.refs@[0] == first,
            journal.expected_refs.view().contains_key("refs/staircase-state/"@ + state.desired.id@ + "/record"@),
        decreases refs@.len() - b,
    {
        let planned = match new_owned.get(refs[b].as_str()) {
            Some(c) => Some(c.clone()),
            None => None,
        };
        publish_update(repo, journal, &mut plan, refs[b].clone(), planned)?;
        b += 1;
    }
    proof {
        assert(plan.kind@ == state.kind@);
    }
    Ok(plan)
}

/// Continues a paused rewrite: a cherry-pick Git still has in progress is
/// continued (pausing again if that fails); one that was abandoned leaves
/// the operation paused; then the replay goes on (see `run`).
pub fn continue_operation(repo: &GitRepo, journal: OperationJournal) -> (r: Result<OperationResult>)
    ensures
        r matches Ok(res) ==> res.schema@ == "git-staircase/operation-result"@ && res.version == 1
            && res.transition@ == "continued"@ && res.draft_restored,
{
    let mut journal = journal;
    let mut state = read_state(repo, &journal)?;
    if state.pending_cherry_pick {
        let in_pick = match check_transient_operation(repo)? {
            Some(op) => str_eq(op.as_str(), "cherry-pick"),
            None => false,
        };
        if in_pick {
            match repo.command().args(&["cherry-pick", "--continue"]).env("GIT_EDITOR", "true").run() {
                Ok(_) => {},
                Err(error) => {
                    journal.phase = OperationPhase::Paused;
                    journal.persist(repo)?;
                    return Err(error);
                },
            }
        } else {
            let head = repo.resolve_commit("HEAD")?;
            if str_eq(head.as_str(), state.current_base.as_str()) {
                journal.phase = OperationPhase::Paused;
                journal.persist(repo)?;
                return Err(StaircaseError::ExternalOperation {
                    operation: owned("cherry-pick"),
                    owner: owned("git staircase continue|abort"),
                });
            }
        }
        state.current_base = repo.resolve_commit("HEAD")?;
        if state.next_step < state.end_step && state.next_commit < state.commit_groups[state.next_step - state.start_step].len() {
            state.next_commit = state.next_commit + 1;
        }
        state.pending_cherry_pick = false;
        let _ = save_state(repo, &mut journal, state)?;
    }
    run(repo, &mut journal)?;
    Ok(OperationResult {
        schema: owned("git-staircase/operation-result"),
        version: 1,
        operation_id: journal.operation_id,
        kind: journal.kind,
        transition: owned("continued"),
        restored_refs: 0,
        draft_restored: true,
    })
}

} // verus!
