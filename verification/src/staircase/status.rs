//! The status of a staircase: how its branches and cuts compare, whether it
//! is clean, diverged or ambiguous, and the draft that concerns it.

use vstd::prelude::*;
use crate::error::{Result, StaircaseError};
use crate::git::repo::GitRepo;
use crate::model::{Discovery, IdentityKind, StaircaseMetadata, StaircaseStatus, Step, StepStatus, WorktreeDraft};
use crate::staircase::persistence::record::read_metadata;
use crate::staircase::persistence::verification::read_verification;
use crate::text::{cat, opt_view, str_eq};

verus! {

/// The status of one step, given the commit its branch points at (none:
/// the branch is missing; a step without a branch is at its cut): modified
/// when the branch is elsewhere, incomplete when it is missing; staleness is
/// decided later.
pub fn step_status(step: &Step, actual_oid: Option<String>) -> (s: StepStatus)
    ensures
        s.name == step.name,
        s.expected_cut == step.cut,
        opt_view(s.actual_oid) == opt_view(actual_oid),
        !s.is_stale,
        s.is_incomplete == actual_oid is None,
        s.is_modified == (actual_oid matches Some(a) && a@ != step.cut@),
{
    let is_incomplete = actual_oid.is_none();
    let is_modified = match &actual_oid {
        Some(oid) => !str_eq(oid.as_str(), step.cut.as_str()),
        None => false,
    };
    StepStatus {
        name: step.name.clone(),
        expected_cut: step.cut.clone(),
        actual_oid,
        is_stale: false,
        is_modified,
        is_incomplete,
    }
}

/// Some linear discovery has `name` but another id.
pub open spec fn spec_ambiguous(discoveries: Seq<Discovery>, name: Seq<char>, id: Seq<char>) -> bool {
    exists|i: int| 0 <= i < discoveries.len() && (#[trigger] discoveries[i] matches Discovery::Linear(m)
        && m.name@ == name && m.id@ != id)
}

/// Whether a staircase named `name` with id `id` is ambiguous among
/// `discoveries` (see [`spec_ambiguous`]).
pub fn is_ambiguous_among(discoveries: &Vec<Discovery>, name: &str, id: &str) -> (b: bool)
    ensures
        b == spec_ambiguous(discoveries@, name@, id@),
{
    let mut i: usize = 0;
    while i < discoveries.len()
        invariant
            i <= discoveries@.len(),
            forall|k: int| 0 <= k < i ==> !(#[trigger] discoveries@[k] matches Discovery::Linear(m)
                && m.name@ == name@ && m.id@ != id@),
        decreases discoveries@.len() - i,
    {
        match &discoveries[i] {
            Discovery::Linear(m) => {
                if str_eq(m.name.as_str(), name) && !str_eq(m.id.as_str(), id) {
                    return true;
                }
            },
            _ => {},
        }
        i += 1;
    }
    false
}

/// A draft concerns a staircase when it is attached to it (by name or id)
/// or when its basis is one of the staircase's cuts.
pub open spec fn spec_draft_concerns(d: WorktreeDraft, m: StaircaseMetadata) -> bool {
    ||| d.attachment matches Some(a) && a.staircase_name matches Some(n) && n@ == m.name@
    ||| d.attachment matches Some(a) && a.staircase_id matches Some(i) && i@ == m.id@
    ||| exists|k: int| 0 <= k < m.steps@.len() && m.steps@[k].cut@ == d.basis@
}

/// Whether `draft` concerns `metadata` (see [`spec_draft_concerns`]).
pub fn draft_concerns(draft: &WorktreeDraft, metadata: &StaircaseMetadata) -> (b: bool)
    ensures
        b == spec_draft_concerns(*draft, *metadata),
{
    match &draft.attachment {
        Some(att) => {
            match &att.staircase_name {
                Some(n) => {
                    if str_eq(n.as_str(), metadata.name.as_str()) {
                        return true;
                    }
                },
                None => {},
            }
            match &att.staircase_id {
                Some(i) => {
                    if str_eq(i.as_str(), metadata.id.as_str()) {
                        return true;
                    }
                },
                None => {},
            }
        },
        None => {},
    }
    let mut k: usize = 0;
    while k < metadata.steps.len()
        invariant
            k <= metadata.steps@.len(),
            forall|j: int| 0 <= j < k ==> metadata.steps@[j].cut@ != draft.basis@,
        decreases metadata.steps@.len() - k,
    {
        if str_eq(metadata.steps[k].cut.as_str(), draft.basis.as_str()) {
            return true;
        }
        k += 1;
    }
    false
}

/// The status of the recorded staircase `id`.
pub fn get_status(repo: &GitRepo, id: &str) -> (r: Result<StaircaseStatus>) {
    let metadata = read_metadata(repo, id)?;
    get_status_metadata(repo, metadata, false)
}

/// The status of `metadata` (implicit or recorded).
pub fn get_status_metadata(repo: &GitRepo, metadata: StaircaseMetadata, is_implicit: bool) -> (r: Result<StaircaseStatus>)
    ensures
        r matches Ok(st) ==> st.metadata == metadata,
{
    get_status_metadata_ext(repo, metadata, is_implicit, None, None)
}

/// The status of `metadata`: each step's branch against its cut (see
/// [`step_status`]); a step whose commit does not descend from its parent's
/// (the target's for the first) is stale; the staircase is clean when no
/// step is modified or stale, diverged when a step is modified, ambiguous
/// when a discovery (given, or discovered onto its target) shares its name
/// but not its id; a recorded staircase carries its verification results;
/// the worktree draft (given, or read) is kept when it concerns it.
pub fn get_status_metadata_ext(
    repo: &GitRepo,
    metadata: StaircaseMetadata,
    is_implicit: bool,
    known_discoveries: Option<&Vec<Discovery>>,
    cached_draft: Option<Option<WorktreeDraft>>,
) -> (r: Result<StaircaseStatus>)
    ensures
        r matches Ok(s) ==> s.is_implicit == is_implicit && s.steps@.len() == metadata.steps@.len()
            && (s.is_diverged <==> exists|k: int| 0 <= k < s.steps@.len() && (#[trigger] s.steps@[k]).is_modified)
            && (s.worktree_draft matches Some(d) ==> spec_draft_concerns(d, metadata)),
        r matches Ok(s) ==> s.metadata == metadata,
{
    let mut steps: Vec<StepStatus> = Vec::new();
    let mut is_clean = true;
    let mut actual_oids: Vec<Option<String>> = Vec::new();
    let mut i: usize = 0;
    while i < metadata.steps.len()
        invariant
            i <= metadata.steps@.len(),
            steps@.len() == i,
            actual_oids@.len() == i,
            forall|k: int| 0 <= k < i ==> opt_view(#[trigger] steps@[k].actual_oid) == opt_view(actual_oids@[k]),
        decreases metadata.steps@.len() - i,
    {
        let step = &metadata.steps[i];
        let actual_oid = match &step.branch {
            Some(branch) => {
                let full = cat("refs/heads/", branch.as_str());
                repo.resolve_commit_opt(full.as_str())?
            },
            None => Some(step.cut.clone()),
        };
        let copy = match &actual_oid {
            Some(a) => Some(a.clone()),
            None => None,
        };
        let st = step_status(step, actual_oid);
        if st.is_modified {
            is_clean = false;
        }
        actual_oids.push(copy);
        steps.push(st);
        i += 1;
    }
    let target_oid = repo.resolve_commit(metadata.target.as_str())?;
    let n = steps.len();
    let mut j: usize = 0;
    while j < n
        invariant
            j <= n,
            n == steps@.len(),
            actual_oids@.len() == n,
            forall|k: int| 0 <= k < n ==> #[trigger] steps@[k].is_modified == old_modified(steps@[k]),
        decreases n - j,
    {
        let parent: Option<String> = if j == 0 {
            Some(target_oid.clone())
        } else {
            match &actual_oids[j - 1] {
                Some(a) => Some(a.clone()),
                None => None,
            }
        };
        match (&actual_oids[j], &parent) {
            (Some(actual), Some(p)) => {
                if !repo.is_ancestor(p.as_str(), actual.as_str())? {
                    let mut s = steps[j].clone();
                    s.is_stale = true;
                    steps.set(j, s);
                    is_clean = false;
                }
            },
            _ => {},
        }
        j += 1;
    }
    let verification_results = if is_implicit {
        None
    } else {
        read_verification(repo, metadata.id.as_str(), IdentityKind::Lineage)?
    };
    let mut is_diverged = false;
    let mut d: usize = 0;
    while d < steps.len()
        invariant
            d <= steps@.len(),
            is_diverged <==> exists|k: int| 0 <= k < d && (#[trigger] steps@[k]).is_modified,
        decreases steps@.len() - d,
    {
        if steps[d].is_modified {
            is_diverged = true;
        }
        d += 1;
    }
    let is_ambiguous = match known_discoveries {
        Some(ds) => is_ambiguous_among(ds, metadata.name.as_str(), metadata.id.as_str()),
        None => match crate::staircase::discovery::discover(repo, Some(metadata.target.as_str()), None, false) {
            Ok(ds) => is_ambiguous_among(&ds, metadata.name.as_str(), metadata.id.as_str()),
            Err(_) => false,
        },
    };
    let candidate = match cached_draft {
        Some(opt) => opt,
        None => match crate::staircase::draft::get_worktree_draft(repo) {
            Ok(dr) => Some(dr),
            Err(_) => None,
        },
    };
    let worktree_draft = match candidate {
        Some(dr) => if draft_concerns(&dr, &metadata) {
            Some(dr)
        } else {
            None
        },
        None => None,
    };
    Ok(StaircaseStatus {
        verification_results,
        metadata,
        steps,
        is_clean,
        is_implicit,
        is_diverged,
        is_ambiguous,
        worktree_draft,
        active_operation: None,
        external_git_operation: None,
    })
}

/// The modification flag of a step status.
pub open spec fn old_modified(s: StepStatus) -> bool {
    s.is_modified
}

} // verus!
