use vstd::prelude::*;
use super::draft::WorktreeDraft;
use super::metadata::StaircaseMetadata;

verus! {

/// The state of one step against what the staircase records.
#[derive(Debug, Clone, PartialEq, Eq)]
pub struct StepStatus {
    pub name: String,
    pub expected_cut: String,
    pub actual_oid: Option<String>,
    pub is_stale: bool,
    pub is_modified: bool,
    pub is_incomplete: bool,
}

/// Overall state of a staircase.
#[derive(Debug, Clone, Copy, PartialEq, Eq, Structural)]
pub enum StaircaseState {
    Clean,
    Incomplete,
    Diverged,
    Ambiguous,
    Stale,
}

impl StaircaseState {
    /// The lower-case name of the state.
    pub fn as_str(&self) -> (s: &'static str)
        ensures
            s@ == (match self {
                StaircaseState::Clean => "clean"@,
                StaircaseState::Stale => "stale"@,
                StaircaseState::Incomplete => "incomplete"@,
                StaircaseState::Diverged => "diverged"@,
                StaircaseState::Ambiguous => "ambiguous"@,
            }),
    {
        match self {
            StaircaseState::Clean => "clean",
            StaircaseState::Stale => "stale",
            StaircaseState::Incomplete => "incomplete",
            StaircaseState::Diverged => "diverged",
            StaircaseState::Ambiguous => "ambiguous",
        }
    }
}

/// Everything known about a staircase's current state.
#[derive(Debug, Clone, PartialEq, Eq)]
pub struct StaircaseStatus {
    pub verification_results: Option<Vec<VerificationResult>>,
    pub metadata: StaircaseMetadata,
    pub steps: Vec<StepStatus>,
    pub is_clean: bool,
    pub is_implicit: bool,
    pub is_diverged: bool,
    pub is_ambiguous: bool,
    pub worktree_draft: Option<WorktreeDraft>,
    pub active_operation: Option<ActiveOperationStatus>,
    pub external_git_operation: Option<ExternalGitOperationStatus>,
}

/// Whether some step is incomplete.
pub open spec fn any_incomplete(steps: Seq<StepStatus>) -> bool {
    exists|i: int| 0 <= i < steps.len() && steps[i].is_incomplete
}

/// Whether some step is stale.
pub open spec fn any_stale(steps: Seq<StepStatus>) -> bool {
    exists|i: int| 0 <= i < steps.len() && steps[i].is_stale
}

/// Whether some step is modified.
pub open spec fn any_modified(steps: Seq<StepStatus>) -> bool {
    exists|i: int| 0 <= i < steps.len() && steps[i].is_modified
}

impl StaircaseStatus {
    /// The state by precedence: ambiguous, then diverged, then incomplete,
    /// then stale, then diverged by a modified step, else clean.
    pub open spec fn spec_state(&self) -> StaircaseState {
        if self.is_ambiguous {
            StaircaseState::Ambiguous
        } else if self.is_diverged {
            StaircaseState::Diverged
        } else if any_incomplete(self.steps@) {
            StaircaseState::Incomplete
        } else if any_stale(self.steps@) {
            StaircaseState::Stale
        } else if any_modified(self.steps@) {
            StaircaseState::Diverged
        } else {
            StaircaseState::Clean
        }
    }

    /// The overall state of the staircase.
    pub fn state(&self) -> (s: StaircaseState)
        ensures
            s == self.spec_state(),
    {
        if self.is_ambiguous {
            return StaircaseState::Ambiguous;
        }
        if self.is_diverged {
            return StaircaseState::Diverged;
        }
        let mut incomplete = false;
        let mut stale = false;
        let mut modified = false;
        let mut i: usize = 0;
        while i < self.steps.len()
            invariant
                i <= self.steps@.len(),
                incomplete == any_incomplete(self.steps@.take(i as int)),
                stale == any_stale(self.steps@.take(i as int)),
                modified == any_modified(self.steps@.take(i as int)),
            decreases self.steps@.len() - i,
        {
            let ghost prev = self.steps@.take(i as int);
            let ghost next = self.steps@.take(i + 1);
            proof {
                assert(next =~= prev.push(self.steps@[i as int]));
                assert(any_incomplete(next) == (any_incomplete(prev) || self.steps@[i as int].is_incomplete)) by {
                    if any_incomplete(prev) {
                        let k = choose|k: int| 0 <= k < prev.len() && prev[k].is_incomplete;
                        assert(next[k] == prev[k]);
                    }
                    if self.steps@[i as int].is_incomplete {
                        assert(next[i as int] == self.steps@[i as int]);
                    }
                }
                assert(any_stale(next) == (any_stale(prev) || self.steps@[i as int].is_stale)) by {
                    if any_stale(prev) {
                        let k = choose|k: int| 0 <= k < prev.len() && prev[k].is_stale;
                        assert(next[k] == prev[k]);
                    }
                    if self.steps@[i as int].is_stale {
                        assert(next[i as int] == self.steps@[i as int]);
                    }
                }
                assert(any_modified(next) == (any_modified(prev) || self.steps@[i as int].is_modified)) by {
                    if any_modified(prev) {
                        let k = choose|k: int| 0 <= k < prev.len() && prev[k].is_modified;
                        assert(next[k] == prev[k]);
                    }
                    if self.steps@[i as int].is_modified {
                        assert(next[i as int] == self.steps@[i as int]);
                    }
                }
            }
            incomplete = incomplete || self.steps[i].is_incomplete;
            stale = stale || self.steps[i].is_stale;
            modified = modified || self.steps[i].is_modified;
            i += 1;
        }
        assert(self.steps@.take(i as int) =~= self.steps@);
        if incomplete {
            StaircaseState::Incomplete
        } else if stale {
            StaircaseState::Stale
        } else if modified {
            StaircaseState::Diverged
        } else {
            StaircaseState::Clean
        }
    }
}

/// A Staircase operation that has not finished.
#[derive(Debug, Clone, PartialEq, Eq)]
pub struct ActiveOperationStatus {
    pub operation_id: String,
    pub kind: String,
    pub phase: String,
}

/// A Git operation (rebase, merge, ...) in progress in the worktree, and who owns it.
#[derive(Debug, Clone, PartialEq, Eq)]
pub struct ExternalGitOperationStatus {
    pub operation: String,
    pub owner: String,
}

/// The outcome of verifying one step.
#[derive(Debug, Clone, PartialEq, Eq)]
pub struct VerificationResult {
    pub step_name: String,
    pub cut: String,
    pub success: bool,
    pub stdout: String,
    pub stderr: String,
}

/// The notions of identity by which staircases can be compared.
#[derive(Debug, Clone, Copy, PartialEq, Eq, Structural)]
pub enum IdentityKind {
    Lineage,
    Revision,
    Body,
    Decomposition,
    Outcome,
    PatchSeries,
    Nominal,
    Review,
}

} // verus!
