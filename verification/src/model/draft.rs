use vstd::prelude::*;

verus! {

/// How a draft rewrites an existing step.
#[derive(Debug, Clone, PartialEq, Eq)]
pub enum RewriteMode {
    Amend,
    Fixup,
    FoldInto(String),
}

/// What the worktree draft is meant to become.
#[derive(Debug, Clone, PartialEq, Eq)]
pub enum DraftIntent {
    Unassigned,
    ExtendStep,
    NewStep,
    RewriteStep(RewriteMode),
}

/// The kind of change pending in the worktree.
#[derive(Debug, Clone, Copy, PartialEq, Eq, Structural)]
pub enum DraftClassification {
    Clean,
    StagedOnly,
    UnstagedOnly,
    PartiallyStaged,
    Untracked,
    Conflicted,
    TransientOperation,
    SubmoduleDirty,
}

impl DraftClassification {
    /// The kebab-case name of the classification.
    pub fn as_str(&self) -> (s: &'static str)
        ensures
            s@ == (match self {
                DraftClassification::Clean => "clean"@,
                DraftClassification::StagedOnly => "staged-only"@,
                DraftClassification::UnstagedOnly => "unstaged-only"@,
                DraftClassification::PartiallyStaged => "partially-staged"@,
                DraftClassification::Untracked => "untracked"@,
                DraftClassification::Conflicted => "conflicted"@,
                DraftClassification::TransientOperation => "transient-operation"@,
                DraftClassification::SubmoduleDirty => "submodule-dirty"@,
            }),
    {
        match self {
            DraftClassification::Clean => "clean",
            DraftClassification::StagedOnly => "staged-only",
            DraftClassification::UnstagedOnly => "unstaged-only",
            DraftClassification::PartiallyStaged => "partially-staged",
            DraftClassification::Untracked => "untracked",
            DraftClassification::Conflicted => "conflicted",
            DraftClassification::TransientOperation => "transient-operation",
            DraftClassification::SubmoduleDirty => "submodule-dirty",
        }
    }
}

/// A persistent attachment of the worktree draft to a staircase step.
#[derive(Debug, Clone, PartialEq, Eq)]
pub struct DraftAttachment {
    pub staircase_id: Option<String>,
    pub staircase_name: Option<String>,
    pub step_id: Option<String>,
    pub step_name: Option<String>,
    pub intent: DraftIntent,
    pub expected_basis: String,
    pub worktree_identity: String,
}

/// The pending changes of a worktree and what they are attached to.
#[derive(Debug, Clone, PartialEq, Eq)]
pub struct WorktreeDraft {
    pub worktree_identity: Option<String>,
    pub basis: String,
    pub head_branch: Option<String>,
    pub staged_paths: Vec<String>,
    pub staged_tree_oid: Option<String>,
    pub unstaged_paths: Vec<String>,
    pub untracked_paths: Vec<String>,
    pub ignored_paths: Vec<String>,
    pub conflicted_paths: Vec<String>,
    pub transient_operation: Option<String>,
    pub is_submodule_dirty: bool,
    pub attachment: Option<DraftAttachment>,
    pub classification: DraftClassification,
    pub is_attachment_stale: bool,
}

/// A saved copy of a worktree draft.
#[derive(Debug, Clone, PartialEq, Eq)]
pub struct DraftSnapshot {
    pub id: String,
    pub created_at: String,
    pub basis: String,
    pub staged_tree: Option<String>,
    pub worktree_tree: Option<String>,
    pub untracked_paths: Vec<String>,
    pub untracked_files: Vec<DraftFileSnapshot>,
    pub attachment: Option<DraftAttachment>,
}

/// A saved untracked file: its path, kind, mode and hex-encoded content.
#[derive(Debug, Clone, PartialEq, Eq)]
pub struct DraftFileSnapshot {
    pub path: String,
    pub kind: String,
    pub mode: u32,
    pub content_hex: String,
}

} // verus!
