//! The data model: staircase metadata and records, lifecycle, status,
//! worktree drafts, archives and branch information.

pub mod archive;
pub mod draft;
pub mod git;
pub mod lifecycle;
pub mod metadata;
pub mod record;
pub mod status;

pub use archive::{
    ArchiveManifest, ArchivedOwnedRef, BranchConfigEntry, BranchConfigSnapshot,
    ImplicitArchiveLifecycle, ImplicitArchiveSnapshot, ImplicitSnapshotDescriptor,
};
pub use draft::{
    DraftAttachment, DraftClassification, DraftFileSnapshot, DraftIntent, DraftSnapshot,
    RewriteMode, WorktreeDraft,
};
pub use git::BranchInfo;
pub use lifecycle::{LifecycleEvent, LifecycleState, StaircaseLifecycle};
pub use metadata::{
    Discovery, FamilyStep, LandingPolicy, StaircaseFamily, StaircaseLink, StaircaseMetadata,
    StaircaseUserMetadata, Step, StepMetadata, VerificationPolicy,
};
pub use record::StaircaseRecord;
pub use status::{
    ActiveOperationStatus, ExternalGitOperationStatus, IdentityKind, StaircaseState,
    StaircaseStatus, StepStatus, VerificationResult,
};
