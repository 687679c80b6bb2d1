use vstd::prelude::*;
use super::metadata::StaircaseMetadata;
use crate::collections::StringMap;

verus! {

/// A ref owned by an archived staircase and where its archived copy lives.
#[derive(Debug, Clone, PartialEq, Eq)]
pub struct ArchivedOwnedRef {
    pub ref_id: String,
    pub original_refname: String,
    pub object_type: String,
    pub original_oid: String,
    pub archive_refname: String,
    pub ownership_class: String,
    pub visibility_class: String,
    pub restoration_policy: String,
}

/// One `branch.<name>.<key>` configuration entry.
#[derive(Debug, Clone, PartialEq, Eq)]
pub struct BranchConfigEntry {
    pub key: String,
    pub value: String,
}

/// The configuration of one branch at archive time.
#[derive(Debug, Clone, PartialEq, Eq)]
pub struct BranchConfigSnapshot {
    pub branch_name: String,
    pub entries: Vec<BranchConfigEntry>,
}

/// What archiving a staircase moved and how to restore it.
/// `worktree_attachments` holds JSON text.
#[derive(Debug, Clone, PartialEq, Eq)]
pub struct ArchiveManifest {
    pub archive_event_id: String,
    pub lineage_id: String,
    pub archive_time: String,
    pub actor: Option<String>,
    pub reason: Option<String>,
    pub previous_record_oid: String,
    pub canonical_name: String,
    pub branch_layout_profile: Option<String>,
    pub branch_layout_base: Option<String>,
    pub owned_refs: Vec<ArchivedOwnedRef>,
    pub expected_source_oids: StringMap<String>,
    pub archive_retention_refs: StringMap<String>,
    pub branch_configs: Vec<BranchConfigSnapshot>,
    pub worktree_attachments: Vec<String>,
    pub draft_disposition: Option<String>,
    pub provider_disposition: Option<String>,
    pub name_reservation: bool,
    pub originating_structural_key: Option<String>,
}

/// Describes an archived implicit (never adopted) staircase.
#[derive(Debug, Clone, PartialEq, Eq)]
pub struct ImplicitSnapshotDescriptor {
    pub schema_version: String,
    pub representation_kind: String,
    pub archive_id: String,
    pub originating_structural_key: String,
    pub integration_context: String,
    pub ordered_cuts: Vec<String>,
    pub step_count: usize,
    pub canonical_display_name: String,
    pub aliases: Vec<String>,
    pub materializing_refs: Vec<String>,
}

/// The lifecycle of an archived implicit staircase.
#[derive(Debug, Clone, PartialEq, Eq)]
pub struct ImplicitArchiveLifecycle {
    pub state: String,
    pub archive_id: String,
    pub archive_event_id: String,
    pub archive_time: String,
    pub actor: Option<String>,
    pub reason: Option<String>,
    pub source_representation: String,
    pub name_reservation: bool,
}

/// An archived implicit staircase with its descriptor, lifecycle and manifest.
#[derive(Debug, Clone, PartialEq, Eq)]
pub struct ImplicitArchiveSnapshot {
    pub archive_id: String,
    pub record_oid: String,
    pub descriptor: ImplicitSnapshotDescriptor,
    pub lifecycle: ImplicitArchiveLifecycle,
    pub manifest: ArchiveManifest,
    pub metadata: StaircaseMetadata,
}

} // verus!
