use vstd::prelude::*;
use super::archive::ArchiveManifest;
use super::lifecycle::StaircaseLifecycle;
use super::metadata::{StaircaseMetadata, StaircaseUserMetadata};

verus! {

/// A persisted staircase record: its object ids and decoded parts.
#[derive(Debug, Clone, PartialEq, Eq)]
pub struct StaircaseRecord {
    pub record_oid: String,
    pub structure_oid: String,
    pub metadata_oid: String,
    pub lifecycle_oid: String,
    pub archive_manifest_oid: Option<String>,
    pub metadata: StaircaseMetadata,
    pub user_metadata: StaircaseUserMetadata,
    pub lifecycle: StaircaseLifecycle,
    pub archive_manifest: Option<ArchiveManifest>,
}

} // verus!
