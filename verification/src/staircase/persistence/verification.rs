//! Verification results, stored as `verification.json` on a ref per
//! lineage or per revision.

use vstd::prelude::*;
use super::{commit_json_data, read_json_data_opt};
use crate::error::{Result, StaircaseError};
use crate::git::host::{PartKind, RecordPart};
use crate::git::repo::GitRepo;
use crate::model::{IdentityKind, VerificationResult};
use crate::staircase::refs::StaircaseRefs;
use crate::text::{cat, cat3, owned, split_char, split_on};

verus! {

/// `key` with every `:` replaced by `/`.
pub fn colons_to_slashes(key: &str) -> (r: String)
    ensures
        r@ == crate::text::join(split_char(key@, ':'), "/"@),
{
    let parts = split_on(key, ':');
    crate::text::join_strings(&parts, "/")
}

/// The name of an identity kind as `{:?}` prints it.
pub open spec fn spec_identity_kind_name(kind: IdentityKind) -> Seq<char> {
    match kind {
        IdentityKind::Lineage => "Lineage"@,
        IdentityKind::Revision => "Revision"@,
        IdentityKind::Body => "Body"@,
        IdentityKind::Decomposition => "Decomposition"@,
        IdentityKind::Outcome => "Outcome"@,
        IdentityKind::PatchSeries => "PatchSeries"@,
        IdentityKind::Nominal => "Nominal"@,
        IdentityKind::Review => "Review"@,
    }
}

/// The name of an identity kind (see [`spec_identity_kind_name`]).
pub fn identity_kind_name(kind: IdentityKind) -> (r: &'static str)
    ensures
        r@ == spec_identity_kind_name(kind),
{
    match kind {
        IdentityKind::Lineage => "Lineage",
        IdentityKind::Revision => "Revision",
        IdentityKind::Body => "Body",
        IdentityKind::Decomposition => "Decomposition",
        IdentityKind::Outcome => "Outcome",
        IdentityKind::PatchSeries => "PatchSeries",
        IdentityKind::Nominal => "Nominal",
        IdentityKind::Review => "Review",
    }
}

/// The verification ref of `key`: a lineage's own ref, or the by-revision
/// ref of a revision key (`:` read as `/`); other kinds have none.
pub fn verification_ref(key: &str, kind: IdentityKind) -> (r: Result<String>)
    ensures
        kind == IdentityKind::Lineage ==> (r matches Ok(s) && s@ == "refs/staircases/"@ + key@ + "/verification"@),
        kind == IdentityKind::Revision ==> (r matches Ok(s) && s@ == "refs/staircases/by-revision/"@
            + crate::text::join(split_char(key@, ':'), "/"@) + "/verification"@),
        kind != IdentityKind::Lineage && kind != IdentityKind::Revision ==> (r matches Err(StaircaseError::Other(m))
            && m@ == "Unsupported identity kind for verification: "@ + spec_identity_kind_name(kind)),
{
    match kind {
        IdentityKind::Lineage => Ok(StaircaseRefs::verification(key)),
        IdentityKind::Revision => {
            let k = colons_to_slashes(key);
            Ok(StaircaseRefs::revision_verification(k.as_str()))
        },
        _ => Err(StaircaseError::Other(cat("Unsupported identity kind for verification: ", identity_kind_name(kind)))),
    }
}

/// Records `results` for `key` as a new commit on its verification ref.
pub fn record_verification(repo: &GitRepo, key: &str, kind: IdentityKind, results: &Vec<VerificationResult>) -> (r: Result<String>)
    ensures
        kind != IdentityKind::Lineage && kind != IdentityKind::Revision ==> r is Err,
{
    let ref_name = verification_ref(key, kind)?;
    let mut msg = cat3("Record verification for staircase ", key, " (kind: ");
    msg.append(identity_kind_name(kind));
    msg.append(")");
    commit_json_data(repo, ref_name.as_str(), &RecordPart::Verification(results.clone()), "verification.json", msg.as_str())
}

/// The verification results recorded for `key`, if any.
pub fn read_verification(repo: &GitRepo, key: &str, kind: IdentityKind) -> (r: Result<Option<Vec<VerificationResult>>>)
    ensures
        kind != IdentityKind::Lineage && kind != IdentityKind::Revision ==> r is Err,
{
    let ref_name = verification_ref(key, kind)?;
    match read_json_data_opt(repo, ref_name.as_str(), "verification.json", PartKind::Verification)? {
        Some(RecordPart::Verification(v)) => Ok(Some(v)),
        Some(_) => Err(StaircaseError::Other(owned("stored document has an unexpected kind"))),
        None => Ok(None),
    }
}

} // verus!
