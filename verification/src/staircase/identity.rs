//! The identities of a staircase: what each kind of identity is computed
//! from, framed as text and hashed by Git.

use vstd::prelude::*;
use crate::error::{Result, StaircaseError};
use crate::git::repo::GitRepo;
use crate::model::{IdentityKind, StaircaseMetadata};
use crate::staircase::resolved::{adopt, ResolvedStaircase};
use crate::text::{cat, cat3, decimal, join, join_strings, owned, usize_to_decimal, views};

verus! {

/// The step lines of a revision identity: `step<i>:<cut>` for each cut.
pub open spec fn step_lines(cuts: Seq<Seq<char>>) -> Seq<char>
    decreases cuts.len(),
{
    if cuts.len() == 0 {
        seq![]
    } else {
        step_lines(cuts.drop_last()) + "step"@ + decimal((cuts.len() - 1) as nat) + ":"@ + cuts.last() + "\n"@
    }
}

/// What a revision identity hashes: the object format, the integration
/// target's commit and each step's cut, one per line.
pub open spec fn spec_revision_data(format: Seq<char>, target: Seq<char>, cuts: Seq<Seq<char>>) -> Seq<char> {
    "format:"@ + format + "\ntarget:"@ + target + "\n"@ + step_lines(cuts)
}

/// What a revision identity hashes (see `spec_revision_data`).
pub fn revision_data(format: &str, target: &str, cuts: &Vec<String>) -> (r: String)
    ensures
        r@ == spec_revision_data(format@, target@, views(cuts@)),
{
    let mut data = cat("format:", format);
    data.append("\ntarget:");
    data.append(target);
    data.append("\n");
    let ghost head = data@;
    let mut i: usize = 0;
    while i < cuts.len()
        invariant
            i <= cuts@.len(),
            data@ == head + step_lines(views(cuts@).take(i as int)),
        decreases cuts@.len() - i,
    {
        proof {
            assert(views(cuts@).take(i + 1).drop_last() =~= views(cuts@).take(i as int));
        }
        data.append("step");
        data.append(usize_to_decimal(i).as_str());
        data.append(":");
        data.append(cuts[i].as_str());
        data.append("\n");
        i += 1;
    }
    proof {
        assert(views(cuts@).take(cuts@.len() as int) =~= views(cuts@));
    }
    data
}

/// What a body identity hashes: the target's commit and the top step's cut.
pub open spec fn spec_body_data(target: Seq<char>, top: Seq<char>) -> Seq<char> {
    "target:"@ + target + "\ntop:"@ + top + "\n"@
}

/// What an outcome identity hashes: the trees of the target and of the top.
pub open spec fn spec_outcome_data(base_tree: Seq<char>, top_tree: Seq<char>) -> Seq<char> {
    "base-tree:"@ + base_tree + "\ntop-tree:"@ + top_tree + "\n"@
}

/// The separator between the patch ids that a decomposition identity hashes.
pub open spec fn decomposition_separator() -> Seq<char> {
    "\n---\n"@
}

/// The cut of the top step, or `target_oid` when there are no steps.
fn top_cut(metadata: &StaircaseMetadata, target_oid: &String) -> (r: String)
    ensures
        r@ == if metadata.steps@.len() > 0 { metadata.steps@.last().cut@ } else { target_oid@ },
{
    if metadata.steps.len() > 0 {
        metadata.steps[metadata.steps.len() - 1].cut.clone()
    } else {
        target_oid.clone()
    }
}

/// The patch id of each step against its predecessor (the first against
/// `target_oid`).
fn step_patch_ids(repo: &GitRepo, metadata: &StaircaseMetadata, target_oid: String) -> (r: Result<Vec<String>>)
    ensures
        r matches Ok(ids) ==> ids@.len() == metadata.steps@.len(),
{
    let mut patches: Vec<String> = Vec::new();
    let mut last_cut = target_oid;
    let mut i: usize = 0;
    while i < metadata.steps.len()
        invariant
            i <= metadata.steps@.len(),
            patches@.len() == i,
        decreases metadata.steps@.len() - i,
    {
        let patch_id = repo.get_patch_id(last_cut.as_str(), metadata.steps[i].cut.as_str())?;
        patches.push(patch_id);
        last_cut = metadata.steps[i].cut.clone();
        i += 1;
    }
    Ok(patches)
}

/// The message for a review identity, which needs a review provider.
pub open spec fn review_identity_message() -> Seq<char> {
    "review identities need a review provider, and none is available"@
}

/// The identity of `staircase` of the given kind: its lineage id (adopting
/// an implicit staircase first), its name, or a hash by Git of the text
/// that the kind frames (`spec_revision_data`, `spec_body_data`,
/// `spec_outcome_data`, the patch ids joined by `decomposition_separator()`
/// or by newlines). A revision identity is the object format, `:` and the hash.
pub fn compute_identity(repo: &GitRepo, staircase: &ResolvedStaircase, kind: IdentityKind) -> (r: Result<String>)
    requires
        !(*staircase is ImplicitFamily),
    ensures
        kind == IdentityKind::Lineage && staircase is Managed ==> (r matches Ok(k)
            && k@ == staircase->Managed_0.id@),
        kind == IdentityKind::Nominal ==> (r matches Ok(k) && (k@ == staircase->Managed_0.name@
            || k@ == staircase->Implicit_0.name@) && (staircase is Managed || staircase is Implicit)),
        kind == IdentityKind::Review ==> (r matches Err(StaircaseError::Other(m)) && m@ == review_identity_message()),
{
    let metadata = staircase.metadata();
    match kind {
        IdentityKind::Lineage => {
            if staircase.is_managed() {
                Ok(metadata.id.clone())
            } else {
                let adopted = adopt(repo, metadata)?;
                Ok(adopted.id)
            }
        },
        IdentityKind::Nominal => Ok(metadata.name.clone()),
        IdentityKind::Revision => {
            let format = repo.get_object_format()?;
            let target_oid = repo.resolve_commit(metadata.target.as_str())?;
            let mut cuts: Vec<String> = Vec::new();
            let mut i: usize = 0;
            while i < metadata.steps.len()
                invariant
                    i <= metadata.steps@.len(),
                decreases metadata.steps@.len() - i,
            {
                cuts.push(metadata.steps[i].cut.clone());
                i += 1;
            }
            let data = revision_data(format.as_str(), target_oid.as_str(), &cuts);
            let hash = repo.hash_data(data.as_str())?;
            Ok(cat3(format.as_str(), ":", hash.as_str()))
        },
        IdentityKind::Body => {
            let target_oid = repo.resolve_commit(metadata.target.as_str())?;
            let top = top_cut(metadata, &target_oid);
            let data = cat4_lines("target:", target_oid.as_str(), "\ntop:", top.as_str());
            repo.hash_data(data.as_str())
        },
        IdentityKind::Decomposition => {
            let target_oid = repo.resolve_commit(metadata.target.as_str())?;
            let patches = step_patch_ids(repo, metadata, target_oid)?;
            let data = join_strings(&patches, "\n---\n");
            repo.hash_data(data.as_str())
        },
        IdentityKind::Outcome => {
            let target_oid = repo.resolve_commit(metadata.target.as_str())?;
            let target_tree = repo.get_tree_id(target_oid.as_str())?;
            let top = top_cut(metadata, &target_oid);
            let top_tree = repo.get_tree_id(top.as_str())?;
            let data = cat4_lines("base-tree:", target_tree.as_str(), "\ntop-tree:", top_tree.as_str());
            repo.hash_data(data.as_str())
        },
        IdentityKind::PatchSeries => {
            let target_oid = repo.resolve_commit(metadata.target.as_str())?;
            let patches = step_patch_ids(repo, metadata, target_oid)?;
            let data = join_strings(&patches, "\n");
            repo.hash_data(data.as_str())
        },
        IdentityKind::Review => Err(StaircaseError::Other(
            owned("review identities need a review provider, and none is available"),
        )),
    }
}

/// `a`, `b`, `c` and `d` in turn, then a newline.
fn cat4_lines(a: &str, b: &str, c: &str, d: &str) -> (r: String)
    ensures
        r@ == a@ + b@ + c@ + d@ + "\n"@,
{
    let mut r = cat(a, b);
    r.append(c);
    r.append(d);
    r.append("\n");
    r
}

} // verus!
