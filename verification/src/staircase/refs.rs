//! Names of the refs under which staircases, their steps, archives and
//! verification results are stored.

use vstd::prelude::*;
use crate::collections::StringMap;
use crate::model::{LifecycleState, StaircaseMetadata, Step};
use crate::text::{cat, cat3, cat4, starts_with};

verus! {

/// Prefix of the public, name-addressed refs.
pub const PUBLIC_PREFIX: &'static str = "refs/staircases/";
/// Prefix of the refs of active staircases.
pub const STATE_PREFIX: &'static str = "refs/staircase-state/";
/// Prefix of the refs of archived staircases.
pub const ARCHIVE_PREFIX: &'static str = "refs/staircase-archive/";

/// `refs/heads/` followed by `branch`, unless `branch` already starts with it.
pub open spec fn spec_local(branch: Seq<char>) -> Seq<char> {
    if "refs/heads/"@.is_prefix_of(branch) {
        branch
    } else {
        "refs/heads/"@ + branch
    }
}

/// The branches that the steps own, mapped to their cuts; a later step wins
/// when two steps name the same branch.
pub open spec fn spec_owned_branches(steps: Seq<Step>) -> Map<Seq<char>, String>
    decreases steps.len(),
{
    if steps.len() == 0 {
        Map::empty()
    } else {
        let m = spec_owned_branches(steps.drop_last());
        match steps.last().branch {
            Some(b) => m.insert(spec_local(b@), steps.last().cut),
            None => m,
        }
    }
}

/// Builds ref names for staircases.
pub struct StaircaseRefs;

impl StaircaseRefs {
    /// The full local ref of `branch`.
    pub fn local(branch: &str) -> (r: String)
        ensures
            r@ == spec_local(branch@),
    {
        if starts_with(branch, "refs/heads/") {
            branch.to_owned()
        } else {
            cat("refs/heads/", branch)
        }
    }

    /// The local refs of the steps' branches, each mapped to its step's cut.
    pub fn owned_branches(metadata: &StaircaseMetadata) -> (r: StringMap<String>)
        ensures
            r.view() == spec_owned_branches(metadata.steps@),
    {
        let mut r: StringMap<String> = StringMap::new();
        let mut i: usize = 0;
        while i < metadata.steps.len()
            invariant
                i <= metadata.steps@.len(),
                r.view() == spec_owned_branches(metadata.steps@.take(i as int)),
            decreases metadata.steps@.len() - i,
        {
            let step = &metadata.steps[i];
            proof {
                assert(metadata.steps@.take(i + 1).drop_last() =~= metadata.steps@.take(i as int));
                assert(metadata.steps@.take(i + 1).last() == metadata.steps@[i as int]);
            }
            match &step.branch {
                Some(branch) => {
                    let local = Self::local(branch.as_str());
                    r.insert(local, step.cut.clone());
                },
                None => {},
            }
            i += 1;
        }
        assert(metadata.steps@.take(i as int) =~= metadata.steps@);
        r
    }

    /// The public ref of the staircase named `name`.
    pub fn public(name: &str) -> (r: String)
        ensures
            r@ == "refs/staircases/"@ + name@,
    {
        cat(PUBLIC_PREFIX, name)
    }

    /// The public ref of a named active staircase; none for an archived one
    /// or a missing or empty name.
    pub fn public_optional(name: Option<&str>, state: LifecycleState) -> (r: Option<String>)
        ensures
            r is Some <==> (state == LifecycleState::Active && name is Some && name->0@.len() > 0),
            r matches Some(s) ==> s@ == "refs/staircases/"@ + name->0@,
    {
        match (state, name) {
            (LifecycleState::Active, Some(name)) => {
                if name.unicode_len() > 0 {
                    Some(Self::public(name))
                } else {
                    None
                }
            },
            _ => None,
        }
    }

    /// The record ref of staircase `id` in the given lifecycle state.
    pub fn record(id: &str, state: LifecycleState) -> (r: String)
        ensures
            r@ == (match state {
                LifecycleState::Active => "refs/staircase-state/"@ + id@ + "/record"@,
                LifecycleState::Archived => "refs/staircase-archive/"@ + id@ + "/record"@,
            }),
    {
        match state {
            LifecycleState::Active => Self::state_record(id),
            LifecycleState::Archived => Self::archive_record(id),
        }
    }

    /// The ref of step `step_key` of staircase `id` in the given lifecycle state.
    pub fn step(id: &str, step_key: &str, state: LifecycleState) -> (r: String)
        ensures
            r@ == (match state {
                LifecycleState::Active => "refs/staircase-state/"@ + id@ + "/steps/"@ + step_key@,
                LifecycleState::Archived => "refs/staircase-archive/"@ + id@ + "/steps/"@
                    + step_key@,
            }),
    {
        match state {
            LifecycleState::Active => Self::state_step(id, step_key),
            LifecycleState::Archived => Self::archive_step(id, step_key),
        }
    }

    /// The record ref of active staircase `id`.
    pub fn state_record(id: &str) -> (r: String)
        ensures
            r@ == "refs/staircase-state/"@ + id@ + "/record"@,
    {
        cat3(STATE_PREFIX, id, "/record")
    }

    /// The descriptor ref of active staircase `id`.
    pub fn state_descriptor(id: &str) -> (r: String)
        ensures
            r@ == "refs/staircase-state/"@ + id@ + "/descriptor"@,
    {
        cat3(STATE_PREFIX, id, "/descriptor")
    }

    /// The ref of step `step_key` of active staircase `id`.
    pub fn state_step(id: &str, step_key: &str) -> (r: String)
        ensures
            r@ == "refs/staircase-state/"@ + id@ + "/steps/"@ + step_key@,
    {
        cat4(STATE_PREFIX, id, "/steps/", step_key)
    }

    /// The record ref of archived staircase `id`.
    pub fn archive_record(id: &str) -> (r: String)
        ensures
            r@ == "refs/staircase-archive/"@ + id@ + "/record"@,
    {
        cat3(ARCHIVE_PREFIX, id, "/record")
    }

    /// The ref of step `step_key` of archived staircase `id`.
    pub fn archive_step(id: &str, step_key: &str) -> (r: String)
        ensures
            r@ == "refs/staircase-archive/"@ + id@ + "/steps/"@ + step_key@,
    {
        cat4(ARCHIVE_PREFIX, id, "/steps/", step_key)
    }

    /// The ref under which archived staircase `id` keeps owned ref `ref_id`.
    pub fn archive_owned(id: &str, ref_id: &str) -> (r: String)
        ensures
            r@ == "refs/staircase-archive/"@ + id@ + "/owned/"@ + ref_id@,
    {
        cat4(ARCHIVE_PREFIX, id, "/owned/", ref_id)
    }

    /// The verification ref of staircase `id`.
    pub fn verification(id: &str) -> (r: String)
        ensures
            r@ == "refs/staircases/"@ + id@ + "/verification"@,
    {
        cat3(PUBLIC_PREFIX, id, "/verification")
    }

    /// The verification ref of revision `rev`.
    pub fn revision_verification(rev: &str) -> (r: String)
        ensures
            r@ == "refs/staircases/by-revision/"@ + rev@ + "/verification"@,
    {
        let r = cat4(PUBLIC_PREFIX, "by-revision/", rev, "/verification");
        proof {
            reveal_strlit("refs/staircases/");
            reveal_strlit("by-revision/");
            reveal_strlit("refs/staircases/by-revision/");
            assert("refs/staircases/"@ + "by-revision/"@ =~= "refs/staircases/by-revision/"@);
        }
        r
    }
}

/// The record ref of a staircase in a lifecycle state.
pub open spec fn spec_record(id: Seq<char>, state: LifecycleState) -> Seq<char> {
    match state {
        LifecycleState::Active => "refs/staircase-state/"@ + id + "/record"@,
        LifecycleState::Archived => "refs/staircase-archive/"@ + id + "/record"@,
    }
}

/// Record refs never collide: two staircases share a record ref only when they
/// have the same id and the same lifecycle state.
pub proof fn law_record_refs_distinct(a: Seq<char>, s: LifecycleState, b: Seq<char>, t: LifecycleState)
    requires
        spec_record(a, s) == spec_record(b, t),
    ensures
        a == b,
        s == t,
{
    reveal_strlit("refs/staircase-state/");
    reveal_strlit("refs/staircase-archive/");
    reveal_strlit("/record");
    let x = spec_record(a, s);
    if s != t {
        assert(x[16] == spec_record(a, s)[16]);
        assert(spec_record(b, t)[16] == x[16]);
        assert(false);
    }
    let p: int = if s == LifecycleState::Active { 21 } else { 23 };
    assert(x.len() == p + a.len() + 7);
    assert(spec_record(b, t).len() == p + b.len() + 7);
    assert(a.len() == b.len());
    assert(a =~= x.subrange(p, p + a.len()));
    assert(b =~= x.subrange(p, p + b.len()));
}

/// `local` is idempotent: the local ref of a local ref is itself.
pub proof fn law_local_idempotent(branch: Seq<char>)
    ensures
        spec_local(spec_local(branch)) == spec_local(branch),
{
    reveal_strlit("refs/heads/");
    if !"refs/heads/"@.is_prefix_of(branch) {
        assert("refs/heads/"@.is_prefix_of("refs/heads/"@ + branch));
    }
}

} // verus!
