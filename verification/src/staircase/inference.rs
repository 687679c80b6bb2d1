//! Inferring the integration boundary of a worktree, and reading a linear
//! staircase out of a family.

use vstd::prelude::*;
use crate::error::{Result, StaircaseError};
use crate::git::repo::{path_join, GitRepo};
use crate::model::{BranchInfo, StaircaseFamily, StaircaseMetadata, Step};
use crate::text::{opt_view, owned, str_eq};

verus! {

/// The branch names tried last, in order, as the integration boundary.
pub open spec fn common_boundaries() -> Seq<Seq<char>> {
    seq![
        "refs/remotes/m/main"@,
        "refs/remotes/origin/main"@,
        "refs/remotes/origin/master"@,
        "main"@,
        "master"@,
        "trunk"@,
        "develop"@,
    ]
}

/// The message when no boundary can be inferred.
pub open spec fn no_boundary_message() -> Seq<char> {
    "Could not infer integration boundary and none was provided. Use --onto to specify one."@
}

/// The upstream recorded for branch `head`: that of the first branch of
/// `branches` named `head`; none when no branch is, or it has none.
pub open spec fn spec_upstream_of(branches: Seq<BranchInfo>, head: Seq<char>) -> Option<Seq<char>>
    decreases branches.len(),
{
    if branches.len() == 0 {
        None
    } else if branches[0].refname@ == head {
        opt_view(branches[0].upstream)
    } else {
        spec_upstream_of(branches.drop_first(), head)
    }
}

/// The upstream recorded for branch `head` (see `spec_upstream_of`).
pub fn upstream_of(branches: &Vec<BranchInfo>, head: &str) -> (r: Option<String>)
    ensures
        opt_view(r) == spec_upstream_of(branches@, head@),
{
    let mut i: usize = 0;
    proof {
        assert(branches@.skip(0) =~= branches@);
    }
    while i < branches.len()
        invariant
            i <= branches@.len(),
            spec_upstream_of(branches@, head@) == spec_upstream_of(branches@.skip(i as int), head@),
        decreases branches@.len() - i,
    {
        proof {
            assert(branches@.skip(i as int)[0] == branches@[i as int]);
            assert(branches@.skip(i as int).drop_first() =~= branches@.skip(i + 1));
        }
        if str_eq(branches[i].refname.as_str(), head) {
            return match &branches[i].upstream {
                Some(u) => Some(u.clone()),
                None => None,
            };
        }
        i += 1;
    }
    None
}

/// Infers the integration boundary of the worktree: the upstream of the
/// checked-out branch; else, on a detached `HEAD` with no rebase, merge or
/// cherry-pick in progress, the commit of `HEAD`; else the full name of the
/// first of the common boundary names that names a commit.
pub fn infer_onto(repo: &GitRepo) -> (r: Result<String>)
    ensures
        r matches Err(StaircaseError::Other(m)) ==> m@ == no_boundary_message(),
{
    let mut inferred: Option<String> = None;
    match repo.current_branch() {
        Ok(Some(head)) => {
            let branches = repo.local_branches(None)?;
            inferred = upstream_of(&branches, head.as_str());
        },
        _ => {},
    }
    if inferred.is_none() {
        match repo.current_branch() {
            Ok(None) => {
                let git_dir = path_join(&repo.workdir, ".git");
                let busy = repo.host.path_exists(&path_join(&git_dir, "rebase-merge"))
                    || repo.host.path_exists(&path_join(&git_dir, "rebase-apply"))
                    || repo.host.path_exists(&path_join(&git_dir, "MERGE_HEAD"))
                    || repo.host.path_exists(&path_join(&git_dir, "CHERRY_PICK_HEAD"));
                if !busy {
                    match repo.resolve_commit("HEAD") {
                        Ok(oid) => {
                            inferred = Some(oid);
                        },
                        Err(_) => {},
                    }
                }
            },
            _ => {},
        }
    }
    if inferred.is_none() {
        let commons: [&str; 7] = [
            "refs/remotes/m/main",
            "refs/remotes/origin/main",
            "refs/remotes/origin/master",
            "main",
            "master",
            "trunk",
            "develop",
        ];
        let mut k: usize = 0;
        while k < 7
            invariant
                k <= 7,
            decreases 7 - k,
        {
            match repo.resolve_commit_opt(commons[k]) {
                Ok(Some(_)) => {
                    match repo.resolve_symbolic_full_name(commons[k]) {
                        Ok(full) => {
                            inferred = Some(full);
                            break;
                        },
                        Err(_) => {},
                    }
                },
                _ => {},
            }
            k += 1;
        }
    }
    match inferred {
        Some(o) => Ok(o),
        None => Err(StaircaseError::Other(owned(
            "Could not infer integration boundary and none was provided. Use --onto to specify one.",
        ))),
    }
}

/// Every step of the family is filed under its own name, as discovery
/// builds families.
pub open spec fn steps_filed_by_name(family: StaircaseFamily) -> bool {
    forall|k: Seq<char>| #[trigger] family.steps.view().contains_key(k) ==> family.steps.view()[k].name@ == k
}

/// Some step of the family lists `name` as a child.
pub open spec fn has_parent(family: StaircaseFamily, name: Seq<char>) -> bool {
    exists|k: Seq<char>| #[trigger] family.steps.view().contains_key(k)
        && crate::git::graph::holds(family.steps.view()[k].children@, name)
}

/// The name of the step of `family` that lists `name` as a child, if any
/// (the first in the family's order).
fn parent_in_family(family: &StaircaseFamily, name: &str) -> (r: Option<String>)
    ensures
        r is None <==> !has_parent(*family, name@),
        r matches Some(p) ==> exists|k: Seq<char>| #[trigger] family.steps.view().contains_key(k)
            && crate::git::graph::holds(family.steps.view()[k].children@, name@) && family.steps.view()[k].name@ == p@,
{
    let entries = family.steps.entries();
    let ghost view = family.steps.view();
    let mut i: usize = 0;
    while i < entries.len()
        invariant
            i <= entries@.len(),
            view == family.steps.view(),
            forall|j: int| 0 <= j < entries@.len() ==> view.contains_key(#[trigger] entries@[j].0@) && view[entries@[j].0@]
                == entries@[j].1,
            forall|k: Seq<char>| #[trigger] view.contains_key(k) ==> exists|j: int| 0 <= j < entries@.len() && entries@[j].0@ == k,
            forall|j: int| 0 <= j < i ==> !crate::git::graph::holds((#[trigger] entries@[j]).1.children@, name@),
        decreases entries@.len() - i,
    {
        let s = &entries[i].1;
        if crate::git::graph::contains_text(&s.children, name) {
            proof {
                assert(view.contains_key(entries@[i as int].0@));
            }
            return Some(s.name.clone());
        }
        i += 1;
    }
    proof {
        if has_parent(*family, name@) {
            let k = choose|k: Seq<char>| #[trigger] view.contains_key(k) && crate::git::graph::holds(view[k].children@, name@);
            let j = choose|j: int| 0 <= j < entries@.len() && entries@[j].0@ == k;
            assert(!crate::git::graph::holds(entries@[j].1.children@, name@));
        }
    }
    None
}

/// A path step by its name, cut and branch.
pub open spec fn step_nb(s: Step) -> (Seq<char>, Seq<char>, Option<Seq<char>>) {
    (s.name@, s.cut@, crate::text::opt_view(s.branch))
}

/// A family step by its name, cut and branch.
pub open spec fn family_nb(f: crate::model::FamilyStep) -> (Seq<char>, Seq<char>, Option<Seq<char>>) {
    (f.name@, f.cut@, crate::text::opt_view(f.branch))
}

/// The linear staircase of `family` that ends at step `target_step_name`:
/// its steps from the root down, found by following each step's parent;
/// none when the family has no such step (or a parent that it lacks). The
/// search follows at most one step more than the family has.
pub fn extract_path_to(family: &StaircaseFamily, target_step_name: &str) -> (r: Option<StaircaseMetadata>)
    ensures
        !family.steps.view().contains_key(target_step_name@) ==> r is None,
        steps_filed_by_name(*family) && family.steps.view().contains_key(target_step_name@) ==> r is Some,
        r matches Some(m) ==> m.name@ == target_step_name@ && m.target == family.target && m.steps@.len() > 0
            && step_nb(m.steps@.last()) == family_nb(family.steps.view()[target_step_name@])
            && forall|i: int| 0 <= i < m.steps@.len() ==> (#[trigger] m.steps@[i]).id@.len() == 0,
{
    let mut path_steps: Vec<Step> = Vec::new();
    let mut current = owned(target_step_name);
    let n = family.steps.len();
    let bound = if n < usize::MAX { n + 1 } else { n };
    let mut fuel: usize = 0;
    loop
        invariant
            fuel <= bound,
            fuel == 0 ==> current@ == target_step_name@,
            fuel > 0 ==> path_steps@.len() > 0,
            path_steps@.len() > 0 ==> family.steps.view().contains_key(target_step_name@)
                && step_nb(path_steps@[0]) == family_nb(family.steps.view()[target_step_name@]),
            forall|i: int| 0 <= i < path_steps@.len() ==> (#[trigger] path_steps@[i]).id@.len() == 0,
            steps_filed_by_name(*family) && family.steps.view().contains_key(target_step_name@)
                ==> family.steps.view().contains_key(current@),
        ensures
            path_steps@.len() > 0,
            family.steps.view().contains_key(target_step_name@),
            step_nb(path_steps@[0]) == family_nb(family.steps.view()[target_step_name@]),
            forall|i: int| 0 <= i < path_steps@.len() ==> (#[trigger] path_steps@[i]).id@.len() == 0,
        decreases bound - fuel,
    {
        let step = match family.steps.get(current.as_str()) {
            Some(s) => s,
            None => return None,
        };
        let ghost before = path_steps@;
        path_steps.push(Step { id: String::new(), name: step.name.clone(), cut: step.cut.clone(), branch: match &step.branch {
            Some(b) => Some(b.clone()),
            None => None,
        } });
        proof {
            if before.len() > 0 {
                assert(path_steps@[0] == before[0]);
            }
        }
        if fuel >= bound || bound - fuel <= 1 {
            break;
        }
        match parent_in_family(family, current.as_str()) {
            Some(p) => {
                current = p;
                fuel += 1;
            },
            None => break,
        }
    }
    let mut ordered: Vec<Step> = Vec::new();
    let mut i: usize = path_steps.len();
    while i > 0
        invariant
            i <= path_steps@.len(),
            ordered@.len() == path_steps@.len() - i,
            path_steps@.len() > 0,
            forall|j: int| 0 <= j < ordered@.len() ==> #[trigger] ordered@[j] == path_steps@[path_steps@.len() - 1 - j],
        decreases i,
    {
        i -= 1;
        ordered.push(path_steps[i].copy());
    }
    proof {
        assert(ordered@.last() == path_steps@[0]);
    }
    Some(StaircaseMetadata {
        landing_policy: None,
        id: crate::fresh::fresh_uuid(),
        name: owned(target_step_name),
        target: family.target.clone(),
        steps: ordered,
        verification_policy: family.verification_policy.clone(),
        primary_branch_layout: None,
        branch_layout_base: None,
        user_metadata: None,
        lifecycle: None,
    })
}

} // verus!
