//! Discovery: finding staircases among the local branches that are not yet
//! integrated, and the structural key that identifies an implicit one.

use vstd::prelude::*;
use vstd::string::StringSliceAdditionalSpecFns;
use vstd::utf8::encode_utf8;
use crate::collections::{SortedMap, StringMap};
use crate::error::{Result, StaircaseError};
use crate::git::repo::GitRepo;
use crate::memoization::{sha256_hex, sha256_hex_of};
use crate::model::{BranchInfo, Discovery, FamilyStep, StaircaseFamily, StaircaseMetadata, Step};
use crate::staircase::graph::{build_branch_graph, collect_family, find_roots};
use crate::staircase::inference::infer_onto;
use crate::staircase::utils::{check_sequential_layout, common_prefix, sequential_branch, spec_sequential_layout};
use crate::staircase::resolved::copy_structure;
use crate::staircase::persistence::structure::step_view;
use crate::text::{cat, opt_view, owned, seq_lt, str_eq, str_lt, strip_prefix, views};

verus! {

/// `n` as eight big-endian bytes (`u64::to_be_bytes`).
pub open spec fn be64(n: u64) -> Seq<u8> {
    seq![
        (n / 72057594037927936 % 256) as u8,
        (n / 281474976710656 % 256) as u8,
        (n / 1099511627776 % 256) as u8,
        (n / 4294967296 % 256) as u8,
        (n / 16777216 % 256) as u8,
        (n / 65536 % 256) as u8,
        (n / 256 % 256) as u8,
        (n % 256) as u8,
    ]
}

/// Appends `n` as eight big-endian bytes.
fn push_be64(out: &mut Vec<u8>, n: u64)
    ensures
        final(out)@ == old(out)@ + be64(n),
{
    out.push((n / 72057594037927936 % 256) as u8);
    out.push((n / 281474976710656 % 256) as u8);
    out.push((n / 1099511627776 % 256) as u8);
    out.push((n / 4294967296 % 256) as u8);
    out.push((n / 16777216 % 256) as u8);
    out.push((n / 65536 % 256) as u8);
    out.push((n / 256 % 256) as u8);
    out.push((n % 256) as u8);
    proof {
        assert(out@ =~= old(out)@ + be64(n));
    }
}

/// Appends `bytes`.
fn push_bytes(out: &mut Vec<u8>, bytes: &[u8])
    ensures
        final(out)@ == old(out)@ + bytes@,
{
    let mut i: usize = 0;
    while i < bytes.len()
        invariant
            i <= bytes@.len(),
            out@ == old(out)@ + bytes@.take(i as int),
        decreases bytes@.len() - i,
    {
        out.push(bytes[i]);
        proof {
            assert(bytes@.take(i + 1) =~= bytes@.take(i as int).push(bytes@[i as int]));
        }
        i += 1;
    }
    proof {
        assert(bytes@.take(i as int) =~= bytes@);
    }
}

/// One field of the structural key input: the label's length and bytes,
/// then the value's length and bytes.
pub open spec fn key_field(label: Seq<u8>, value: Seq<u8>) -> Seq<u8> {
    be64(label.len() as u64) + label + be64(value.len() as u64) + value
}

/// Appends a field (see [`key_field`]).
fn push_field(out: &mut Vec<u8>, label: &str, value: &str)
    ensures
        final(out)@ == old(out)@ + key_field(label.spec_bytes(), value.spec_bytes()),
{
    let l = label.as_bytes();
    let v = value.as_bytes();
    push_be64(out, l.len() as u64);
    push_bytes(out, l);
    push_be64(out, v.len() as u64);
    push_bytes(out, v);
    proof {
        assert(out@ =~= old(out)@ + key_field(label.spec_bytes(), value.spec_bytes()));
    }
}

/// The fixed part of the structural key input, with the number of cuts.
pub open spec fn key_header(identity: Seq<char>, format: Seq<char>, integration: Seq<char>, count: nat) -> Seq<u8> {
    "git-staircase\\0implicit-structural-key\\0v1\\0".spec_bytes()
        + key_field("repository-identity".spec_bytes(), encode_utf8(identity))
        + key_field("object-format".spec_bytes(), encode_utf8(format))
        + key_field("integration-context".spec_bytes(), encode_utf8(integration))
        + be64(count as u64)
}

/// One `cut` field for each of `cuts`, in order.
pub open spec fn key_cuts(cuts: Seq<Seq<char>>) -> Seq<u8>
    decreases cuts.len(),
{
    if cuts.len() == 0 {
        seq![]
    } else {
        key_cuts(cuts.drop_last()) + key_field("cut".spec_bytes(), encode_utf8(cuts.last()))
    }
}

/// The input hashed into the structural key of an implicit staircase.
pub open spec fn key_input(identity: Seq<char>, format: Seq<char>, integration: Seq<char>, cuts: Seq<Seq<char>>) -> Seq<u8> {
    key_header(identity, format, integration, cuts.len()) + key_cuts(cuts)
}

/// The structural key of an implicit staircase: `implicit@` and the SHA-256
/// of its repository identity, object format, integration commit and the
/// commits of its steps (each resolved), in a length-prefixed encoding.
#[verifier::rlimit(40)]
pub fn compute_implicit_id(repo: &GitRepo, integration_oid: &str, steps: &[Step]) -> (r: Result<String>)
    ensures
        r matches Ok(k) ==> k@.len() >= 9 && k@.take(9) == "implicit@"@,
        r matches Ok(k) ==> exists|identity: Seq<char>, format: Seq<char>, integration: Seq<char>, cuts: Seq<Seq<char>>|
            cuts.len() == steps@.len() && k@ == "implicit@"@ + sha256_hex(#[trigger] key_input(identity, format, integration, cuts)),
{
    let repository_identity = repo.repository_identity()?;
    let object_format = repo.get_object_format()?;
    let integration = repo.resolve_commit(integration_oid)?;
    let mut cuts: Vec<String> = Vec::new();
    let mut i: usize = 0;
    while i < steps.len()
        invariant
            i <= steps@.len(),
            cuts@.len() == i,
        decreases steps@.len() - i,
    {
        cuts.push(repo.resolve_commit(steps[i].cut.as_str())?);
        i += 1;
    }
    let mut input: Vec<u8> = Vec::new();
    push_bytes(&mut input, "git-staircase\\0implicit-structural-key\\0v1\\0".as_bytes());
    push_field(&mut input, "repository-identity", repository_identity.as_str());
    push_field(&mut input, "object-format", object_format.as_str());
    push_field(&mut input, "integration-context", integration.as_str());
    push_be64(&mut input, cuts.len() as u64);
    let ghost header = input@;
    proof {
        assert(header =~= key_header(repository_identity@, object_format@, integration@, cuts@.len()));
    }
    let mut j: usize = 0;
    while j < cuts.len()
        invariant
            j <= cuts@.len(),
            input@ == header + key_cuts(views(cuts@).take(j as int)),
        decreases cuts@.len() - j,
    {
        push_field(&mut input, "cut", cuts[j].as_str());
        proof {
            let next = views(cuts@).take(j + 1);
            assert(next.drop_last() =~= views(cuts@).take(j as int));
            assert(next.last() == cuts@[j as int]@);
            assert(input@ =~= header + key_cuts(next));
        }
        j += 1;
    }
    proof {
        assert(views(cuts@).take(cuts@.len() as int) =~= views(cuts@));
    }
    let digest = sha256_hex_of(input.as_slice());
    let r = cat("implicit@", digest.as_str());
    proof {
        reveal_strlit("implicit@");
        assert(r@.take(9) =~= "implicit@"@);
        assert(input@ == key_input(repository_identity@, object_format@, integration@, views(cuts@)));
        assert(views(cuts@).len() == steps@.len());
    }
    Ok(r)
}

/// The branches that are not integrated: every branch but `onto_final` whose
/// commit is not an ancestor of `onto_oid`, in order.
pub fn filter_active_branches(repo: &GitRepo, branches: Vec<BranchInfo>, onto_oid: &str, onto_final: &str) -> (r: Result<Vec<BranchInfo>>)
    ensures
        r matches Ok(v) ==> forall|i: int| 0 <= i < v@.len() ==> (#[trigger] v@[i]).refname@ != onto_final@
            && exists|j: int| 0 <= j < branches@.len() && branches@[j] == v@[i],
{
    let mut active: Vec<BranchInfo> = Vec::new();
    let mut i: usize = 0;
    while i < branches.len()
        invariant
            i <= branches@.len(),
            forall|k: int| 0 <= k < active@.len() ==> (#[trigger] active@[k]).refname@ != onto_final@
                && exists|j: int| 0 <= j < branches@.len() && branches@[j] == active@[k],
        decreases branches@.len() - i,
    {
        let b = &branches[i];
        if !str_eq(b.refname.as_str(), onto_final) {
            if !repo.is_ancestor(b.oid.as_str(), onto_oid)? {
                let ghost before = active@;
                active.push(b.copy());
                proof {
                    assert forall|k: int| 0 <= k < active@.len() implies (#[trigger] active@[k]).refname@ != onto_final@
                        && exists|j: int| 0 <= j < branches@.len() && branches@[j] == active@[k] by {
                        if k < before.len() {
                            assert(active@[k] == before[k]);
                        } else {
                            assert(branches@[i as int] == active@[k]);
                        }
                    }
                }
            }
        }
        i += 1;
    }
    Ok(active)
}

/// A branch name without `refs/heads/`.
pub fn short_branch(refname: &str) -> (r: String)
    ensures
        r@ == if "refs/heads/"@.is_prefix_of(refname@) { refname@.skip(11) } else { refname@ },
{
    proof {
        reveal_strlit("refs/heads/");
    }
    match strip_prefix(refname, "refs/heads/") {
        Some(s) => s,
        None => owned(refname),
    }
}

/// The first branch of `bs` with refname `refname`, if any.
pub open spec fn spec_find_branch(bs: Seq<BranchInfo>, refname: Seq<char>) -> Option<BranchInfo>
    decreases bs.len(),
{
    if bs.len() == 0 {
        None
    } else if bs[0].refname@ == refname {
        Some(bs[0])
    } else {
        spec_find_branch(bs.drop_first(), refname)
    }
}

/// The first branch of `active_branches` with refname `refname`, if any.
fn find_branch<'a>(active_branches: &'a [BranchInfo], refname: &str) -> (r: Option<&'a BranchInfo>)
    ensures
        match r { Some(b) => Some(*b), None => None } == spec_find_branch(active_branches@, refname@),
{
    let mut i: usize = 0;
    proof {
        assert(active_branches@.skip(0) =~= active_branches@);
    }
    while i < active_branches.len()
        invariant
            i <= active_branches@.len(),
            spec_find_branch(active_branches@, refname@) == spec_find_branch(active_branches@.skip(i as int), refname@),
        decreases active_branches@.len() - i,
    {
        proof {
            assert(active_branches@.skip(i as int)[0] == active_branches@[i as int]);
            assert(active_branches@.skip(i as int).drop_first() =~= active_branches@.skip(i + 1));
        }
        if str_eq(active_branches[i].refname.as_str(), refname) {
            return Some(&active_branches[i]);
        }
        i += 1;
    }
    None
}

/// A family step by its name, cut, branch and children.
pub open spec fn family_step_view(f: FamilyStep) -> (Seq<char>, Seq<char>, Option<Seq<char>>, Seq<Seq<char>>) {
    (f.name@, f.cut@, opt_view(f.branch), views(f.children@))
}

/// The step that family branch `branch` stands for: named by and on its
/// short name, at its commit (empty when not among `active`), with the
/// short names of its children.
pub open spec fn spec_family_step(
    branch: Seq<char>,
    children: Map<Seq<char>, Vec<String>>,
    active: Seq<BranchInfo>,
) -> (Seq<char>, Seq<char>, Option<Seq<char>>, Seq<Seq<char>>) {
    let short = spec_short_branch(branch);
    let cut = match spec_find_branch(active, branch) {
        Some(b) => b.oid@,
        None => seq![],
    };
    let kids = if children.contains_key(branch) {
        views(children[branch]@).map_values(|c: Seq<char>| spec_short_branch(c))
    } else {
        seq![]
    };
    (short, cut, Some(short), kids)
}

/// The steps of a family by short name (a later branch with the same short
/// name wins).
pub open spec fn spec_family_steps(
    branches: Seq<Seq<char>>,
    children: Map<Seq<char>, Vec<String>>,
    active: Seq<BranchInfo>,
) -> Map<Seq<char>, (Seq<char>, Seq<char>, Option<Seq<char>>, Seq<Seq<char>>)>
    decreases branches.len(),
{
    if branches.len() == 0 {
        Map::empty()
    } else {
        spec_family_steps(branches.drop_last(), children, active).insert(
            spec_short_branch(branches.last()),
            spec_family_step(branches.last(), children, active),
        )
    }
}

/// The family of branches under `root` as an ambiguous staircase: each
/// branch a step named by its short name, with its commit and its children
/// (see [`spec_family_steps`]); its one root is `root`'s short name, its
/// name `Family starting at <root>`, its id fresh.
pub fn build_ambiguous_family(
    root: &str,
    family_branches: &Vec<String>,
    children_map: &StringMap<Vec<String>>,
    active_branches: &[BranchInfo],
    onto_final: &str,
) -> (r: StaircaseFamily)
    ensures
        r.target@ == onto_final@,
        r.roots@.len() == 1,
        r.roots@[0]@ == spec_short_branch(root@),
        r.name@ == "Family starting at "@ + spec_short_branch(root@),
        r.verification_policy is None,
        r.steps.view().dom() == spec_family_steps(views(family_branches@), children_map@, active_branches@).dom(),
        forall|k: Seq<char>| #[trigger] r.steps.view().contains_key(k) ==> family_step_view(r.steps.view()[k])
            == spec_family_steps(views(family_branches@), children_map@, active_branches@)[k],
{
    let ghost fb = views(family_branches@);
    let ghost cm = children_map@;
    let ghost act = active_branches@;
    let mut steps: StringMap<FamilyStep> = StringMap::new();
    let mut i: usize = 0;
    proof {
        assert(fb.take(0) =~= seq![]);
        assert(steps.view().dom() =~= spec_family_steps(fb.take(0), cm, act).dom());
    }
    while i < family_branches.len()
        invariant
            fb == views(family_branches@),
            cm == children_map@,
            act == active_branches@,
            i <= family_branches@.len(),
            steps.view().dom() == spec_family_steps(fb.take(i as int), cm, act).dom(),
            forall|k: Seq<char>| #[trigger] steps.view().contains_key(k) ==> family_step_view(steps.view()[k])
                == spec_family_steps(fb.take(i as int), cm, act)[k],
        decreases family_branches@.len() - i,
    {
        let branch = family_branches[i].as_str();
        let cut = match find_branch(active_branches, branch) {
            Some(b) => b.oid.clone(),
            None => String::new(),
        };
        let short_name = short_branch(branch);
        let mut children: Vec<String> = Vec::new();
        match children_map.get(branch) {
            Some(cs) => {
                let mut k: usize = 0;
                while k < cs.len()
                    invariant
                        k <= cs@.len(),
                        views(children@) == views(cs@).take(k as int).map_values(|c: Seq<char>| spec_short_branch(c)),
                    decreases cs@.len() - k,
                {
                    let ghost before = children@;
                    let short_child = short_branch(cs[k].as_str());
                    children.push(short_child);
                    proof {
                        crate::text::lemma_views_push(before, short_child);
                        assert(short_child@ == spec_short_branch(cs@[k as int]@));
                        assert(views(cs@).take(k + 1) =~= views(cs@).take(k as int).push(cs@[k as int]@));
                        assert(views(cs@).take(k + 1).map_values(|c: Seq<char>| spec_short_branch(c)) =~= views(cs@).take(
                            k as int,
                        ).map_values(|c: Seq<char>| spec_short_branch(c)).push(spec_short_branch(cs@[k as int]@)));
                        assert(views(children@) =~= views(cs@).take(k + 1).map_values(|c: Seq<char>| spec_short_branch(c)));
                    }
                    k += 1;
                }
                proof {
                    assert(views(cs@).take(cs@.len() as int) =~= views(cs@));
                }
            },
            None => {
                proof {
                    assert(views(children@) =~= seq![]);
                }
            },
        }
        let step = FamilyStep {
            name: short_name.clone(),
            cut,
            branch: Some(short_name.clone()),
            children,
        };
        proof {
            assert(fb[i as int] == branch@);
            assert(family_step_view(step) == spec_family_step(branch@, cm, act));
        }
        let ghost prev = steps.view();
        steps.insert(short_name, step);
        proof {
            let t = fb.take(i + 1);
            assert(t.drop_last() =~= fb.take(i as int));
            assert(t.last() == branch@);
            assert(steps.view().dom() =~= spec_family_steps(t, cm, act).dom());
        }
        i += 1;
    }
    proof {
        assert(fb.take(fb.len() as int) =~= fb);
    }
    let root_short = short_branch(root);
    let mut roots: Vec<String> = Vec::new();
    roots.push(root_short.clone());
    let name = cat("Family starting at ", root_short.as_str());
    proof {
        reveal_strlit("Family starting at ");
    }
    StaircaseFamily {
        id: crate::fresh::fresh_uuid(),
        name,
        target: owned(onto_final),
        steps,
        roots,
        verification_policy: None,
    }
}

/// A branch name without `refs/heads/`.
pub open spec fn spec_short_branch(refname: Seq<char>) -> Seq<char> {
    if "refs/heads/"@.is_prefix_of(refname) { refname.skip(11) } else { refname }
}

/// The step that the branch `refname` stands for in a discovered path: no
/// id, named by and on its short name, at its commit (empty when the branch
/// is not among `active`).
pub open spec fn spec_path_step(active: Seq<BranchInfo>, refname: Seq<char>) -> (Seq<char>, Seq<char>, Seq<char>, Option<Seq<char>>) {
    let cut = match spec_find_branch(active, refname) {
        Some(b) => b.oid@,
        None => seq![],
    };
    (seq![], spec_short_branch(refname), cut, Some(spec_short_branch(refname)))
}

/// The steps of a path by their views.
pub open spec fn step_views(steps: Seq<Step>) -> Seq<(Seq<char>, Seq<char>, Seq<char>, Option<Seq<char>>)> {
    steps.map_values(|s: Step| step_view(s))
}

/// Paths by the views of their steps.
pub open spec fn path_views(paths: Seq<Vec<Step>>) -> Seq<Seq<(Seq<char>, Seq<char>, Seq<char>, Option<Seq<char>>)>> {
    paths.map_values(|p: Vec<Step>| step_views(p@))
}

/// The complete paths found from `curr` below the path `prefix`: `prefix`
/// with `curr`'s step, followed down each child in turn while `fuel` lasts;
/// a branch without children (or out of fuel) ends its path.
pub open spec fn spec_found_paths(
    prefix: Seq<(Seq<char>, Seq<char>, Seq<char>, Option<Seq<char>>)>,
    curr: Seq<char>,
    children: Map<Seq<char>, Vec<String>>,
    active: Seq<BranchInfo>,
    fuel: nat,
) -> Seq<Seq<(Seq<char>, Seq<char>, Seq<char>, Option<Seq<char>>)>>
    decreases fuel, 0nat,
{
    let here = prefix.push(spec_path_step(active, curr));
    if children.contains_key(curr) && children[curr]@.len() > 0 && fuel > 0 {
        spec_found_in(here, views(children[curr]@), children, active, (fuel - 1) as nat)
    } else {
        seq![here]
    }
}

/// The complete paths found below `prefix` from each of `kids`, in order.
pub open spec fn spec_found_in(
    prefix: Seq<(Seq<char>, Seq<char>, Seq<char>, Option<Seq<char>>)>,
    kids: Seq<Seq<char>>,
    children: Map<Seq<char>, Vec<String>>,
    active: Seq<BranchInfo>,
    fuel: nat,
) -> Seq<Seq<(Seq<char>, Seq<char>, Seq<char>, Option<Seq<char>>)>>
    decreases fuel, kids.len(),
{
    if kids.len() == 0 {
        seq![]
    } else {
        spec_found_in(prefix, kids.drop_last(), children, active, fuel) + spec_found_paths(
            prefix,
            kids.last(),
            children,
            active,
            fuel,
        )
    }
}

/// The step that a branch stands for in a discovered path (see [`spec_path_step`]).
fn path_step(active_branches: &[BranchInfo], refname: &str) -> (s: Step)
    ensures
        step_view(s) == spec_path_step(active_branches@, refname@),
{
    let cut = match find_branch(active_branches, refname) {
        Some(b) => b.oid.clone(),
        None => String::new(),
    };
    let short_name = short_branch(refname);
    Step { id: String::new(), name: short_name.clone(), cut, branch: Some(short_name) }
}

/// A copy of the steps of a path.
fn copy_path(steps: &Vec<Step>) -> (r: Vec<Step>)
    ensures
        r@ == steps@,
{
    let mut out: Vec<Step> = Vec::new();
    let mut i: usize = 0;
    while i < steps.len()
        invariant
            i <= steps@.len(),
            out@ == steps@.take(i as int),
        decreases steps@.len() - i,
    {
        out.push(steps[i].copy());
        proof {
            assert(out@ =~= steps@.take(i + 1));
        }
        i += 1;
    }
    proof {
        assert(steps@.take(steps@.len() as int) =~= steps@);
    }
    out
}

/// The depth bound of a path search over `children`: one more than the
/// number of branches with children, which no path without a cycle exceeds.
pub open spec fn path_fuel(children: Map<Seq<char>, Vec<String>>) -> nat {
    if children.len() < usize::MAX { children.len() + 1 } else { children.len() }
}

/// Every path from `root` down the child lists to a branch without
/// children, depth first, each as the steps of its branches (see
/// [`spec_found_paths`]; the depth is bounded by [`path_fuel`]).
pub fn extract_all_linear_paths(root: &str, children_map: &StringMap<Vec<String>>, active_branches: &[BranchInfo]) -> (r: Vec<Vec<Step>>)
    ensures
        path_views(r@) == spec_found_paths(seq![], root@, children_map@, active_branches@, path_fuel(children_map@)),
{
    let mut paths: Vec<Vec<Step>> = Vec::new();
    let mut current: Vec<Step> = Vec::new();
    let n = children_map.len();
    let bound = if n < usize::MAX { n + 1 } else { n };
    find_paths_recursive(root, children_map, active_branches, &mut current, &mut paths, bound);
    proof {
        assert(step_views(Seq::<Step>::empty()) =~= seq![]);
        assert(path_views(Seq::<Vec<Step>>::empty()) =~= seq![]);
        assert(path_views(paths@) =~= seq![] + path_views(paths@));
    }
    paths
}

/// Extends the current path with `curr` and records every complete path
/// below it (see [`spec_found_paths`]); `fuel` bounds the depth, which a
/// cycle in the child lists would otherwise make unbounded.
pub fn find_paths_recursive(
    curr: &str,
    children_map: &StringMap<Vec<String>>,
    active_branches: &[BranchInfo],
    current_path: &mut Vec<Step>,
    paths: &mut Vec<Vec<Step>>,
    fuel: usize,
)
    ensures
        final(current_path)@ == old(current_path)@,
        path_views(final(paths)@) == path_views(old(paths)@) + spec_found_paths(
            step_views(old(current_path)@),
            curr@,
            children_map@,
            active_branches@,
            fuel as nat,
        ),
    decreases fuel,
{
    let ghost cm = children_map@;
    let ghost active = active_branches@;
    let ghost prefix = step_views(old(current_path)@);
    let step = path_step(active_branches, curr);
    current_path.push(step);
    let ghost here_path = current_path@;
    let ghost here = prefix.push(spec_path_step(active, curr@));
    proof {
        assert(step_views(here_path) =~= here);
    }
    let ghost start = path_views(paths@);
    match children_map.get(curr) {
        Some(children) => {
            if children.len() > 0 && fuel > 0 {
                let mut i: usize = 0;
                proof {
                    assert(views(children@).take(0) =~= seq![]);
                    assert(start + spec_found_in(here, views(children@).take(0), cm, active, (fuel - 1) as nat) =~= start);
                }
                while i < children.len()
                    invariant
                        cm == children_map@,
                        active == active_branches@,
                        cm.contains_key(curr@) && *children == cm[curr@],
                        i <= children@.len(),
                        fuel > 0,
                        current_path@ == here_path,
                        step_views(here_path) == here,
                        path_views(paths@) == start + spec_found_in(here, views(children@).take(i as int), cm, active, (fuel - 1) as nat),
                    decreases children@.len() - i,
                {
                    let ghost before = path_views(paths@);
                    find_paths_recursive(children[i].as_str(), children_map, active_branches, current_path, paths, fuel - 1);
                    proof {
                        let kids = views(children@).take(i + 1);
                        assert(kids.drop_last() =~= views(children@).take(i as int));
                        assert(kids.last() == children@[i as int]@);
                        assert(path_views(paths@) =~= start + spec_found_in(here, kids, cm, active, (fuel - 1) as nat));
                    }
                    i += 1;
                }
                proof {
                    assert(views(children@).take(children@.len() as int) =~= views(children@));
                }
            } else {
                let ghost before = paths@;
                paths.push(copy_path(current_path));
                proof {
                    assert(path_views(paths@) =~= path_views(before).push(here));
                    assert(path_views(before).push(here) =~= start + seq![here]);
                }
            }
        },
        None => {
            let ghost before = paths@;
            paths.push(copy_path(current_path));
            proof {
                assert(path_views(paths@) =~= path_views(before).push(here));
                assert(path_views(before).push(here) =~= start + seq![here]);
            }
        },
    }
    current_path.pop();
    proof {
        assert(current_path@ =~= old(current_path)@);
    }
}

/// `branches` in order of refname (a stable insertion sort): the same
/// branches, each as often, in non-decreasing refname order.
pub fn sort_by_refname(branches: Vec<BranchInfo>) -> (r: Vec<BranchInfo>)
    ensures
        r@.len() == branches@.len(),
        r@.to_multiset() == branches@.to_multiset(),
        forall|i: int, j: int| 0 <= i < j < r@.len() ==> !crate::text::seq_lt(#[trigger] r@[j].refname@, #[trigger] r@[i].refname@),
{
    let mut out: Vec<BranchInfo> = Vec::new();
    let mut i: usize = 0;
    proof {
        broadcast use vstd::seq_lib::group_to_multiset_ensures;
        assert(branches@.take(0) =~= Seq::<BranchInfo>::empty());
        assert(out@ =~= Seq::<BranchInfo>::empty());
    }
    while i < branches.len()
        invariant
            i <= branches@.len(),
            out@.len() == i,
            out@.to_multiset() == branches@.take(i as int).to_multiset(),
            forall|a: int, b: int| 0 <= a < b < out@.len() ==> !crate::text::seq_lt(#[trigger] out@[b].refname@, #[trigger] out@[a].refname@),
        decreases branches@.len() - i,
    {
        let item = branches[i].copy();
        let mut p: usize = out.len();
        while p > 0 && str_lt(item.refname.as_str(), out[p - 1].refname.as_str())
            invariant
                p <= out@.len(),
                forall|k: int| p <= k < out@.len() ==> crate::text::seq_lt(item.refname@, #[trigger] out@[k].refname@),
            decreases p,
        {
            p -= 1;
        }
        let ghost before = out@;
        proof {
            if p > 0 {
                assert(!crate::text::seq_lt(item.refname@, before[p - 1].refname@));
            }
        }
        out.insert(p, item);
        proof {
            broadcast use vstd::seq_lib::group_to_multiset_ensures;
            broadcast use vstd::multiset::group_multiset_axioms;
            assert(out@.remove(p as int) =~= before);
            assert(out@[p as int] == branches@[i as int]);
            let m = out@.to_multiset();
            assert(out@.remove(p as int).to_multiset() =~= m.remove(branches@[i as int]));
            assert(m.count(branches@[i as int]) > 0);
            assert(m =~= m.remove(branches@[i as int]).insert(branches@[i as int]));
            assert(branches@.take(i + 1) =~= branches@.take(i as int).push(branches@[i as int]));
            assert(out@.to_multiset() =~= branches@.take(i + 1).to_multiset());
        }
        proof {
            assert forall|a: int, b: int| 0 <= a < b < out@.len() implies !crate::text::seq_lt(#[trigger] out@[b].refname@, #[trigger] out@[a].refname@) by {
                if b < p {
                    assert(out@[a] == before[a] && out@[b] == before[b]);
                } else if b == p {
                    assert(out@[a] == before[a]);
                    if a < p - 1 {
                        assert(!crate::text::seq_lt(before[p - 1].refname@, before[a].refname@));
                        if crate::text::seq_lt(item.refname@, before[a].refname@) {
                            crate::text::lemma_seq_lt_total(before[p - 1].refname@, item.refname@);
                            if before[p - 1].refname@ == item.refname@ {
                            } else if crate::text::seq_lt(item.refname@, before[p - 1].refname@) {
                            } else {
                                crate::text::lemma_seq_lt_transitive(before[p - 1].refname@, item.refname@, before[a].refname@);
                            }
                        }
                    }
                } else if a == p {
                    assert(out@[b] == before[b - 1]);
                    assert(crate::text::seq_lt(item.refname@, before[b - 1].refname@));
                    crate::text::lemma_seq_lt_asymmetric(item.refname@, before[b - 1].refname@);
                } else if a < p {
                    assert(out@[a] == before[a] && out@[b] == before[b - 1]);
                } else {
                    assert(out@[a] == before[a - 1] && out@[b] == before[b - 1]);
                }
            }
        }
        i += 1;
    }
    proof {
        assert(branches@.take(branches@.len() as int) =~= branches@);
    }
    out
}

/// The key a discovery is listed under: a linear staircase's structural
/// key, or `family:` and a family's name.
pub open spec fn discovery_key(d: Discovery) -> Seq<char> {
    match d {
        Discovery::Linear(m) => m.id@,
        Discovery::Ambiguous(f) => "family:"@ + f.name@,
    }
}

/// The target of a linear discovery.
pub open spec fn discovery_target(d: Discovery) -> Seq<char> {
    match d {
        Discovery::Linear(m) => m.target@,
        Discovery::Ambiguous(f) => f.target@,
    }
}

/// `d` is a linear staircase on `target` keyed by a structural key.
pub open spec fn linear_on(d: Discovery, target: Seq<char>) -> bool {
    d matches Discovery::Linear(m) && m.target@ == target && m.id@.len() >= 9 && m.id@.take(9) == "implicit@"@
        && layout_matches_steps(m)
}

/// The branch layout recorded for a discovered staircase is the one its
/// steps, bottom first, follow: `sequential-v1` on base `b` exactly when
/// the top step is on `b` and every other step `i` (from 0) on `b-(i+1)`.
pub open spec fn layout_matches_steps(m: StaircaseMetadata) -> bool {
    &&& opt_view(m.branch_layout_base) == spec_sequential_layout(m.steps@)
    &&& m.primary_branch_layout is Some <==> m.branch_layout_base is Some
    &&& m.primary_branch_layout matches Some(l) ==> l@ == "sequential-v1"@
}

/// A discovery recorded in the sequential layout on base `b` lists its steps
/// bottom first: the top (last) step is on `b` and the step at position `i`
/// below it on `b-(i+1)`, so the step on `b-1` comes first.
pub proof fn law_sequential_discovery_bottom_first(m: StaircaseMetadata)
    requires
        layout_matches_steps(m),
        m.branch_layout_base is Some,
    ensures
        m.steps@.len() > 0,
        m.steps@.last().branch matches Some(t) && t@ == m.branch_layout_base->0@,
        forall|i: int| 0 <= i < m.steps@.len() - 1 ==> (#[trigger] m.steps@[i].branch matches Some(b)
            && b@ == sequential_branch(m.branch_layout_base->0@, (i + 1) as nat)),
{
}

/// Discovers the staircases among the local branches under `refs` (all by
/// default) that are not integrated into `onto` (its full name; inferred
/// when not given): the branch graph's roots each give a family (with
/// `families`) or every linear path below them, named by the common prefix of
/// their branches (or the last one) and keyed by their structural key; one
/// discovery per key (the smallest name wins) and per family name, in key order.
pub fn discover(repo: &GitRepo, onto: Option<&str>, refs: Option<&str>, families: bool) -> (r: Result<Vec<Discovery>>)
    ensures
        r matches Ok(ds) ==> forall|i: int, j: int| 0 <= i < j < ds@.len() ==> seq_lt(
            #[trigger] discovery_key(ds@[i]),
            #[trigger] discovery_key(ds@[j]),
        ),
        r matches Ok(ds) ==> !families ==> forall|i: int| 0 <= i < ds@.len() ==> linear_on(#[trigger] ds@[i], discovery_target(ds@[0])),
{
    let branches = repo.local_branches(refs)?;
    let onto_final = match onto {
        Some(o) => match repo.resolve_symbolic_full_name(o) {
            Ok(full) => full,
            Err(_) => owned(o),
        },
        None => infer_onto(repo)?,
    };
    let onto_oid = match repo.resolve_commit(onto_final.as_str()) {
        Ok(oid) => oid,
        Err(_) => {
            let mut m = cat("Onto ref '", onto_final.as_str());
            m.append("' not found");
            return Err(StaircaseError::Other(m));
        },
    };
    let mut all_oids: Vec<&str> = Vec::new();
    let mut i: usize = 0;
    while i < branches.len()
        invariant
            i <= branches@.len(),
        decreases branches@.len() - i,
    {
        all_oids.push(branches[i].oid.as_str());
        i += 1;
    }
    let excluded = [onto_oid.as_str()];
    let _ = repo.preload_ancestry_ext(all_oids.as_slice(), &excluded);
    let active = filter_active_branches(repo, branches, onto_oid.as_str(), onto_final.as_str())?;
    let active = sort_by_refname(active);
    let (parents, children_map) = build_branch_graph(repo, active.as_slice())?;
    let roots = find_roots(active.as_slice(), &parents);
    let mut discoveries: Vec<Discovery> = Vec::new();
    let mut discovered: Vec<String> = Vec::new();
    let mut k: usize = 0;
    while k < roots.len()
        invariant
            k <= roots@.len(),
            !families ==> forall|j: int| 0 <= j < discoveries@.len() ==> linear_on(#[trigger] discoveries@[j], onto_final@),
        decreases roots@.len() - k,
    {
        let root = roots[k].as_str();
        if !crate::git::graph::contains_text(&discovered, root) {
            let family_branches = collect_family(root, &children_map);
            let mut f: usize = 0;
            while f < family_branches.len()
                invariant
                    f <= family_branches@.len(),
                decreases family_branches@.len() - f,
            {
                discovered.push(family_branches[f].clone());
                f += 1;
            }
            if families {
                let family = build_ambiguous_family(root, &family_branches, &children_map, active.as_slice(), onto_final.as_str());
                discoveries.push(Discovery::Ambiguous(family));
            } else {
                let paths = extract_all_linear_paths(root, &children_map, active.as_slice());
                let mut p: usize = 0;
                while p < paths.len()
                    invariant
                        p <= paths@.len(),
                        !families,
                        forall|j: int| 0 <= j < discoveries@.len() ==> linear_on(#[trigger] discoveries@[j], onto_final@),
                    decreases paths@.len() - p,
                {
                    let steps = &paths[p];
                    let mut names: Vec<&str> = Vec::new();
                    let mut q: usize = 0;
                    while q < steps.len()
                        invariant
                            q <= steps@.len(),
                        decreases steps@.len() - q,
                    {
                        names.push(steps[q].name.as_str());
                        q += 1;
                    }
                    let name = match common_prefix(names.as_slice()) {
                        Some(n) => n,
                        None => if steps.len() > 0 {
                            steps[steps.len() - 1].name.clone()
                        } else {
                            String::new()
                        },
                    };
                    let (layout, layout_base) = match check_sequential_layout(steps.as_slice()) {
                        Some(b) => (Some(owned("sequential-v1")), Some(b)),
                        None => (None, None),
                    };
                    let id = compute_implicit_id(repo, onto_oid.as_str(), steps.as_slice())?;
                    let mut copied: Vec<Step> = Vec::new();
                    let mut c: usize = 0;
                    while c < steps.len()
                        invariant
                            c <= steps@.len(),
                            copied@.len() == c,
                            forall|j: int| 0 <= j < c ==> #[trigger] copied@[j] == steps@[j],
                        decreases steps@.len() - c,
                    {
                        copied.push(steps[c].copy());
                        c += 1;
                    }
                    proof {
                        assert(copied@ =~= steps@);
                    }
                    discoveries.push(Discovery::Linear(StaircaseMetadata {
                        landing_policy: None,
                        id,
                        name,
                        target: onto_final.clone(),
                        steps: copied,
                        verification_policy: None,
                        primary_branch_layout: layout,
                        branch_layout_base: layout_base,
                        user_metadata: None,
                        lifecycle: None,
                    }));
                    p += 1;
                }
            }
        }
        k += 1;
    }
    let mut canonical: SortedMap<Discovery> = SortedMap::new();
    proof {
        reveal_strlit("family:");
    }
    let mut d: usize = 0;
    while d < discoveries.len()
        invariant
            d <= discoveries@.len(),
            forall|k: Seq<char>| #[trigger] canonical.view().contains_key(k) ==> discovery_key(canonical.view()[k]) == k,
            !families ==> forall|j: int| 0 <= j < discoveries@.len() ==> linear_on(#[trigger] discoveries@[j], onto_final@),
            !families ==> forall|k: Seq<char>| #[trigger] canonical.view().contains_key(k) ==> linear_on(canonical.view()[k], onto_final@),
        decreases discoveries@.len() - d,
    {
        match &discoveries[d] {
            Discovery::Linear(candidate) => {
                let replacement: Option<Discovery> = match canonical.get(candidate.id.as_str()) {
                    Some(Discovery::Linear(current)) => {
                        if str_lt(candidate.name.as_str(), current.name.as_str()) {
                            let mut updated = copy_structure(current);
                            updated.id = current.id.clone();
                            updated.target = current.target.clone();
                            updated.name = candidate.name.clone();
                            Some(Discovery::Linear(updated))
                        } else {
                            None
                        }
                    },
                    Some(_) => None,
                    None => {
                        let mut fresh = copy_structure(candidate);
                        fresh.id = candidate.id.clone();
                        fresh.target = candidate.target.clone();
                        Some(Discovery::Linear(fresh))
                    },
                };
                match replacement {
                    Some(v) => canonical.insert(candidate.id.clone(), v),
                    None => {},
                }
            },
            Discovery::Ambiguous(family) => {
                let mut copy = family.clone();
                copy.name = family.name.clone();
                canonical.insert(cat("family:", family.name.as_str()), Discovery::Ambiguous(copy));
            },
        }
        d += 1;
    }
    let ghost cv = canonical.view();
    let mut entries = canonical.into_entries();
    let ghost all = entries@;
    let mut out: Vec<Discovery> = Vec::new();
    while entries.len() > 0
        invariant
            entries@.len() <= all.len(),
            entries@ == all.skip(all.len() - entries@.len()),
            out@.len() == all.len() - entries@.len(),
            forall|j: int| 0 <= j < out@.len() ==> #[trigger] out@[j] == all[j].1,
        decreases entries@.len(),
    {
        let ghost idx = all.len() - entries@.len();
        let (_, v) = entries.remove(0);
        proof {
            assert(all[idx].1 == v);
            assert(entries@ =~= all.skip(all.len() - entries@.len()));
        }
        out.push(v);
    }
    proof {
        assert forall|i: int| 0 <= i < out@.len() implies discovery_key(#[trigger] out@[i]) == all[i].0@ by {
            assert(cv.contains_key(all[i].0@));
        }
        if !families {
            assert forall|i: int| 0 <= i < out@.len() implies linear_on(#[trigger] out@[i], onto_final@) by {
                assert(cv.contains_key(all[i].0@));
            }
        }
    }
    Ok(out)
}

} // verus!
