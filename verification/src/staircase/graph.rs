//! The branch graph: each active branch's nearest active ancestor, the
//! branches without one, and the family of branches under a root.

use vstd::prelude::*;
use crate::collections::StringMap;
use crate::error::{Result, StaircaseError};
use crate::git::graph::{count_unset, holds, lemma_count_unset_set, parent_step, reachable};
use crate::git::repo::GitRepo;
use crate::model::BranchInfo;
use crate::text::str_eq;

verus! {

/// `x` is the refname of one of `branches`.
pub open spec fn has_refname(branches: Seq<BranchInfo>, x: Seq<char>) -> bool {
    exists|i: int| 0 <= i < branches.len() && branches[i].refname@ == x
}

/// No two of `branches` share a refname.
pub open spec fn refnames_distinct(branches: Seq<BranchInfo>) -> bool {
    forall|i: int, j: int| 0 <= i < branches.len() && 0 <= j < branches.len() && i != j
        ==> branches[i].refname@ != branches[j].refname@
}

/// `p` may be recorded as the parent of `c`: both are among `branches`, they
/// have different refnames and point at different commits.
pub open spec fn parent_candidate(branches: Seq<BranchInfo>, c: Seq<char>, p: Seq<char>) -> bool {
    exists|i: int, j: int| 0 <= i < branches.len() && 0 <= j < branches.len()
        && #[trigger] branches[i].refname@ == c && #[trigger] branches[j].refname@ == p
        && c != p && branches[i].oid@ != branches[j].oid@
}

/// The shape of a branch graph over `branches`: every recorded parent is a
/// candidate, every child list is non-empty and lists branches, and, when
/// refnames are distinct, `c` is listed under `p` exactly when `p` is the
/// parent of `c`.
pub open spec fn graph_shape(
    branches: Seq<BranchInfo>,
    parents: Map<Seq<char>, String>,
    children: Map<Seq<char>, Vec<String>>,
) -> bool {
    &&& forall|c: Seq<char>| #[trigger] parents.contains_key(c) ==> parent_candidate(branches, c, parents[c]@)
    &&& forall|p: Seq<char>| #[trigger] children.contains_key(p) ==> children[p]@.len() > 0
    &&& forall|p: Seq<char>, k: int| children.contains_key(p) && 0 <= k < children[p]@.len()
        ==> parent_candidate(branches, #[trigger] children[p]@[k]@, p)
    &&& refnames_distinct(branches) ==> forall|c: Seq<char>| #[trigger] parents.contains_key(c)
        ==> children.contains_key(parents[c]@) && holds(children[parents[c]@]@, c)
    &&& refnames_distinct(branches) ==> forall|p: Seq<char>, c: Seq<char>|
        children.contains_key(p) && #[trigger] holds(children[p]@, c) ==> parents.contains_key(c) && parents[c]@ == p
}

/// A copy of a list of strings.
pub fn copy_strings(v: &Vec<String>) -> (r: Vec<String>)
    ensures
        r@ == v@,
{
    let mut r: Vec<String> = Vec::new();
    let mut i: usize = 0;
    while i < v.len()
        invariant
            i <= v@.len(),
            r@ == v@.take(i as int),
        decreases v@.len() - i,
    {
        r.push(v[i].clone());
        assert(r@ =~= v@.take(i + 1));
        i += 1;
    }
    assert(r@ =~= v@);
    r
}

/// `j` may be the parent of `i`: another refname at another commit.
pub open spec fn candidate_of(bs: Seq<BranchInfo>, i: int, j: int) -> bool {
    bs[i].refname@ != bs[j].refname@ && bs[j].oid@ != bs[i].oid@
}

/// The parent chosen for branch `i` among the first `j` branches, given
/// the ancestry answers `anc` (`anc[(x, y)]`: the commit of `x` is an
/// ancestor of that of `y`): each candidate that is an ancestor of `i`
/// replaces the current choice when that choice is its own ancestor, so
/// the nearest ancestor is kept.
pub open spec fn chosen_parent(bs: Seq<BranchInfo>, anc: Map<(int, int), bool>, i: int, j: int) -> Option<int>
    decreases j,
{
    if j <= 0 {
        None
    } else {
        let prev = chosen_parent(bs, anc, i, j - 1);
        let q = j - 1;
        if candidate_of(bs, i, q) && anc[(q, i)] {
            match prev {
                Some(b) => if anc[(b, q)] { Some(q) } else { prev },
                None => Some(q),
            }
        } else {
            prev
        }
    }
}

/// A chosen parent is a candidate that is an ancestor of the branch, and
/// there is none exactly when no candidate is.
pub proof fn lemma_chosen_parent(bs: Seq<BranchInfo>, anc: Map<(int, int), bool>, i: int, j: int)
    ensures
        chosen_parent(bs, anc, i, j) matches Some(b) ==> 0 <= b < j && candidate_of(bs, i, b) && anc[(b, i)],
        chosen_parent(bs, anc, i, j) is None <==> forall|q: int| 0 <= q < j ==> !(candidate_of(bs, i, q) && #[trigger] anc[(q, i)]),
    decreases j,
{
    if j > 0 {
        lemma_chosen_parent(bs, anc, i, j - 1);
    }
}

/// `parents` records the parent chosen for every one of `bs` under the
/// answers `ans[i]` (see [`parents_chosen`]).
pub open spec fn all_parents_chosen(bs: Seq<BranchInfo>, ans: Seq<Map<(int, int), bool>>, parents: Map<Seq<char>, String>) -> bool {
    ans.len() == bs.len() && parents_chosen(bs, ans, parents, bs.len() as int)
}

/// The choice among the first `j` branches reads only answers about them.
proof fn lemma_chosen_parent_frame(bs: Seq<BranchInfo>, a1: Map<(int, int), bool>, a2: Map<(int, int), bool>, i: int, j: int)
    requires
        forall|x: int, y: int| 0 <= x < j && (0 <= y < j || y == i) ==> #[trigger] a1[(x, y)] == a2[(x, y)],
    ensures
        chosen_parent(bs, a1, i, j) == chosen_parent(bs, a2, i, j),
    decreases j,
{
    if j > 0 {
        lemma_chosen_parent_frame(bs, a1, a2, i, j - 1);
        let q = j - 1;
        assert(a1[(q, i)] == a2[(q, i)]);
        if let Some(b) = chosen_parent(bs, a1, i, j - 1) {
            lemma_chosen_parent(bs, a1, i, j - 1);
            assert(a1[(b, q)] == a2[(b, q)]);
        }
    }
}

/// `parents` records, for each of `bs` (with distinct refnames), the
/// parent chosen under the answers `ans[i]`, and no parent when none is.
pub open spec fn parents_chosen(bs: Seq<BranchInfo>, ans: Seq<Map<(int, int), bool>>, parents: Map<Seq<char>, String>, n: int) -> bool {
    forall|k: int| 0 <= k < n ==> match #[trigger] chosen_parent(bs, ans[k], k, bs.len() as int) {
        Some(b) => parents.contains_key(bs[k].refname@) && parents[bs[k].refname@]@ == bs[b].refname@,
        None => !parents.contains_key(bs[k].refname@),
    }
}

/// Builds the branch graph of `active_branches`: a branch's parent is, among
/// the other branches at a different commit that Git reports as its
/// ancestors, the one that no later candidate descends from; the children of
/// a branch are listed in the order of `active_branches`.
pub fn build_branch_graph(repo: &GitRepo, active_branches: &[BranchInfo]) -> (r: Result<(StringMap<String>, StringMap<Vec<String>>)>)
    ensures
        r matches Ok((parents, children)) ==> graph_shape(active_branches@, parents.view(), children.view()),
        r matches Err(e) ==> (e is Io || e is GitCommandFailed),
        r matches Ok((parents, _)) ==> (refnames_distinct(active_branches@) ==> exists|ans: Seq<Map<(int, int), bool>>|
            #[trigger] all_parents_chosen(active_branches@, ans, parents.view())),
{
    let ghost bs = active_branches@;
    let ghost mut ans: Seq<Map<(int, int), bool>> = seq![];
    let mut parents: StringMap<String> = StringMap::new();
    let mut children: StringMap<Vec<String>> = StringMap::new();
    let mut i: usize = 0;
    while i < active_branches.len()
        invariant
            i <= bs.len(),
            bs == active_branches@,
            ans.len() == i,
            graph_shape(bs, parents.view(), children.view()),
            forall|c: Seq<char>| #[trigger] parents.view().contains_key(c) ==> exists|k: int| 0 <= k < i && bs[k].refname@ == c,
            refnames_distinct(bs) ==> parents_chosen(bs, ans, parents.view(), i as int),
        decreases bs.len() - i,
    {
        let child = &active_branches[i];
        let mut best: Option<usize> = None;
        let ghost mut a: Map<(int, int), bool> = Map::empty();
        let mut j: usize = 0;
        while j < active_branches.len()
            invariant
                i < bs.len(),
                bs == active_branches@,
                *child == bs[i as int],
                j <= bs.len(),
                best matches Some(b) ==> b < bs.len() && bs[b as int].refname@ != child.refname@
                    && bs[b as int].oid@ != child.oid@,
                match best { Some(b) => Some(b as int), None => None } == chosen_parent(bs, a, i as int, j as int),
            decreases bs.len() - j,
        {
            let parent = &active_branches[j];
            let ghost prev_a = a;
            if !str_eq(child.refname.as_str(), parent.refname.as_str()) && !str_eq(parent.oid.as_str(), child.oid.as_str()) {
                assert(j != i);
                let up = repo.is_ancestor(parent.oid.as_str(), child.oid.as_str())?;
                proof {
                    a = a.insert((j as int, i as int), up);
                }
                if up {
                    match best {
                        Some(b) => {
                            let nearer = repo.is_ancestor(active_branches[b].oid.as_str(), parent.oid.as_str())?;
                            proof {
                                a = a.insert((b as int, j as int), nearer);
                            }
                            if nearer {
                                best = Some(j);
                            }
                        },
                        None => {
                            best = Some(j);
                        },
                    }
                }
            }
            proof {
                lemma_chosen_parent_frame(bs, prev_a, a, i as int, j as int);
                if let Some(b) = chosen_parent(bs, prev_a, i as int, j as int) {
                    lemma_chosen_parent(bs, prev_a, i as int, j as int);
                }
            }
            j += 1;
        }
        proof {
            lemma_chosen_parent(bs, a, i as int, bs.len() as int);
        }
        let ghost prev_ans = ans;
        proof {
            ans = ans.push(a);
            assert forall|k: int| 0 <= k < i implies #[trigger] chosen_parent(bs, ans[k], k, bs.len() as int)
                == chosen_parent(bs, prev_ans[k], k, bs.len() as int) by {
                assert(ans[k] == prev_ans[k]);
            }
        }
        match best {
            Some(b) => {
                let p = &active_branches[b];
                let ghost c = child.refname@;
                let ghost pr = p.refname@;
                let ghost old_parents = parents.view();
                let ghost old_children = children.view();
                proof {
                    assert(parent_candidate(bs, c, pr)) by {
                        assert(bs[i as int].refname@ == c && bs[b as int].refname@ == pr);
                    }
                    if refnames_distinct(bs) {
                        assert(!old_parents.contains_key(c)) by {
                            if old_parents.contains_key(c) {
                                let k = choose|k: int| 0 <= k < i && bs[k].refname@ == c;
                                assert(bs[i as int].refname@ == c);
                            }
                        }
                    }
                }
                parents.insert(child.refname.clone(), p.refname.clone());
                let mut list = match children.get(p.refname.as_str()) {
                    Some(v) => copy_strings(v),
                    None => Vec::new(),
                };
                let ghost before_list = list@;
                list.push(child.refname.clone());
                children.insert(p.refname.clone(), list);
                proof {
                    let pv = parents.view();
                    let cv = children.view();
                    assert(pv == old_parents.insert(c, pv[c]));
                    assert(cv[pr]@ == before_list.push(cv[pr]@.last()));
                    assert(cv[pr]@.last()@ == c);
                    assert(before_list == (if old_children.contains_key(pr) { old_children[pr]@ } else { Seq::<String>::empty() }));
                    assert forall|q: Seq<char>, k: int| cv.contains_key(q) && 0 <= k < cv[q]@.len()
                        implies parent_candidate(bs, #[trigger] cv[q]@[k]@, q) by {
                        if q == pr && k < before_list.len() {
                            assert(cv[q]@[k] == old_children[q]@[k]);
                        }
                    }
                    assert forall|x: Seq<char>| #[trigger] pv.contains_key(x) implies exists|k: int| 0 <= k < i + 1 && bs[k].refname@ == x by {
                        if x == c {
                            assert(bs[i as int].refname@ == x);
                        } else {
                            assert(old_parents.contains_key(x));
                            let k = choose|k: int| 0 <= k < i && bs[k].refname@ == x;
                            assert(0 <= k < i + 1 && bs[k].refname@ == x);
                        }
                    }
                    if refnames_distinct(bs) {
                        assert forall|x: Seq<char>| #[trigger] pv.contains_key(x) implies
                            cv.contains_key(pv[x]@) && holds(cv[pv[x]@]@, x) by {
                            if x == c {
                                assert(cv[pr]@[cv[pr]@.len() - 1]@ == x);
                            } else {
                                assert(old_parents.contains_key(x));
                                let q = old_parents[x]@;
                                assert(holds(old_children[q]@, x));
                                let w = choose|w: int| 0 <= w < old_children[q]@.len() && old_children[q]@[w]@ == x;
                                if q == pr {
                                    assert(cv[q]@[w] == old_children[q]@[w]);
                                }
                            }
                        }
                        assert forall|q: Seq<char>, x: Seq<char>| cv.contains_key(q) && #[trigger] holds(cv[q]@, x)
                            implies pv.contains_key(x) && pv[x]@ == q by {
                            let w = choose|w: int| 0 <= w < cv[q]@.len() && cv[q]@[w]@ == x;
                            if q == pr && w == cv[q]@.len() - 1 {
                                assert(x == c);
                            } else {
                                assert(old_children.contains_key(q));
                                assert(cv[q]@[w] == old_children[q]@[w]);
                                assert(holds(old_children[q]@, x));
                                assert(old_parents.contains_key(x) && old_parents[x]@ == q);
                                assert(x != c);
                            }
                        }
                    }
                }
            },
            None => {},
        }
        i += 1;
    }
    proof {
        assert(refnames_distinct(bs) ==> all_parents_chosen(active_branches@, ans, parents.view()));
    }
    let ghost pv = parents.view();
    let out: Result<(StringMap<String>, StringMap<Vec<String>>)> = Ok((parents, children));
    proof {
        assert(out matches Ok((p, _)) && p.view() == pv);
    }
    out
}

/// The refnames of `branches` that have no parent in `parents`, in order.
pub open spec fn roots_of(branches: Seq<BranchInfo>, parents: Map<Seq<char>, String>) -> Seq<Seq<char>>
    decreases branches.len(),
{
    if branches.len() == 0 {
        seq![]
    } else {
        let rest = roots_of(branches.drop_last(), parents);
        if parents.contains_key(branches.last().refname@) {
            rest
        } else {
            rest.push(branches.last().refname@)
        }
    }
}

/// The active branches without a parent, in the order of `active_branches`.
pub fn find_roots(active_branches: &[BranchInfo], parents: &StringMap<String>) -> (roots: Vec<String>)
    ensures
        crate::text::views(roots@) == roots_of(active_branches@, parents.view()),
{
    let mut roots: Vec<String> = Vec::new();
    let mut i: usize = 0;
    while i < active_branches.len()
        invariant
            i <= active_branches@.len(),
            crate::text::views(roots@) == roots_of(active_branches@.take(i as int), parents.view()),
        decreases active_branches@.len() - i,
    {
        let b = &active_branches[i];
        proof {
            assert(active_branches@.take(i + 1).drop_last() =~= active_branches@.take(i as int));
        }
        if !parents.contains_key(b.refname.as_str()) {
            let ghost before = roots@;
            roots.push(b.refname.clone());
            assert(crate::text::views(roots@) =~= crate::text::views(before).push(b.refname@));
        }
        i += 1;
    }
    assert(active_branches@.take(i as int) =~= active_branches@);
    roots
}

/// The family under `root`: `root` first, then, depth first, every branch
/// that the child lists of `children_map` lead to from it, each once.
pub fn collect_family(root: &str, children_map: &StringMap<Vec<String>>) -> (family: Vec<String>)
    ensures
        family@.len() > 0 && family@[0]@ == root@,
        forall|i: int, j: int| 0 <= i < j < family@.len() ==> family@[i]@ != family@[j]@,
        forall|x: Seq<char>| holds(family@, x) <==> reachable(children_map.view(), root@, x),
{
    let entries = children_map.entries();
    let ghost n = entries@.len();
    let ghost mut expanded: Seq<bool> = Seq::new(n, |k: int| false);
    let ghost mut remaining: nat = count_unset(expanded);
    proof {
        assert(count_unset(expanded) == count_unset(expanded));
    }
    let mut family: Vec<String> = Vec::new();
    let mut stack: Vec<String> = Vec::new();
    stack.push(crate::text::owned(root));
    proof {
        assert(stack@[0]@ == root@);
        let c = seq![root@];
        assert(crate::git::graph::is_chain(children_map.view(), c));
    }
    loop
        invariant
            n == entries@.len(),
            expanded.len() == n,
            remaining == count_unset(expanded),
            crate::collections::keys_distinct(entries@),
            forall|i: int| 0 <= i < entries@.len() ==> children_map.view().contains_key(#[trigger] entries@[i].0@)
                && children_map.view()[entries@[i].0@] == entries@[i].1,
            forall|q: Seq<char>| #[trigger] children_map.view().contains_key(q) ==> exists|i: int| 0 <= i < entries@.len() && entries@[i].0@ == q,
            family@.len() == 0 ==> stack@.len() == 1 && stack@[0]@ == root@,
            family@.len() > 0 ==> family@[0]@ == root@,
            forall|i: int, j: int| 0 <= i < j < family@.len() ==> family@[i]@ != family@[j]@,
            forall|i: int| 0 <= i < family@.len() ==> reachable(children_map.view(), root@, #[trigger] family@[i]@),
            forall|i: int| 0 <= i < stack@.len() ==> reachable(children_map.view(), root@, #[trigger] stack@[i]@),
            forall|k: int| 0 <= k < n ==> (#[trigger] expanded[k] <==> holds(family@, entries@[k].0@)),
            forall|k: int, j: int| 0 <= k < n && #[trigger] expanded[k] && 0 <= j < entries@[k].1@.len()
                ==> holds(family@, #[trigger] entries@[k].1@[j]@) || holds(stack@, entries@[k].1@[j]@),
        ensures
            family@.len() > 0 && family@[0]@ == root@,
            forall|i: int, j: int| 0 <= i < j < family@.len() ==> family@[i]@ != family@[j]@,
            forall|i: int| 0 <= i < family@.len() ==> reachable(children_map.view(), root@, #[trigger] family@[i]@),
            forall|k: int| 0 <= k < n ==> (#[trigger] expanded[k] <==> holds(family@, entries@[k].0@)),
            forall|k: int, j: int| 0 <= k < n && #[trigger] expanded[k] && 0 <= j < entries@[k].1@.len()
                ==> holds(family@, #[trigger] entries@[k].1@[j]@),
        decreases remaining, stack@.len(),
    {
        let ghost old_stack = stack@;
        let ghost old_family = family@;
        let ghost old_expanded = expanded;
        let current = match stack.pop() {
            Some(x) => x,
            None => break,
        };
        if !crate::git::graph::contains_text(&family, current.as_str()) {
            let kids = children_map.get(current.as_str());
            proof {
                if children_map.view().contains_key(current@) {
                    let k = choose|k: int| 0 <= k < entries@.len() && entries@[k].0@ == current@;
                    assert(!old_expanded[k]);
                    lemma_count_unset_set(old_expanded, k);
                    expanded = old_expanded.update(k, true);
                    remaining = count_unset(expanded);
                }
            }
            family.push(current.clone());
            match kids {
                Some(children) => {
                    let mut j: usize = 0;
                    while j < children.len()
                        invariant
                            j <= children@.len(),
                            forall|m: int| 0 <= m < j ==> holds(stack@, #[trigger] children@[m]@),
                            stack@.len() >= old_stack.len() - 1,
                            forall|m: int| 0 <= m < old_stack.len() - 1 ==> #[trigger] stack@[m] == old_stack[m],
                            forall|m: int| 0 <= m < stack@.len() ==> reachable(children_map.view(), root@, #[trigger] stack@[m]@),
                            reachable(children_map.view(), root@, current@),
                            children_map.view().contains_key(current@) && children_map.view()[current@] == *children,
                        decreases children@.len() - j,
                    {
                        let ghost before = stack@;
                        proof {
                            assert(holds(children_map.view()[current@]@, children@[j as int]@));
                            assert(parent_step(children_map.view(), current@, children@[j as int]@));
                            crate::git::graph::lemma_reachable_step(children_map.view(), root@, current@, children@[j as int]@);
                        }
                        stack.push(children[j].clone());
                        proof {
                            assert forall|m: int| 0 <= m < j + 1 implies holds(stack@, #[trigger] children@[m]@) by {
                                if m < j {
                                    let w = choose|w: int| 0 <= w < before.len() && before[w]@ == children@[m]@;
                                    assert(stack@[w] == before[w]);
                                } else {
                                    assert(stack@[before.len() as int]@ == children@[m]@);
                                }
                            }
                        }
                        j += 1;
                    }
                },
                None => {},
            }
            proof {
                let fl = old_family.len() as int;
                assert(family@[fl]@ == current@);
                assert forall|i: int, j: int| 0 <= i < j < family@.len() implies family@[i]@ != family@[j]@ by {
                    if j == fl {
                        assert(family@[i] == old_family[i]);
                    } else {
                        assert(family@[i] == old_family[i] && family@[j] == old_family[j]);
                    }
                }
                assert forall|p: Seq<char>| holds(old_family, p) implies holds(family@, p) by {
                    let w = choose|w: int| 0 <= w < old_family.len() && old_family[w]@ == p;
                    assert(family@[w] == old_family[w]);
                }
                assert forall|k: int| 0 <= k < n implies (#[trigger] expanded[k] <==> holds(family@, entries@[k].0@)) by {
                    if holds(family@, entries@[k].0@) && entries@[k].0@ != current@ {
                        let w = choose|w: int| 0 <= w < family@.len() && family@[w]@ == entries@[k].0@;
                        assert(w < fl);
                        assert(old_family[w]@ == entries@[k].0@);
                        assert(holds(old_family, entries@[k].0@));
                    }
                    if entries@[k].0@ == current@ {
                        assert(children_map.view().contains_key(current@));
                    }
                }
                assert forall|p: Seq<char>| holds(old_stack, p) implies holds(family@, p) || holds(stack@, p) by {
                    let w = choose|w: int| 0 <= w < old_stack.len() && old_stack[w]@ == p;
                    if w == old_stack.len() - 1 {
                        assert(family@[fl]@ == p);
                    } else {
                        assert(stack@[w] == old_stack[w]);
                    }
                }
                assert forall|k: int, j: int| 0 <= k < n && #[trigger] expanded[k] && 0 <= j < entries@[k].1@.len()
                    implies holds(family@, #[trigger] entries@[k].1@[j]@) || holds(stack@, entries@[k].1@[j]@) by {
                    if !old_expanded[k] {
                        assert(entries@[k].0@ == current@);
                        assert(children_map.view()[current@] == entries@[k].1);
                    }
                }
            }
        } else {
            proof {
                assert forall|p: Seq<char>| holds(old_stack, p) implies holds(family@, p) || holds(stack@, p) by {
                    let w = choose|w: int| 0 <= w < old_stack.len() && old_stack[w]@ == p;
                    if w < old_stack.len() - 1 {
                        assert(stack@[w] == old_stack[w]);
                    }
                }
            }
        }
    }
    proof {
        assert forall|x: Seq<char>| holds(family@, x) <==> reachable(children_map.view(), root@, x) by {
            if holds(family@, x) {
                let w = choose|w: int| 0 <= w < family@.len() && family@[w]@ == x;
                assert(reachable(children_map.view(), root@, family@[w]@));
            }
            if reachable(children_map.view(), root@, x) {
                assert forall|i: int, j: int| 0 <= i < family@.len() && children_map.view().contains_key(#[trigger] family@[i]@)
                    && 0 <= j < children_map.view()[family@[i]@]@.len() implies holds(family@, #[trigger] children_map.view()[family@[i]@]@[j]@) by {
                    let q = family@[i]@;
                    let k = choose|k: int| 0 <= k < entries@.len() && entries@[k].0@ == q;
                    assert(holds(family@, entries@[k].0@));
                    assert(expanded[k]);
                }
                assert(holds(family@, root@)) by {
                    assert(family@[0]@ == root@);
                }
                crate::git::graph::lemma_closed_holds_reachable(children_map.view(), family@, root@, x);
            }
        }
    }
    family
}

} // verus!
