//! Commit-graph queries: ancestry (with preloading), merge bases and commit ranges.

use vstd::prelude::*;
use super::command::{command_line, output_text_of_some_run};
use super::repo::GitRepo;
use crate::collections::StringMap;
use crate::error::{Result, StaircaseError};
use crate::text::{cat, cat3, cat4, opt_view, lines, lines_of, owned, str_eq, views, words, words_of};
use super::types::CommandOutput;

verus! {

/// Whether some string of `v` has the characters `x`.
pub open spec fn holds(v: Seq<String>, x: Seq<char>) -> bool {
    exists|i: int| 0 <= i < v.len() && v[i]@ == x
}

/// Number of unset flags.
pub open spec fn count_unset(s: Seq<bool>) -> nat
    decreases s.len(),
{
    if s.len() == 0 {
        0
    } else {
        count_unset(s.drop_last()) + if s.last() { 0nat } else { 1nat }
    }
}

pub proof fn lemma_count_unset_set(s: Seq<bool>, k: int)
    requires
        0 <= k < s.len(),
        !s[k],
    ensures
        count_unset(s.update(k, true)) + 1 == count_unset(s),
    decreases s.len(),
{
    if k == s.len() - 1 {
        assert(s.update(k, true).drop_last() =~= s.drop_last());
    } else {
        lemma_count_unset_set(s.drop_last(), k);
        assert(s.update(k, true).drop_last() =~= s.drop_last().update(k, true));
    }
}

/// `y` is a parent of `x` in `parents`.
pub open spec fn parent_step(parents: Map<Seq<char>, Vec<String>>, x: Seq<char>, y: Seq<char>) -> bool {
    parents.contains_key(x) && holds(parents[x]@, y)
}

/// `c` is a non-empty chain of commits, each a parent of the one before.
pub open spec fn is_chain(parents: Map<Seq<char>, Vec<String>>, c: Seq<Seq<char>>) -> bool {
    &&& c.len() > 0
    &&& forall|i: int| 0 <= i < c.len() - 1 ==> #[trigger] parent_step(parents, c[i], c[i + 1])
}

/// `x` is `start` or an ancestor of it through the parent lists of `parents`.
pub open spec fn reachable(parents: Map<Seq<char>, Vec<String>>, start: Seq<char>, x: Seq<char>) -> bool {
    exists|c: Seq<Seq<char>>| #[trigger] is_chain(parents, c) && c[0] == start && c.last() == x
}

proof fn lemma_reachable_start(parents: Map<Seq<char>, Vec<String>>, start: Seq<char>)
    ensures
        reachable(parents, start, start),
{
    let c = seq![start];
    assert(is_chain(parents, c));
}

pub proof fn lemma_reachable_step(parents: Map<Seq<char>, Vec<String>>, start: Seq<char>, x: Seq<char>, y: Seq<char>)
    requires
        reachable(parents, start, x),
        parent_step(parents, x, y),
    ensures
        reachable(parents, start, y),
{
    let c = choose|c: Seq<Seq<char>>| #[trigger] is_chain(parents, c) && c[0] == start && c.last() == x;
    let d = c.push(y);
    assert forall|i: int| 0 <= i < d.len() - 1 implies #[trigger] parent_step(parents, d[i], d[i + 1]) by {
        if i < c.len() - 1 {
            assert(parent_step(parents, c[i], c[i + 1]));
        }
    }
    assert(is_chain(parents, d));
}

/// A set of commits that holds `c[k]` and every parent of its members holds
/// the last commit of chain `c`.
proof fn lemma_closed_holds_chain_end(parents: Map<Seq<char>, Vec<String>>, found: Seq<String>, c: Seq<Seq<char>>, k: int)
    requires
        0 <= k < c.len(),
        is_chain(parents, c),
        holds(found, c[k]),
        forall|i: int, j: int| 0 <= i < found.len() && parents.contains_key(#[trigger] found[i]@)
            && 0 <= j < parents[found[i]@]@.len() ==> holds(found, #[trigger] parents[found[i]@]@[j]@),
    ensures
        holds(found, c.last()),
    decreases c.len() - k,
{
    if k < c.len() - 1 {
        assert(parent_step(parents, c[k], c[k + 1]));
        let w = choose|w: int| 0 <= w < found.len() && found[w]@ == c[k];
        let j = choose|j: int| 0 <= j < parents[c[k]]@.len() && parents[c[k]]@[j]@ == c[k + 1];
        assert(holds(found, parents[found[w]@]@[j]@));
        lemma_closed_holds_chain_end(parents, found, c, k + 1);
    }
}

/// A set of commits that holds `start` and every parent of its members holds
/// every commit reachable from `start`.
pub proof fn lemma_closed_holds_reachable(parents: Map<Seq<char>, Vec<String>>, found: Seq<String>, start: Seq<char>, x: Seq<char>)
    requires
        holds(found, start),
        forall|i: int, j: int| 0 <= i < found.len() && parents.contains_key(#[trigger] found[i]@)
            && 0 <= j < parents[found[i]@]@.len() ==> holds(found, #[trigger] parents[found[i]@]@[j]@),
        reachable(parents, start, x),
    ensures
        holds(found, x),
{
    let c = choose|c: Seq<Seq<char>>| #[trigger] is_chain(parents, c) && c[0] == start && c.last() == x;
    lemma_closed_holds_chain_end(parents, found, c, 0);
}

/// The commits reachable from `start` through the parent lists of `parents`:
/// the result holds `start`, and with every commit that is a key of `parents`
/// it holds all of that commit's parents; it holds nothing else.
pub fn ancestry_closure(parents: &StringMap<Vec<String>>, start: &str) -> (found: Vec<String>)
    ensures
        holds(found@, start@),
        forall|i: int, j: int| 0 <= i < found@.len() && parents.view().contains_key(#[trigger] found@[i]@)
            && 0 <= j < parents.view()[found@[i]@]@.len() ==> holds(found@, #[trigger] parents.view()[found@[i]@]@[j]@),
        forall|x: Seq<char>| holds(found@, x) <==> reachable(parents.view(), start@, x),
{
    let entries = parents.entries();
    let n = entries.len();
    let mut expanded: Vec<bool> = Vec::new();
    while expanded.len() < n
        invariant
            expanded@.len() <= n,
            forall|k: int| 0 <= k < expanded@.len() ==> !expanded@[k],
        decreases n - expanded@.len(),
    {
        expanded.push(false);
    }
    let ghost mut remaining: nat = count_unset(expanded@);
    let mut found: Vec<String> = Vec::new();
    let mut queue: Vec<String> = Vec::new();
    queue.push(owned(start));
    proof {
        assert(queue@[0]@ == start@);
        lemma_reachable_start(parents.view(), start@);
    }
    loop
        invariant
            n == entries@.len(),
            expanded@.len() == n,
            remaining == count_unset(expanded@),
            crate::collections::keys_distinct(entries@),
            forall|i: int| 0 <= i < entries@.len() ==> parents.view().contains_key(#[trigger] entries@[i].0@)
                && parents.view()[entries@[i].0@] == entries@[i].1,
            forall|q: Seq<char>| #[trigger] parents.view().contains_key(q) ==> exists|i: int| 0 <= i < entries@.len() && entries@[i].0@ == q,
            holds(found@, start@) || holds(queue@, start@),
            forall|i: int| 0 <= i < found@.len() ==> reachable(parents.view(), start@, #[trigger] found@[i]@),
            forall|i: int| 0 <= i < queue@.len() ==> reachable(parents.view(), start@, #[trigger] queue@[i]@),
            forall|k: int, j: int| 0 <= k < n && #[trigger] expanded@[k] && 0 <= j < entries@[k].1@.len()
                ==> holds(found@, #[trigger] entries@[k].1@[j]@) || holds(queue@, entries@[k].1@[j]@),
            forall|i: int, k: int| 0 <= i < found@.len() && 0 <= k < n && #[trigger] entries@[k].0@ == #[trigger] found@[i]@
                ==> expanded@[k],
        ensures
            queue@.len() == 0,
            n == entries@.len(),
            holds(found@, start@),
            forall|i: int| 0 <= i < found@.len() ==> reachable(parents.view(), start@, #[trigger] found@[i]@),
            forall|i: int| 0 <= i < entries@.len() ==> parents.view().contains_key(#[trigger] entries@[i].0@)
                && parents.view()[entries@[i].0@] == entries@[i].1,
            forall|q: Seq<char>| #[trigger] parents.view().contains_key(q) ==> exists|i: int| 0 <= i < entries@.len() && entries@[i].0@ == q,
            forall|k: int, j: int| 0 <= k < n && #[trigger] expanded@[k] && 0 <= j < entries@[k].1@.len()
                ==> holds(found@, #[trigger] entries@[k].1@[j]@),
            forall|i: int, k: int| 0 <= i < found@.len() && 0 <= k < n && #[trigger] entries@[k].0@ == #[trigger] found@[i]@
                ==> expanded@[k],
        decreases remaining, queue@.len(),
    {
        let ghost old_queue = queue@;
        let ghost old_found = found@;
        let ghost old_expanded = expanded@;
        let x = match queue.pop() {
            Some(x) => x,
            None => break,
        };
        let mut k: usize = 0;
        while k < n && !str_eq(entries[k].0.as_str(), x.as_str())
            invariant
                n == entries@.len(),
                k <= n,
                forall|m: int| 0 <= m < k ==> entries@[m].0@ != x@,
            decreases n - k,
        {
            k += 1;
        }
        if k < n && !expanded[k] {
            proof {
                lemma_count_unset_set(expanded@, k as int);
            }
            expanded.set(k, true);
            proof {
                remaining = count_unset(expanded@);
            }
            let ps = &entries[k].1;
            let mut j: usize = 0;
            while j < ps.len()
                invariant
                    j <= ps@.len(),
                    forall|m: int| 0 <= m < j ==> holds(queue@, #[trigger] ps@[m]@),
                    queue@.len() >= old_queue.len() - 1,
                    forall|m: int| 0 <= m < old_queue.len() - 1 ==> #[trigger] queue@[m] == old_queue[m],
                    forall|m: int| 0 <= m < queue@.len() ==> reachable(parents.view(), start@, #[trigger] queue@[m]@),
                    reachable(parents.view(), start@, x@),
                    parents.view().contains_key(x@) && parents.view()[x@] == *ps,
                decreases ps@.len() - j,
            {
                let ghost before = queue@;
                proof {
                    assert(holds(parents.view()[x@]@, ps@[j as int]@));
                    lemma_reachable_step(parents.view(), start@, x@, ps@[j as int]@);
                }
                queue.push(ps[j].clone());
                proof {
                    assert forall|m: int| 0 <= m < j + 1 implies holds(queue@, #[trigger] ps@[m]@) by {
                        if m < j {
                            let w = choose|w: int| 0 <= w < before.len() && before[w]@ == ps@[m]@;
                            assert(queue@[w] == before[w]);
                        } else {
                            assert(queue@[before.len() as int]@ == ps@[m]@);
                        }
                    }
                }
                j += 1;
            }
        }
        found.push(x);
        proof {
            assert(found@[old_found.len() as int] == x);
            assert forall|p: Seq<char>| holds(old_queue, p) implies holds(found@, p) || holds(queue@, p) by {
                let w = choose|w: int| 0 <= w < old_queue.len() && old_queue[w]@ == p;
                if w == old_queue.len() - 1 {
                    assert(found@[old_found.len() as int]@ == p);
                } else {
                    assert(queue@[w] == old_queue[w]);
                }
            }
            assert forall|p: Seq<char>| holds(old_found, p) implies holds(found@, p) by {
                let w = choose|w: int| 0 <= w < old_found.len() && old_found[w]@ == p;
                assert(found@[w] == old_found[w]);
            }
            assert forall|kk: int, jj: int| 0 <= kk < n && #[trigger] expanded@[kk] && 0 <= jj < entries@[kk].1@.len()
                implies holds(found@, #[trigger] entries@[kk].1@[jj]@) || holds(queue@, entries@[kk].1@[jj]@) by {
                if kk != k || old_expanded[kk] {
                    assert(old_expanded[kk]);
                }
            }
            assert forall|i: int, kk: int| 0 <= i < found@.len() && 0 <= kk < n && #[trigger] entries@[kk].0@ == #[trigger] found@[i]@
                implies expanded@[kk] by {
                if i < old_found.len() {
                    assert(found@[i] == old_found[i]);
                    assert(old_expanded[kk]);
                } else {
                    assert(found@[i] == x);
                    assert(kk == k as int);
                }
            }
        }
    }
    proof {
        assert forall|i: int, j: int| 0 <= i < found@.len() && parents.view().contains_key(#[trigger] found@[i]@)
            && 0 <= j < parents.view()[found@[i]@]@.len() implies holds(found@, #[trigger] parents.view()[found@[i]@]@[j]@) by {
            let q = found@[i]@;
            let k = choose|k: int| 0 <= k < entries@.len() && entries@[k].0@ == q;
            assert(expanded@[k]);
            assert(parents.view()[q] == entries@[k].1);
        }
        assert forall|x: Seq<char>| holds(found@, x) <==> reachable(parents.view(), start@, x) by {
            if holds(found@, x) {
                let w = choose|w: int| 0 <= w < found@.len() && found@[w]@ == x;
                assert(reachable(parents.view(), start@, found@[w]@));
            }
            if reachable(parents.view(), start@, x) {
                lemma_closed_holds_reachable(parents.view(), found@, start@, x);
            }
        }
    }
    found
}

/// The parent lists that `git rev-list --parents` prints, one commit per
/// line followed by its parents; a later line for a commit replaces an earlier one.
pub open spec fn parent_lists(ls: Seq<Seq<char>>) -> Map<Seq<char>, Seq<Seq<char>>>
    decreases ls.len(),
{
    if ls.len() == 0 {
        Map::empty()
    } else {
        let m = parent_lists(ls.drop_last());
        let w = words(ls.last());
        if w.len() == 0 {
            m
        } else {
            m.insert(w[0], w.drop_first())
        }
    }
}

/// `r` holds the parent lists `m`, each list by the text of its commits.
pub open spec fn parents_match(r: Map<Seq<char>, Vec<String>>, m: Map<Seq<char>, Seq<Seq<char>>>) -> bool {
    &&& r.dom() == m.dom()
    &&& forall|k: Seq<char>| #[trigger] r.contains_key(k) ==> views(r[k]@) == m[k]
}

/// Parses the output of `git rev-list --parents` into parent lists.
pub fn parse_parent_lists(stdout: &str) -> (r: StringMap<Vec<String>>)
    ensures
        parents_match(r.view(), parent_lists(lines(stdout@))),
{
    let ls = lines_of(stdout);
    let mut map: StringMap<Vec<String>> = StringMap::new();
    let mut i: usize = 0;
    proof {
        assert(views(ls@).take(0) =~= Seq::<Seq<char>>::empty());
        assert(map.view().dom() =~= parent_lists(views(ls@).take(0)).dom());
    }
    while i < ls.len()
        invariant
            i <= ls@.len(),
            views(ls@) == lines(stdout@),
            parents_match(map.view(), parent_lists(views(ls@).take(i as int))),
        decreases ls@.len() - i,
    {
        let ghost before = map.view();
        let ghost pre = views(ls@).take(i as int);
        proof {
            assert(views(ls@).take(i + 1).drop_last() =~= pre);
            assert(views(ls@).take(i + 1).last() == ls@[i as int]@);
        }
        let mut ws = words_of(ls[i].as_str());
        if ws.len() > 0 {
            let ghost all = views(ws@);
            let commit = ws.remove(0);
            proof {
                assert(views(ws@) =~= all.drop_first());
            }
            let ghost k = commit@;
            let ghost v = ws;
            map.insert(commit, ws);
            proof {
                let m2 = parent_lists(views(ls@).take(i + 1));
                assert(m2 == parent_lists(pre).insert(all[0], all.drop_first()));
                assert(map.view().dom() =~= m2.dom());
                assert forall|q: Seq<char>| #[trigger] map.view().contains_key(q) implies views(map.view()[q]@) == m2[q] by {
                    if q != k {
                        assert(before.contains_key(q));
                    }
                }
            }
        } else {
            proof {
                assert(parent_lists(views(ls@).take(i + 1)) == parent_lists(pre));
            }
        }
        i += 1;
    }
    proof {
        assert(views(ls@).take(i as int) =~= views(ls@));
    }
    map
}

/// Whether some string of `v` is `x`.
pub fn contains_text(v: &Vec<String>, x: &str) -> (b: bool)
    ensures
        b == holds(v@, x@),
{
    let mut i: usize = 0;
    while i < v.len()
        invariant
            i <= v@.len(),
            forall|j: int| 0 <= j < i ==> v@[j]@ != x@,
        decreases v@.len() - i,
    {
        if str_eq(v[i].as_str(), x) {
            return true;
        }
        i += 1;
    }
    false
}

/// A memo fact `(target, start, is_ancestor)` of preloading: the start and
/// the target are among those given, the answer is the reachability of the
/// target from the start, and a negative answer is kept only when negative
/// answers are recorded.
pub open spec fn fact_ok(
    parents: Map<Seq<char>, Vec<String>>,
    starts: Seq<String>,
    targets: Seq<String>,
    record_negative: bool,
    f: (String, String, bool),
) -> bool {
    &&& holds(starts, f.1@)
    &&& holds(targets, f.0@)
    &&& f.2 == reachable(parents, f.1@, f.0@)
    &&& f.2 || record_negative
}

/// Some fact of `facts` is about `target` and `start`.
pub open spec fn has_fact(facts: Seq<(String, String, bool)>, target: Seq<char>, start: Seq<char>) -> bool {
    exists|f: int| 0 <= f < facts.len() && facts[f].0@ == target && facts[f].1@ == start
}

proof fn lemma_has_fact_push(facts: Seq<(String, String, bool)>, x: (String, String, bool), target: Seq<char>, start: Seq<char>)
    requires
        has_fact(facts, target, start),
    ensures
        has_fact(facts.push(x), target, start),
{
    let f = choose|f: int| 0 <= f < facts.len() && facts[f].0@ == target && facts[f].1@ == start;
    assert(facts.push(x)[f] == facts[f]);
}

/// The memo facts that preloading records: for every start and target, the
/// fact `(target, start, is_ancestor)`, kept when the target is an ancestor of
/// the start or `record_negative` holds.
pub fn ancestry_facts(
    parents: &StringMap<Vec<String>>,
    starts: &Vec<String>,
    targets: &Vec<String>,
    record_negative: bool,
) -> (facts: Vec<(String, String, bool)>)
    ensures
        forall|f: int| 0 <= f < facts@.len() ==> fact_ok(parents.view(), starts@, targets@, record_negative, #[trigger] facts@[f]),
        forall|s: int, t: int| 0 <= s < starts@.len() && 0 <= t < targets@.len()
            && (record_negative || reachable(parents.view(), #[trigger] starts@[s]@, #[trigger] targets@[t]@))
            ==> has_fact(facts@, targets@[t]@, starts@[s]@),
{
    let mut facts: Vec<(String, String, bool)> = Vec::new();
    let mut s: usize = 0;
    while s < starts.len()
        invariant
            s <= starts@.len(),
            forall|f: int| 0 <= f < facts@.len() ==> fact_ok(parents.view(), starts@, targets@, record_negative, #[trigger] facts@[f]),
            forall|a: int, t: int| 0 <= a < s && 0 <= t < targets@.len()
                && (record_negative || reachable(parents.view(), #[trigger] starts@[a]@, #[trigger] targets@[t]@))
                ==> has_fact(facts@, targets@[t]@, starts@[a]@),
        decreases starts@.len() - s,
    {
        let start = &starts[s];
        let reach = ancestry_closure(parents, start.as_str());
        let mut t: usize = 0;
        while t < targets.len()
            invariant
                s < starts@.len(),
                *start == starts@[s as int],
                t <= targets@.len(),
                forall|x: Seq<char>| holds(reach@, x) <==> reachable(parents.view(), start@, x),
                forall|f: int| 0 <= f < facts@.len() ==> fact_ok(parents.view(), starts@, targets@, record_negative, #[trigger] facts@[f]),
                forall|a: int, u: int| 0 <= a < s && 0 <= u < targets@.len()
                    && (record_negative || reachable(parents.view(), #[trigger] starts@[a]@, #[trigger] targets@[u]@))
                    ==> has_fact(facts@, targets@[u]@, starts@[a]@),
                forall|u: int| 0 <= u < t
                    && (record_negative || reachable(parents.view(), start@, #[trigger] targets@[u]@))
                    ==> has_fact(facts@, targets@[u]@, start@),
            decreases targets@.len() - t,
        {
            let other = &targets[t];
            let is_anc = contains_text(&reach, other.as_str());
            if is_anc || record_negative {
                let ghost before = facts@;
                let fact = (other.clone(), start.clone(), is_anc);
                proof {
                    assert(holds(starts@, fact.1@)) by {
                        assert(starts@[s as int]@ == fact.1@);
                    }
                    assert(holds(targets@, fact.0@)) by {
                        assert(targets@[t as int]@ == fact.0@);
                    }
                }
                facts.push(fact);
                proof {
                    let f = before.len() as int;
                    assert(facts@[f] == fact);
                    assert forall|g: int| 0 <= g < facts@.len() implies fact_ok(parents.view(), starts@, targets@, record_negative, #[trigger] facts@[g]) by {
                        if g < f {
                            assert(facts@[g] == before[g]);
                        }
                    }
                    assert forall|a: int, u: int| 0 <= a < s && 0 <= u < targets@.len()
                        && (record_negative || reachable(parents.view(), #[trigger] starts@[a]@, #[trigger] targets@[u]@))
                        implies has_fact(facts@, targets@[u]@, starts@[a]@) by {
                        lemma_has_fact_push(before, fact, targets@[u]@, starts@[a]@);
                    }
                    assert forall|u: int| 0 <= u < t + 1
                        && (record_negative || reachable(parents.view(), start@, #[trigger] targets@[u]@))
                        implies has_fact(facts@, targets@[u]@, start@) by {
                        if u < t {
                            lemma_has_fact_push(before, fact, targets@[u]@, start@);
                        } else {
                            assert(facts@[f].0@ == targets@[u]@);
                        }
                    }
                }
            }
            t += 1;
        }
        s += 1;
    }
    facts
}

/// The outcome of `git merge-base --is-ancestor`: exit code 0 means yes and 1
/// means no; any other failure is an error naming the command, and any other
/// success means no.
pub fn ancestry_verdict(anc_oid: &str, desc_oid: &str, output: CommandOutput) -> (r: Result<bool>)
    ensures
        output.code == Some(0i32) ==> r == Ok::<bool, StaircaseError>(true),
        output.code == Some(1i32) ==> r == Ok::<bool, StaircaseError>(false),
        output.code != Some(0i32) && output.code != Some(1i32) ==> (output.success <==> r == Ok::<bool, StaircaseError>(false)),
        r is Err ==> (r matches Err(StaircaseError::GitCommandFailed { command, stdout, stderr })
            && command@ == "git merge-base --is-ancestor "@ + anc_oid@ + " "@ + desc_oid@
            && stdout@ == output.stdout@ && stderr@ == output.stderr@),
{
    match output.code {
        Some(0) => Ok(true),
        Some(1) => Ok(false),
        _ => {
            if !output.success {
                let command = cat4("git merge-base --is-ancestor ", anc_oid, " ", desc_oid);
                return Err(StaircaseError::GitCommandFailed {
                    command,
                    stdout: output.stdout,
                    stderr: output.stderr,
                });
            }
            Ok(false)
        },
    }
}

impl GitRepo {
    /// Preloads the memo with the ancestry among `oids` (see `preload_ancestry_ext`).
    pub fn preload_ancestry(&self, oids: &[&str]) -> (r: Result<()>)
        ensures
            r matches Err(e) ==> e is Io,
    {
        let none: [&str; 0] = [];
        self.preload_ancestry_ext(oids, &none)
    }

    /// Resolves `oids` (skipping empty and unresolvable ones), lists their
    /// history with one `git rev-list --parents` that stops at the resolved
    /// `exclude_oids`, and memoizes for each resolved oid which of the targets
    /// (the oids and the excluded commits) are its ancestors; negative answers
    /// are memoized only when nothing is excluded, as an excluded boundary
    /// hides history. A failing `rev-list` memoizes nothing.
    pub fn preload_ancestry_ext(&self, oids: &[&str], exclude_oids: &[&str]) -> (r: Result<()>)
        ensures
            r matches Err(e) ==> e is Io,
    {
        let mut unique_oids: Vec<String> = Vec::new();
        let mut i: usize = 0;
        while i < oids.len()
            invariant
                i <= oids@.len(),
            decreases oids@.len() - i,
        {
            let oid = oids[i];
            if oid.unicode_len() > 0 {
                match self.resolve_commit(oid) {
                    Ok(resolved) => {
                        if !contains_text(&unique_oids, resolved.as_str()) {
                            unique_oids.push(resolved);
                        }
                    },
                    Err(_) => {},
                }
            }
            i += 1;
        }
        if unique_oids.len() == 0 {
            return Ok(());
        }
        let mut args: Vec<String> = Vec::new();
        args.push(owned("rev-list"));
        args.push(owned("--parents"));
        args.push(owned("--ignore-missing"));
        let mut j: usize = 0;
        while j < unique_oids.len()
            invariant
                j <= unique_oids@.len(),
            decreases unique_oids@.len() - j,
        {
            args.push(unique_oids[j].clone());
            j += 1;
        }
        let mut k: usize = 0;
        while k < exclude_oids.len()
            invariant
                k <= exclude_oids@.len(),
            decreases exclude_oids@.len() - k,
        {
            let ex = exclude_oids[k];
            if ex.unicode_len() > 0 {
                match self.resolve_commit(ex) {
                    Ok(resolved) => args.push(cat("^", resolved.as_str())),
                    Err(_) => {},
                }
            }
            k += 1;
        }
        let mut cmd = self.command();
        let mut a: usize = 0;
        while a < args.len()
            invariant
                a <= args@.len(),
            decreases args@.len() - a,
        {
            cmd = cmd.arg(args[a].as_str());
            a += 1;
        }
        let output = cmd.check_status(false).run_output()?;
        if !output.success {
            return Ok(());
        }
        let parents_map = parse_parent_lists(output.stdout.as_str());
        let mut targets: Vec<String> = Vec::new();
        let mut u: usize = 0;
        while u < unique_oids.len()
            invariant
                u <= unique_oids@.len(),
            decreases unique_oids@.len() - u,
        {
            targets.push(unique_oids[u].clone());
            u += 1;
        }
        let mut e: usize = 0;
        while e < exclude_oids.len()
            invariant
                e <= exclude_oids@.len(),
            decreases exclude_oids@.len() - e,
        {
            match self.resolve_commit(exclude_oids[e]) {
                Ok(resolved) => targets.push(resolved),
                Err(_) => {},
            }
            e += 1;
        }
        let facts = ancestry_facts(&parents_map, &unique_oids, &targets, exclude_oids.len() == 0);
        let mut f: usize = 0;
        while f < facts.len()
            invariant
                f <= facts@.len(),
            decreases facts@.len() - f,
        {
            let fact = &facts[f];
            self.memoizer.Ancestry(fact.0.clone(), fact.1.clone()).put(fact.2);
            f += 1;
        }
        Ok(())
    }

    /// Whether commit `ancestor` is an ancestor of (or the same commit as)
    /// `descendant`, from the memo or from `git merge-base --is-ancestor`
    /// (see [`ancestry_verdict`]); the answer is memoized.
    pub fn is_ancestor(&self, ancestor: &str, descendant: &str) -> (r: Result<bool>)
        ensures
            r matches Err(e) ==> (e is Io || e is GitCommandFailed),
            ancestor@ == descendant@ && r is Ok ==> r == Ok::<bool, StaircaseError>(true),
    {
        let anc_oid = self.resolve_commit(ancestor)?;
        let desc_oid = if str_eq(ancestor, descendant) {
            anc_oid.clone()
        } else {
            self.resolve_commit(descendant)?
        };
        if str_eq(anc_oid.as_str(), desc_oid.as_str()) {
            return Ok(true);
        }
        let op = self.memoizer.Ancestry(anc_oid.clone(), desc_oid.clone());
        match op.get() {
            Some(res) => return Ok(res),
            None => {},
        }
        let output = self.command().args(
            &["merge-base", "--is-ancestor", anc_oid.as_str(), desc_oid.as_str()],
        ).check_status(false).run_output()?;
        let res = ancestry_verdict(anc_oid.as_str(), desc_oid.as_str(), output)?;
        op.put(res);
        Ok(res)
    }

    /// The merge base of `a` and `b`, memoized by their commits.
    pub fn merge_base(&self, a: &str, b: &str) -> (r: Result<String>)
        ensures
            r matches Err(e) ==> (e is Io || e is GitCommandFailed),
    {
        let a_oid = self.resolve_commit(a)?;
        let b_oid = self.resolve_commit(b)?;
        let op = self.memoizer.MergeBase(a_oid.clone(), b_oid.clone());
        match op.get() {
            Some(mb) => return Ok(mb),
            None => {},
        }
        let mb = self.command().args(&["merge-base", a_oid.as_str(), b_oid.as_str()]).run()?;
        op.put(mb.clone());
        Ok(mb)
    }

    /// The commits of `base..tip`, oldest first: one per line of `git rev-list --reverse`.
    pub fn commits_between(&self, base: &str, tip: &str) -> (r: Result<Vec<String>>)
        ensures
            r matches Ok(v) ==> exists|s: Seq<char>| output_text_of_some_run(true, true, s)
                && views(v@) == #[trigger] lines(s),
            r matches Err(StaircaseError::GitCommandFailed { command, .. }) ==> command@
                == command_line(seq!["rev-list"@, "--reverse"@, base@ + ".."@ + tip@]),
    {
        let range = cat3(base, "..", tip);
        let c = self.command().args(&["rev-list", "--reverse", range.as_str()]);
        proof {
            assert(views(c.args@) =~= seq!["rev-list"@, "--reverse"@, base@ + ".."@ + tip@]);
        }
        let stdout = c.run()?;
        let v = lines_of(stdout.as_str());
        Ok(v)
    }

    /// The lines of `git rev-list <args>`.
    pub fn rev_list(&self, args: &[&str]) -> (r: Result<Vec<String>>)
        ensures
            r matches Ok(v) ==> exists|s: Seq<char>| output_text_of_some_run(true, true, s)
                && views(v@) == #[trigger] lines(s),
            r matches Err(StaircaseError::GitCommandFailed { command, .. }) ==> command@
                == command_line(seq!["rev-list"@] + args@.map_values(|a: &str| a@)),
    {
        let c = self.command().arg("rev-list").args(args);
        proof {
            assert(views(c.args@) =~= seq!["rev-list"@] + args@.map_values(|a: &str| a@));
        }
        let stdout = c.run()?;
        Ok(lines_of(stdout.as_str()))
    }

    /// The parents of `commit`: the words of `git show -s --format=%P`.
    pub fn get_parents(&self, commit: &str) -> (r: Result<Vec<String>>)
        ensures
            r matches Ok(v) ==> exists|s: Seq<char>| output_text_of_some_run(true, true, s)
                && views(v@) == #[trigger] words(s),
            r matches Err(StaircaseError::GitCommandFailed { command, .. }) ==> command@
                == command_line(seq!["show"@, "-s"@, "--format=%P"@, commit@]),
    {
        let c = self.command().args(&["show", "-s", "--format=%P", commit]);
        proof {
            assert(views(c.args@) =~= seq!["show"@, "-s"@, "--format=%P"@, commit@]);
        }
        let stdout = c.run()?;
        Ok(words_of(stdout.as_str()))
    }

    /// The first merge commit of `base..tip` that `git rev-list --min-parents=2` lists, if any.
    pub fn has_merges(&self, base: &str, tip: &str) -> (r: Result<Option<String>>)
        ensures
            r matches Ok(m) ==> exists|s: Seq<char>| output_text_of_some_run(true, true, s)
                && #[trigger] first_line(s) == opt_view(m),
            r matches Err(StaircaseError::GitCommandFailed { command, .. }) ==> command@
                == command_line(seq!["rev-list"@, "--min-parents=2"@, base@ + ".."@ + tip@]),
    {
        let range = cat3(base, "..", tip);
        let c = self.command().args(&["rev-list", "--min-parents=2", range.as_str()]);
        proof {
            assert(views(c.args@) =~= seq!["rev-list"@, "--min-parents=2"@, base@ + ".."@ + tip@]);
        }
        let stdout = c.run()?;
        let ls = lines_of(stdout.as_str());
        let first = if ls.len() > 0 {
            Some(ls[0].clone())
        } else {
            None
        };
        proof {
            assert(views(ls@).len() == ls@.len());
            assert(first_line(stdout@) == opt_view(first));
        }
        Ok(first)
    }
}

/// The first line of `s`, if it has one.
pub open spec fn first_line(s: Seq<char>) -> Option<Seq<char>> {
    if lines(s).len() > 0 {
        Some(lines(s)[0])
    } else {
        None
    }
}

} // verus!
