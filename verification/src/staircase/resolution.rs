//! Resolving a selector to one staircase: by managed name or cut, by the
//! name or structural key of a discovered staircase, or by a revision that
//! one contains; several readings of one selector are an ambiguity.

use vstd::prelude::*;
use crate::collections::SortedMap;
use crate::error::{AmbiguityCandidate, Result, StaircaseError};
use crate::git::repo::GitRepo;
use crate::model::{Discovery, StaircaseMetadata, Step};
use crate::staircase::discovery::{compute_implicit_id, discover};
use crate::staircase::inference::{extract_path_to, infer_onto};
use crate::staircase::persistence::record::read_metadata_from_oid;
use crate::staircase::persistence::{list_all_staircases, list_staircases};
use crate::staircase::refs::{StaircaseRefs, PUBLIC_PREFIX};
use crate::staircase::resolved::{ResolvedSelector, ResolvedStaircase};
use crate::staircase::utils::{check_sequential_layout, spec_sequential_layout};
use crate::text::{
    cat, cat3, decimal, owned, parse_usize, spec_parse_usize, starts_with, str_eq, strip_prefix,
    substring, to_chars, trim_str, usize_to_decimal,
};

verus! {

/// Whether no value of the map is a family.
pub open spec fn all_linear(m: Map<Seq<char>, ResolvedStaircase>) -> bool {
    forall|k: Seq<char>| #[trigger] m.contains_key(k) ==> !(m[k] is ImplicitFamily)
}

/// Whether `next` keeps every entry of `prev`.
pub open spec fn keeps_entries(prev: Map<Seq<char>, ResolvedStaircase>, next: Map<Seq<char>, ResolvedStaircase>) -> bool {
    forall|k: Seq<char>| #[trigger] prev.contains_key(k) ==> next.contains_key(k) && next[k] == prev[k]
}

/// A managed selector without `refs/staircases/` or `staircases/` in front.
pub open spec fn spec_managed_selector(name: Seq<char>) -> Seq<char> {
    if "refs/staircases/"@.is_prefix_of(name) {
        name.skip(16)
    } else if "staircases/"@.is_prefix_of(name) {
        name.skip(11)
    } else {
        name
    }
}

/// A managed selector without its ref prefix (see `spec_managed_selector`).
pub fn managed_selector(name: &str) -> (r: String)
    ensures
        r@ == spec_managed_selector(name@),
{
    proof {
        reveal_strlit("refs/staircases/");
        reveal_strlit("staircases/");
    }
    match strip_prefix(name, PUBLIC_PREFIX) {
        Some(s) => s,
        None => match strip_prefix(name, "staircases/") {
            Some(s) => s,
            None => owned(name),
        },
    }
}

/// Whether a step of `steps` has cut `oid`.
fn has_cut(steps: &Vec<Step>, oid: &str) -> (r: bool)
    ensures
        r == exists|i: int| 0 <= i < steps@.len() && (#[trigger] steps@[i]).cut@ == oid@,
{
    let mut i: usize = 0;
    while i < steps.len()
        invariant
            i <= steps@.len(),
            forall|j: int| 0 <= j < i ==> (#[trigger] steps@[j]).cut@ != oid@,
        decreases steps@.len() - i,
    {
        if str_eq(steps[i].cut.as_str(), oid) {
            return true;
        }
        i += 1;
    }
    false
}

/// Adds the managed staircases named by `name` (after `spec_managed_selector`)
/// or holding the commit it resolves to as a cut, keyed by lineage id.
fn resolve_managed(repo: &GitRepo, name: &str, resolved: &mut SortedMap<ResolvedStaircase>) -> (r: Result<()>)
    requires
        all_linear(old(resolved).view()),
    ensures
        all_linear(final(resolved).view()),
        keeps_entries(old(resolved).view(), final(resolved).view()),
{
    let stripped = managed_selector(name);
    let managed = list_all_staircases(repo)?;
    let mut i: usize = 0;
    while i < managed.len()
        invariant
            i <= managed@.len(),
            all_linear(resolved.view()),
            keeps_entries(old(resolved).view(), resolved.view()),
        decreases managed@.len() - i,
    {
        if str_eq(managed[i].name.as_str(), stripped.as_str()) && !resolved.contains_key(managed[i].id.as_str()) {
            resolved.insert(managed[i].id.clone(), ResolvedStaircase::Managed(managed[i].clone()));
        }
        i += 1;
    }
    match repo.resolve_commit(name) {
        Ok(oid) => {
            let mut k: usize = 0;
            while k < managed.len()
                invariant
                    k <= managed@.len(),
                    all_linear(resolved.view()),
                    keeps_entries(old(resolved).view(), resolved.view()),
                decreases managed@.len() - k,
            {
                if has_cut(&managed[k].steps, oid.as_str()) && !resolved.contains_key(managed[k].id.as_str()) {
                    resolved.insert(managed[k].id.clone(), ResolvedStaircase::Managed(managed[k].clone()));
                }
                k += 1;
            }
        },
        Err(_) => {},
    }
    Ok(())
}

/// Whether `r` is a managed staircase named `name`.
pub open spec fn is_managed_named(r: ResolvedStaircase, name: Seq<char>) -> bool {
    r matches ResolvedStaircase::Managed(m) && m.name@ == name
}

/// Whether some resolved staircase is managed and named `name`.
fn managed_named(resolved: &SortedMap<ResolvedStaircase>, name: &str) -> (r: bool)
    ensures
        r <==> exists|k: Seq<char>| resolved.view().contains_key(k) && #[trigger] is_managed_named(resolved.view()[k], name@),
{
    let entries = resolved.entries();
    let mut i: usize = 0;
    while i < entries.len()
        invariant
            i <= entries@.len(),
            forall|j: int| 0 <= j < i ==> !is_managed_named(#[trigger] entries@[j].1, name@),
            forall|j: int| 0 <= j < entries@.len() ==> resolved.view().contains_key(#[trigger] entries@[j].0@)
                && resolved.view()[entries@[j].0@] == entries@[j].1,
        decreases entries@.len() - i,
    {
        match &entries[i].1 {
            ResolvedStaircase::Managed(m) => {
                if str_eq(m.name.as_str(), name) {
                    assert(resolved.view().contains_key(entries@[i as int].0@));
                    assert(is_managed_named(resolved.view()[entries@[i as int].0@], name@));
                    return true;
                }
            },
            _ => {},
        }
        i += 1;
    }
    proof {
        assert forall|k: Seq<char>| resolved.view().contains_key(k) implies !#[trigger] is_managed_named(resolved.view()[k], name@) by {
            let j = choose|j: int| 0 <= j < entries@.len() && entries@[j].0@ == k;
            assert(resolved.view()[entries@[j].0@] == entries@[j].1);
        }
    }
    false
}

/// Adds the discovered linear staircases named or identified by `name`,
/// unless a managed staircase of that name was already resolved.
fn resolve_implicit_name(name: &str, discoveries: &Vec<Discovery>, resolved: &mut SortedMap<ResolvedStaircase>)
    requires
        all_linear(old(resolved).view()),
    ensures
        all_linear(final(resolved).view()),
        keeps_entries(old(resolved).view(), final(resolved).view()),
        forall|k: Seq<char>| #[trigger] final(resolved).view().contains_key(k) && !old(resolved).view().contains_key(k)
            ==> (final(resolved).view()[k] matches ResolvedStaircase::Implicit(s) && s.id@ == k
                && (s.name@ == name@ || s.id@ == name@)),
        (exists|k: Seq<char>| old(resolved).view().contains_key(k) && #[trigger] is_managed_named(old(resolved).view()[k], name@))
            ==> final(resolved).view() == old(resolved).view(),
        !(exists|k: Seq<char>| old(resolved).view().contains_key(k) && #[trigger] is_managed_named(old(resolved).view()[k], name@))
            ==> forall|j: int| 0 <= j < discoveries@.len() ==> (#[trigger] discoveries@[j] matches Discovery::Linear(s)
                ==> ((s.name@ == name@ || s.id@ == name@) ==> final(resolved).view().contains_key(s.id@))),
{
    if managed_named(resolved, name) {
        return;
    }
    let mut i: usize = 0;
    while i < discoveries.len()
        invariant
            i <= discoveries@.len(),
            forall|j: int| 0 <= j < i ==> (#[trigger] discoveries@[j] matches Discovery::Linear(s)
                ==> ((s.name@ == name@ || s.id@ == name@) ==> resolved.view().contains_key(s.id@))),
            all_linear(resolved.view()),
            keeps_entries(old(resolved).view(), resolved.view()),
            forall|k: Seq<char>| #[trigger] resolved.view().contains_key(k) && !old(resolved).view().contains_key(k)
                ==> (resolved.view()[k] matches ResolvedStaircase::Implicit(s) && s.id@ == k
                    && (s.name@ == name@ || s.id@ == name@)),
        decreases discoveries@.len() - i,
    {
        match &discoveries[i] {
            Discovery::Linear(s) => {
                if (str_eq(s.name.as_str(), name) || str_eq(s.id.as_str(), name)) && !resolved.contains_key(s.id.as_str()) {
                    let mut found = s.clone();
                    found.id = s.id.clone();
                    found.name = s.name.clone();
                    resolved.insert(s.id.clone(), ResolvedStaircase::Implicit(found));
                }
            },
            _ => {},
        }
        i += 1;
    }
}

/// Adds the discovered linear staircases whose structural key starts with
/// `selector`, when it is a structural key (`implicit@...`).
fn resolve_structural_key(selector: &str, discoveries: &Vec<Discovery>, resolved: &mut SortedMap<ResolvedStaircase>)
    requires
        all_linear(old(resolved).view()),
    ensures
        all_linear(final(resolved).view()),
        keeps_entries(old(resolved).view(), final(resolved).view()),
        !"implicit@"@.is_prefix_of(selector@) ==> final(resolved).view() == old(resolved).view(),
        "implicit@"@.is_prefix_of(selector@) ==> forall|j: int| 0 <= j < discoveries@.len() ==> (#[trigger] discoveries@[j] matches
            Discovery::Linear(s) ==> (selector@.is_prefix_of(s.id@) ==> final(resolved).view().contains_key(s.id@))),
        forall|k: Seq<char>| #[trigger] final(resolved).view().contains_key(k) && !old(resolved).view().contains_key(k)
            ==> (final(resolved).view()[k] matches ResolvedStaircase::Implicit(s) && s.id@ == k && selector@.is_prefix_of(k)),
{
    if !starts_with(selector, "implicit@") {
        return;
    }
    let mut i: usize = 0;
    while i < discoveries.len()
        invariant
            i <= discoveries@.len(),
            forall|j: int| 0 <= j < i ==> (#[trigger] discoveries@[j] matches Discovery::Linear(s)
                ==> (selector@.is_prefix_of(s.id@) ==> resolved.view().contains_key(s.id@))),
            forall|k: Seq<char>| #[trigger] resolved.view().contains_key(k) && !old(resolved).view().contains_key(k)
                ==> (resolved.view()[k] matches ResolvedStaircase::Implicit(s) && s.id@ == k && selector@.is_prefix_of(k)),
            all_linear(resolved.view()),
            keeps_entries(old(resolved).view(), resolved.view()),
        decreases discoveries@.len() - i,
    {
        match &discoveries[i] {
            Discovery::Linear(s) => {
                if starts_with(s.id.as_str(), selector) && !resolved.contains_key(s.id.as_str()) {
                    let mut found = s.clone();
                    found.id = s.id.clone();
                    resolved.insert(s.id.clone(), ResolvedStaircase::Implicit(found));
                }
            },
            _ => {},
        }
        i += 1;
    }
}

/// Reads a revision selector: adds the discovered staircases that hold the
/// commit `name` resolves to (cut down to it, keyed by their structural
/// key), unless a resolved managed staircase holds it; a commit that no
/// staircase holds is recorded as a plain revision under its full name.
fn resolve_git_revision(
    repo: &GitRepo,
    name: &str,
    discoveries: &Vec<Discovery>,
    onto_oid: &str,
    resolved: &mut SortedMap<ResolvedStaircase>,
    commits: &mut SortedMap<String>,
) -> (r: Result<()>)
    requires
        all_linear(old(resolved).view()),
    ensures
        all_linear(final(resolved).view()),
        keeps_entries(old(resolved).view(), final(resolved).view()),
{
    let oid = match repo.resolve_commit(name) {
        Ok(o) => o,
        Err(_) => return Ok(()),
    };
    let full = match repo.run(&["rev-parse", "--symbolic-full-name", name]) {
        Ok(s) => trim_str(s.as_str()),
        Err(_) => owned(name),
    };
    let full_name = if full.as_str().unicode_len() == 0 { owned(name) } else { full };
    let mut matched = false;
    let entries = resolved.entries();
    let mut i: usize = 0;
    while i < entries.len()
        invariant
            i <= entries@.len(),
        decreases entries@.len() - i,
    {
        match &entries[i].1 {
            ResolvedStaircase::Managed(m) => {
                if has_cut(&m.steps, oid.as_str()) {
                    matched = true;
                }
            },
            _ => {},
        }
        i += 1;
    }
    if !matched {
        let mut d: usize = 0;
        while d < discoveries.len()
            invariant
                d <= discoveries@.len(),
                all_linear(resolved.view()),
                keeps_entries(old(resolved).view(), resolved.view()),
            decreases discoveries@.len() - d,
        {
            match &discoveries[d] {
                Discovery::Linear(s) => {
                    let mut pos: usize = 0;
                    let mut found = false;
                    while pos < s.steps.len()
                        invariant
                            pos <= s.steps@.len(),
                        decreases s.steps@.len() - pos,
                    {
                        if str_eq(s.steps[pos].cut.as_str(), oid.as_str()) {
                            found = true;
                            break;
                        }
                        pos += 1;
                    }
                    if found {
                        let mut sub = s.clone();
                        let mut steps: Vec<Step> = Vec::new();
                        let mut j: usize = 0;
                        while j <= pos && j < s.steps.len()
                            invariant
                                j <= s.steps@.len(),
                            decreases s.steps@.len() - j,
                        {
                            steps.push(s.steps[j].copy());
                            j += 1;
                        }
                        sub.steps = steps;
                        let id = compute_implicit_id(repo, onto_oid, sub.steps.as_slice())?;
                        sub.id = id.clone();
                        if !resolved.contains_key(id.as_str()) {
                            resolved.insert(id, ResolvedStaircase::Implicit(sub));
                        }
                        matched = true;
                    }
                },
                Discovery::Ambiguous(f) => {
                    let steps = f.steps.entries();
                    let mut q: usize = 0;
                    let mut step_name: Option<String> = None;
                    while q < steps.len()
                        invariant
                            q <= steps@.len(),
                        decreases steps@.len() - q,
                    {
                        if str_eq(steps[q].1.cut.as_str(), oid.as_str()) {
                            step_name = Some(steps[q].1.name.clone());
                            break;
                        }
                        q += 1;
                    }
                    match step_name {
                        Some(sn) => match extract_path_to(f, sn.as_str()) {
                            Some(mut path) => {
                                let id = compute_implicit_id(repo, onto_oid, path.steps.as_slice())?;
                                path.id = id.clone();
                                if !resolved.contains_key(id.as_str()) {
                                    resolved.insert(id, ResolvedStaircase::Implicit(path));
                                }
                                matched = true;
                            },
                            None => {},
                        },
                        None => {},
                    }
                },
            }
            d += 1;
        }
    }
    if !matched {
        commits.insert(oid, full_name);
    }
    Ok(())
}

/// The structural key of a staircase: that of its cuts on its target's commit.
fn structural_identity(repo: &GitRepo, staircase: &StaircaseMetadata) -> (r: Result<String>) {
    let integration = repo.resolve_commit(staircase.target.as_str())?;
    compute_implicit_id(repo, integration.as_str(), staircase.steps.as_slice())
}

/// Drops the discovered staircases that a resolved managed staircase
/// already records (the same structural key).
fn deduplicate_resolved(repo: &GitRepo, resolved: SortedMap<ResolvedStaircase>) -> (r: SortedMap<ResolvedStaircase>)
    requires
        all_linear(resolved.view()),
    ensures
        all_linear(r.view()),
        forall|k: Seq<char>| #[trigger] r.view().contains_key(k) ==> resolved.view().contains_key(k)
            && r.view()[k] == resolved.view()[k],
        forall|k: Seq<char>| #[trigger] resolved.view().contains_key(k) && resolved.view()[k] is Managed
            ==> r.view().contains_key(k),
{
    let mut managed_keys: Vec<String> = Vec::new();
    let entries = resolved.into_entries();
    let ghost before = resolved.view();
    let mut i: usize = 0;
    while i < entries.len()
        invariant
            i <= entries@.len(),
        decreases entries@.len() - i,
    {
        match &entries[i].1 {
            ResolvedStaircase::Managed(m) => match structural_identity(repo, m) {
                Ok(key) => managed_keys.push(key),
                Err(_) => {},
            },
            _ => {},
        }
        i += 1;
    }
    let mut out: SortedMap<ResolvedStaircase> = SortedMap::new();
    let mut entries = entries;
    let ghost all = entries@;
    let mut k: usize = 0;
    while entries.len() > 0
        invariant
            forall|j: int| 0 <= j < all.len() ==> before.contains_key(#[trigger] all[j].0@) && before[all[j].0@] == all[j].1,
            forall|key: Seq<char>| #[trigger] before.contains_key(key) ==> exists|j: int| 0 <= j < all.len() && all[j].0@ == key,
            entries@.len() <= all.len(),
            entries@ == all.skip(all.len() - entries@.len()),
            all_linear(before),
            forall|key: Seq<char>| #[trigger] out.view().contains_key(key) ==> before.contains_key(key) && out.view()[key] == before[key],
            forall|j: int| 0 <= j < all.len() - entries@.len() && all[j].1 is Managed ==> out.view().contains_key(#[trigger] all[j].0@),
        decreases entries@.len(),
    {
        let ghost idx = all.len() - entries@.len();
        let (key, value) = entries.remove(0);
        proof {
            assert(all[idx] == (key, value));
            assert(entries@ =~= all.skip(all.len() - entries@.len()));
        }
        let keep = match &value {
            ResolvedStaircase::Implicit(s) => match structural_identity(repo, s) {
                Ok(id) => !crate::git::graph::contains_text(&managed_keys, id.as_str()),
                Err(_) => true,
            },
            _ => true,
        };
        if keep {
            out.insert(key, value);
        }
    }
    proof {
        assert forall|key: Seq<char>| #[trigger] before.contains_key(key) && before[key] is Managed implies out.view().contains_key(key) by {
            let j = choose|j: int| 0 <= j < all.len() && all[j].0@ == key;
            assert(all[j].1 == before[key]);
        }
    }
    out
}

/// A candidate of an ambiguous selector: a resolved staircase (managed by
/// lineage id, implicit by structural key).
fn staircase_candidate(repo: &GitRepo, staircase: &ResolvedStaircase) -> (r: AmbiguityCandidate)
    requires
        !(*staircase is ImplicitFamily),
    ensures
        staircase is Managed ==> r.kind@ == "managed"@,
        staircase is Implicit ==> r.kind@ == "implicit"@,
{
    let metadata = staircase.metadata();
    let managed = staircase.is_managed();
    let mut cuts: Vec<String> = Vec::new();
    let mut i: usize = 0;
    while i < metadata.steps.len()
        invariant
            i <= metadata.steps@.len(),
        decreases metadata.steps@.len() - i,
    {
        cuts.push(metadata.steps[i].cut.clone());
        i += 1;
    }
    let integration_context = match repo.resolve_commit(metadata.target.as_str()) {
        Ok(o) => Some(o),
        Err(_) => None,
    };
    if managed {
        let record_oid = match repo.resolve_ref(StaircaseRefs::state_record(metadata.id.as_str()).as_str()) {
            Ok(o) => Some(o),
            Err(_) => None,
        };
        AmbiguityCandidate {
            kind: owned("managed"),
            selector: cat("--id ", metadata.id.as_str()),
            name: Some(metadata.name.clone()),
            lineage_id: Some(metadata.id.clone()),
            structural_key: None,
            record_oid,
            integration_context,
            cuts,
        }
    } else {
        AmbiguityCandidate {
            kind: owned("implicit"),
            selector: cat("--structural-key ", metadata.id.as_str()),
            name: Some(metadata.name.clone()),
            lineage_id: None,
            structural_key: Some(metadata.id.clone()),
            record_oid: None,
            integration_context,
            cuts,
        }
    }
}

/// The candidates of an ambiguous selector: the resolved staircases, then
/// the plain revisions, each in key order.
fn ambiguity_candidates(repo: &GitRepo, resolved: &SortedMap<ResolvedStaircase>, commits: &SortedMap<String>) -> (r: Vec<AmbiguityCandidate>)
    requires
        all_linear(resolved.view()),
    ensures
        r@.len() == resolved.key_seq().len() + commits.key_seq().len(),
{
    let mut out: Vec<AmbiguityCandidate> = Vec::new();
    let entries = resolved.entries();
    proof {
        assert(entries@.len() == entries@.map_values(|e: (String, ResolvedStaircase)| e.0@).len());
    }
    let mut i: usize = 0;
    while i < entries.len()
        invariant
            i <= entries@.len(),
            out@.len() == i,
            forall|j: int| 0 <= j < entries@.len() ==> resolved.view().contains_key(#[trigger] entries@[j].0@)
                && resolved.view()[entries@[j].0@] == entries@[j].1,
            all_linear(resolved.view()),
        decreases entries@.len() - i,
    {
        proof {
            assert(resolved.view().contains_key(entries@[i as int].0@));
        }
        out.push(staircase_candidate(repo, &entries[i].1));
        i += 1;
    }
    let revs = commits.entries();
    proof {
        assert(revs@.len() == revs@.map_values(|e: (String, String)| e.0@).len());
    }
    let mut k: usize = 0;
    while k < revs.len()
        invariant
            k <= revs@.len(),
            out@.len() == entries@.len() + k,
        decreases revs@.len() - k,
    {
        out.push(AmbiguityCandidate {
            kind: owned("git-revision"),
            selector: revs[k].1.clone(),
            name: None,
            lineage_id: None,
            structural_key: None,
            record_oid: None,
            integration_context: None,
            cuts: vec![revs[k].0.clone()],
        });
        k += 1;
    }
    out
}

/// The integration boundary for resolution: `onto` as a full refname (or
/// as given), else the inferred one.
fn onto_or_inferred(repo: &GitRepo, onto: Option<&str>) -> (r: Result<String>)
    ensures
        onto is Some ==> r is Ok,
        onto is None ==> (r matches Err(StaircaseError::Other(m)) ==> m@ == crate::staircase::inference::no_boundary_message()),
{
    match onto {
        Some(o) => match repo.resolve_symbolic_full_name(o) {
            Ok(full) => Ok(full),
            Err(_) => Ok(owned(o)),
        },
        None => infer_onto(repo),
    }
}

/// Resolves `name` to at most one staircase. Every reading is tried: a
/// managed name or a commit of a managed staircase, the name or id of a
/// discovered staircase, a revision that discovered staircases hold (or
/// that none holds), a structural key prefix; discovered staircases that a
/// managed one records are dropped. More than one staircase or revision is
/// an ambiguity that lists them all.
pub fn resolve_staircase_internal(repo: &GitRepo, name: &str, onto: Option<&str>) -> (r: Result<Option<ResolvedStaircase>>)
    ensures
        r matches Ok(Some(rs)) ==> !(rs is ImplicitFamily),
{
    let mut resolved: SortedMap<ResolvedStaircase> = SortedMap::new();
    let mut commits: SortedMap<String> = SortedMap::new();
    resolve_managed(repo, name, &mut resolved)?;
    let onto_final = onto_or_inferred(repo, onto)?;
    let onto_oid = repo.resolve_commit(onto_final.as_str())?;
    let discoveries = discover(repo, Some(onto_final.as_str()), None, false)?;
    resolve_implicit_name(name, &discoveries, &mut resolved);
    resolve_git_revision(repo, name, &discoveries, onto_oid.as_str(), &mut resolved, &mut commits)?;
    resolve_structural_key(name, &discoveries, &mut resolved);
    let resolved = deduplicate_resolved(repo, resolved);
    let total = resolved.len() as u128 + commits.len() as u128;
    if total > 1 {
        let candidates = ambiguity_candidates(repo, &resolved, &commits);
        return Err(StaircaseError::SelectorAmbiguous { selector: owned(name), candidates });
    }
    let ghost view = resolved.view();
    let entries = resolved.into_entries();
    if entries.len() > 0 {
        let mut entries = entries;
        let (key, value) = entries.remove(0);
        proof {
            assert(view.contains_key(key@));
        }
        Ok(Some(value))
    } else {
        Ok(None)
    }
}

/// The index of the last `:` in `s`, if any.
pub open spec fn last_colon(s: Seq<char>) -> int
    decreases s.len(),
{
    if s.len() == 0 {
        -1
    } else if s.last() == ':' {
        s.len() - 1
    } else {
        last_colon(s.drop_last())
    }
}

proof fn lemma_last_colon(s: Seq<char>)
    ensures
        -1 <= last_colon(s) < s.len(),
        last_colon(s) >= 0 ==> s[last_colon(s)] == ':',
        forall|j: int| last_colon(s) < j < s.len() ==> s[j] != ':',
    decreases s.len(),
{
    if s.len() > 0 && s.last() != ':' {
        lemma_last_colon(s.drop_last());
        assert forall|j: int| last_colon(s) < j < s.len() implies s[j] != ':' by {
            if j < s.len() - 1 {
                assert(s[j] == s.drop_last()[j]);
            }
        }
    }
}

/// A `<staircase>:<ordinal>` selector: the text before the last `:` and
/// the number after it, when that reads as a `usize`.
pub open spec fn spec_step_selector(name: Seq<char>) -> Option<(Seq<char>, nat)> {
    let i = last_colon(name);
    if i < 0 {
        None
    } else {
        match spec_parse_usize(name.skip(i + 1)) {
            Ok(n) => Some((name.take(i), n)),
            Err(_) => None,
        }
    }
}

/// Splits a `<staircase>:<ordinal>` selector (see `spec_step_selector`).
pub fn step_selector(name: &str) -> (r: Option<(String, usize)>)
    ensures
        match spec_step_selector(name@) {
            Some((sc, n)) => r matches Some((s, k)) && s@ == sc && k as nat == n,
            None => r is None,
        },
{
    let chars = to_chars(name);
    let n = chars.len();
    let mut i: usize = n;
    let mut found = false;
    while i > 0 && !found
        invariant
            chars@ == name@,
            n == name@.len(),
            i <= n,
            forall|j: int| i <= j < n ==> chars@[j] != ':',
            found ==> i > 0 && chars@[i - 1] == ':',
        decreases i + (if found { 0int } else { 1int }),
    {
        if chars[i - 1] == ':' {
            found = true;
        } else {
            i -= 1;
        }
    }
    proof {
        lemma_last_colon(name@);
    }
    if i == 0 {
        proof {
            assert(last_colon(name@) < 0);
        }
        return None;
    }
    proof {
        let l = last_colon(name@);
        assert(chars@[i - 1] == ':');
        if l < i - 1 {
            assert(name@[i - 1] != ':');
        }
        if l > i - 1 {
            assert(name@[l] == ':');
            assert(chars@[l] != ':');
        }
        assert(l == i - 1);
    }
    let before = substring(name, 0, i - 1);
    let after = substring(name, i, n);
    proof {
        assert(after@ =~= name@.skip(i as int));
        assert(before@ =~= name@.take(i - 1));
    }
    match parse_usize(after.as_str()) {
        Ok(k) => Some((before, k)),
        Err(_) => None,
    }
}

/// The message for the ordinal 0.
pub open spec fn zero_ordinal_message() -> Seq<char> {
    "Step ordinal must be 1-based"@
}

/// The message for an ordinal past the last step.
pub open spec fn ordinal_range_message(ordinal: nat, name: Seq<char>, steps: nat) -> Seq<char> {
    "Step ordinal "@ + decimal(ordinal) + " out of range for staircase '"@ + name + "' (which has "@
        + decimal(steps) + " steps)"@
}

/// Resolves a selector: `<staircase>:<ordinal>` names a step (from 1) of
/// the staircase, when the part before the last `:` resolves; anything
/// else resolves as a whole (see `resolve_staircase_internal`).
pub fn resolve_staircase(repo: &GitRepo, name: &str, onto: Option<&str>) -> (r: Result<Option<ResolvedSelector>>)
    ensures
        r matches Ok(Some(sel)) ==> !(sel.staircase is ImplicitFamily),
        r matches Ok(Some(sel)) ==> (sel.step_index matches Some(i) ==> (spec_step_selector(name@) matches Some(p)
            && i + 1 == p.1)),
        spec_step_selector(name@) matches Some((_, n)) && n == 0 ==> (r matches Err(StaircaseError::Other(m))
            && m@ == zero_ordinal_message()),
        r matches Ok(Some(sel)) ==> (sel.step_index matches Some(i) ==> (sel.staircase matches ResolvedStaircase::Managed(m)
            && i < m.steps@.len()) || (sel.staircase matches ResolvedStaircase::Implicit(m) && i < m.steps@.len())),
{
    match step_selector(name) {
        Some((sc_name, ordinal)) => {
            if ordinal == 0 {
                return Err(StaircaseError::Other(owned("Step ordinal must be 1-based")));
            }
            match resolve_staircase_internal(repo, sc_name.as_str(), onto)? {
                Some(rs) => {
                    let count = rs.metadata().steps.len();
                    if ordinal > count {
                        let mut m = cat("Step ordinal ", usize_to_decimal(ordinal).as_str());
                        m.append(" out of range for staircase '");
                        m.append(sc_name.as_str());
                        m.append("' (which has ");
                        m.append(usize_to_decimal(count).as_str());
                        m.append(" steps)");
                        return Err(StaircaseError::Other(m));
                    }
                    return Ok(Some(ResolvedSelector { staircase: rs, step_index: Some(ordinal - 1) }));
                },
                None => {},
            }
        },
        None => {},
    }
    match resolve_staircase_internal(repo, name, onto)? {
        Some(rs) => Ok(Some(ResolvedSelector { staircase: rs, step_index: None })),
        None => Ok(None),
    }
}

/// The linear staircase that `name` resolves to, if any.
pub fn find_by_name(repo: &GitRepo, name: &str) -> (r: Result<Option<StaircaseMetadata>>) {
    match resolve_staircase(repo, name, None)? {
        Some(sel) => Ok(Some(sel.metadata().clone())),
        None => Ok(None),
    }
}

/// The full ref or branch name of an explicit step without `refs/heads/`.
pub open spec fn explicit_step_name(s: Seq<char>) -> Seq<char> {
    if "refs/heads/"@.is_prefix_of(s) { s.skip(11) } else { s }
}

/// An implicit staircase made of the given branches or revisions in order,
/// on `onto` (else the inferred boundary): each step is named, and on the
/// branch, given without `refs/heads/`, at the commit it resolves to; the
/// staircase takes the last step's name (`explicit` without steps), its
/// structural key, and the sequential layout when its branches form one.
pub fn resolve_explicit_staircase(repo: &GitRepo, steps: &[String], onto: Option<&str>) -> (r: Result<ResolvedStaircase>)
    ensures
        r matches Ok(rs) ==> (rs matches ResolvedStaircase::Implicit(m) && m.steps@.len() == steps@.len()
            && (forall|i: int| 0 <= i < steps@.len() ==> ((#[trigger] m.steps@[i]).name@ == explicit_step_name(steps@[i]@)
                && (m.steps@[i].branch matches Some(b) && b@ == explicit_step_name(steps@[i]@))))
            && (steps@.len() > 0 ==> m.name@ == explicit_step_name(steps@.last()@))
            && (steps@.len() == 0 ==> m.name@ == "explicit"@)
            && (m.primary_branch_layout is Some <==> spec_sequential_layout(m.steps@) is Some)),
{
    let onto_final = onto_or_inferred(repo, onto)?;
    let onto_oid = repo.resolve_commit(onto_final.as_str())?;
    let mut staircase_steps: Vec<Step> = Vec::new();
    let mut i: usize = 0;
    while i < steps.len()
        invariant
            i <= steps@.len(),
            staircase_steps@.len() == i,
            forall|j: int| 0 <= j < i ==> ((#[trigger] staircase_steps@[j]).name@ == explicit_step_name(steps@[j]@)
                && (staircase_steps@[j].branch matches Some(b) && b@ == explicit_step_name(steps@[j]@))),
        decreases steps@.len() - i,
    {
        let oid = repo.resolve_commit(steps[i].as_str())?;
        let short = crate::staircase::archive::branch_name(steps[i].as_str());
        staircase_steps.push(Step { id: String::new(), name: short.clone(), cut: oid, branch: Some(short) });
        i += 1;
    }
    let id = compute_implicit_id(repo, onto_oid.as_str(), staircase_steps.as_slice())?;
    let base = check_sequential_layout(staircase_steps.as_slice());
    let (layout, layout_base) = match base {
        Some(b) => (Some(owned("sequential-v1")), Some(b)),
        None => (None, None),
    };
    let name = if steps.len() > 0 {
        crate::staircase::archive::branch_name(steps[steps.len() - 1].as_str())
    } else {
        owned("explicit")
    };
    Ok(ResolvedStaircase::Implicit(StaircaseMetadata {
        landing_policy: None,
        id,
        name,
        target: onto_final,
        steps: staircase_steps,
        verification_policy: None,
        primary_branch_layout: layout,
        branch_layout_base: layout_base,
        user_metadata: None,
        lifecycle: None,
    }))
}

/// The managed staircase with lineage id `id`.
pub fn resolve_by_id(repo: &GitRepo, id: &str) -> (r: Result<ResolvedStaircase>)
    ensures
        r matches Ok(rs) ==> (rs matches ResolvedStaircase::Managed(m) && m.id@ == id@),
{
    let staircases = list_all_staircases(repo)?;
    let mut i: usize = 0;
    while i < staircases.len()
        invariant
            i <= staircases@.len(),
        decreases staircases@.len() - i,
    {
        if str_eq(staircases[i].id.as_str(), id) {
            let mut s = staircases[i].clone();
            s.id = owned(id);
            return Ok(ResolvedStaircase::Managed(s));
        }
        i += 1;
    }
    Err(StaircaseError::NotFound(cat3("lineage ID '", id, "'")))
}

/// The managed staircase named `name`.
pub fn resolve_by_name(repo: &GitRepo, name: &str) -> (r: Result<ResolvedStaircase>)
    ensures
        r matches Ok(rs) ==> (rs matches ResolvedStaircase::Managed(m) && m.name@ == name@),
{
    let staircases = list_all_staircases(repo)?;
    let mut i: usize = 0;
    while i < staircases.len()
        invariant
            i <= staircases@.len(),
        decreases staircases@.len() - i,
    {
        if str_eq(staircases[i].name.as_str(), name) {
            let mut s = staircases[i].clone();
            s.name = owned(name);
            return Ok(ResolvedStaircase::Managed(s));
        }
        i += 1;
    }
    Err(StaircaseError::NotFound(cat3("managed name '", name, "'")))
}

/// The staircase whose record a public ref holds: managed when its lineage
/// is one of the active staircases, else implicit.
pub fn resolve_by_record(repo: &GitRepo, oid: &str) -> (r: Result<ResolvedStaircase>)
    ensures
        r matches Ok(rs) ==> !(rs is ImplicitFamily),
{
    let metadata = read_metadata_from_oid(repo, oid)?;
    let staircases = list_staircases(repo)?;
    let mut i: usize = 0;
    while i < staircases.len()
        invariant
            i <= staircases@.len(),
        decreases staircases@.len() - i,
    {
        if str_eq(staircases[i].id.as_str(), metadata.id.as_str()) {
            return Ok(ResolvedStaircase::Managed(metadata));
        }
        i += 1;
    }
    Ok(ResolvedStaircase::Implicit(metadata))
}

/// The message for a ref outside the public staircase namespace.
pub open spec fn not_staircase_ref_message(refname: Seq<char>) -> Seq<char> {
    "'"@ + refname + "' is not a full staircase ref"@
}

/// The staircase whose record the public ref `refname` holds.
pub fn resolve_by_ref(repo: &GitRepo, refname: &str) -> (r: Result<ResolvedStaircase>)
    ensures
        !"refs/staircases/"@.is_prefix_of(refname@) ==> (r matches Err(StaircaseError::Other(m))
            && m@ == not_staircase_ref_message(refname@)),
        r matches Ok(rs) ==> !(rs is ImplicitFamily),
{
    proof {
        reveal_strlit("refs/staircases/");
    }
    if !starts_with(refname, PUBLIC_PREFIX) {
        return Err(StaircaseError::Other(cat3("'", refname, "' is not a full staircase ref")));
    }
    let oid = repo.resolve_ref(refname)?;
    resolve_by_record(repo, oid.as_str())
}

/// The staircase recorded at revision `oid` (see `resolve_by_record`).
pub fn resolve_by_revision(repo: &GitRepo, oid: &str) -> (r: Result<ResolvedStaircase>)
    ensures
        r matches Ok(rs) ==> !(rs is ImplicitFamily),
{
    resolve_by_record(repo, oid)
}

/// The lineage id or structural key of a resolved staircase.
pub open spec fn resolved_key(rs: ResolvedStaircase) -> Seq<char> {
    match rs {
        ResolvedStaircase::ImplicitFamily(f) => f.id@,
        ResolvedStaircase::Managed(m) => m.id@,
        ResolvedStaircase::Implicit(m) => m.id@,
    }
}

/// The key a match of a structural key prefix is ordered by.
fn match_key(rs: &ResolvedStaircase) -> (r: &str)
    ensures
        r@ == (match *rs {
            ResolvedStaircase::ImplicitFamily(f) => f.id@,
            ResolvedStaircase::Managed(m) => m.id@,
            ResolvedStaircase::Implicit(m) => m.id@,
        }),
{
    match rs {
        ResolvedStaircase::ImplicitFamily(f) => f.id.as_str(),
        ResolvedStaircase::Managed(m) => m.id.as_str(),
        ResolvedStaircase::Implicit(m) => m.id.as_str(),
    }
}

/// Whether two matches are the same staircase: the same kind, key, name,
/// target and cuts.
/// Two matches are the same staircase (see [`same_match`]).
pub open spec fn spec_same_match(a: ResolvedStaircase, b: ResolvedStaircase) -> bool {
    match (a, b) {
        (ResolvedStaircase::ImplicitFamily(x), ResolvedStaircase::ImplicitFamily(y)) => x.id@ == y.id@
            && x.name@ == y.name@ && x.target@ == y.target@,
        (ResolvedStaircase::Implicit(x), ResolvedStaircase::Implicit(y)) => x.id@ == y.id@ && x.name@ == y.name@
            && x.target@ == y.target@ && x.steps@.len() == y.steps@.len()
            && forall|i: int| 0 <= i < x.steps@.len() ==> (#[trigger] x.steps@[i]).cut@ == y.steps@[i].cut@,
        _ => false,
    }
}

fn same_match(a: &ResolvedStaircase, b: &ResolvedStaircase) -> (r: bool)
    ensures
        r == spec_same_match(*a, *b),
{
    match (a, b) {
        (ResolvedStaircase::ImplicitFamily(x), ResolvedStaircase::ImplicitFamily(y)) => str_eq(x.id.as_str(), y.id.as_str())
            && str_eq(x.name.as_str(), y.name.as_str()) && str_eq(x.target.as_str(), y.target.as_str()),
        (ResolvedStaircase::Implicit(x), ResolvedStaircase::Implicit(y)) => {
            if !(str_eq(x.id.as_str(), y.id.as_str()) && str_eq(x.name.as_str(), y.name.as_str()) && str_eq(
                x.target.as_str(),
                y.target.as_str(),
            ) && x.steps.len() == y.steps.len()) {
                return false;
            }
            let mut i: usize = 0;
            while i < x.steps.len()
                invariant
                    i <= x.steps@.len(),
                    x.steps@.len() == y.steps@.len(),
                    *a == ResolvedStaircase::Implicit(*x),
                    *b == ResolvedStaircase::Implicit(*y),
                    x.id@ == y.id@ && x.name@ == y.name@ && x.target@ == y.target@,
                    forall|j: int| 0 <= j < i ==> (#[trigger] x.steps@[j]).cut@ == y.steps@[j].cut@,
                decreases x.steps@.len() - i,
            {
                if !str_eq(x.steps[i].cut.as_str(), y.steps[i].cut.as_str()) {
                    return false;
                }
                i += 1;
            }
            true
        },
        _ => false,
    }
}

/// The message for a structural key prefix that matches nothing.
pub open spec fn unknown_key_message(key: Seq<char>) -> Seq<char> {
    "implicit structural key '"@ + key + "'"@
}

/// The discovered staircase (or family, or path of a family) whose
/// structural key starts with `key`; several are an ambiguity.
pub fn resolve_by_structural_key(repo: &GitRepo, key: &str, onto: Option<&str>) -> (r: Result<ResolvedStaircase>)
    ensures
        r matches Ok(rs) ==> !(rs is Managed) && key@.is_prefix_of(resolved_key(rs)),
{
    let onto_final = onto_or_inferred(repo, onto)?;
    let discoveries = discover(repo, Some(onto_final.as_str()), None, false)?;
    let mut matches: Vec<ResolvedStaircase> = Vec::new();
    let mut d: usize = 0;
    while d < discoveries.len()
        invariant
            d <= discoveries@.len(),
            forall|j: int| 0 <= j < matches@.len() ==> !(#[trigger] matches@[j] is Managed) && key@.is_prefix_of(resolved_key(matches@[j])),
        decreases discoveries@.len() - d,
    {
        match &discoveries[d] {
            Discovery::Linear(s) => {
                if starts_with(s.id.as_str(), key) {
                    let mut found = s.clone();
                    found.id = s.id.clone();
                    matches.push(ResolvedStaircase::Implicit(found));
                }
            },
            Discovery::Ambiguous(f) => {
                if starts_with(f.id.as_str(), key) {
                    let mut family = f.clone();
                    family.id = f.id.clone();
                    matches.push(ResolvedStaircase::ImplicitFamily(family));
                }
                let names = f.steps.keys();
                let mut q: usize = 0;
                while q < names.len()
                    invariant
                        q <= names@.len(),
                        forall|j: int| 0 <= j < matches@.len() ==> !(#[trigger] matches@[j] is Managed) && key@.is_prefix_of(resolved_key(matches@[j])),
                    decreases names@.len() - q,
                {
                    match extract_path_to(f, names[q].as_str()) {
                        Some(path) => {
                            if starts_with(path.id.as_str(), key) {
                                matches.push(ResolvedStaircase::Implicit(path));
                            }
                        },
                        None => {},
                    }
                    q += 1;
                }
            },
        }
        d += 1;
    }
    // A stable insertion sort by key.
    let mut sorted: Vec<ResolvedStaircase> = Vec::new();
    while matches.len() > 0
        invariant
            forall|j: int| 0 <= j < matches@.len() ==> !(#[trigger] matches@[j] is Managed) && key@.is_prefix_of(resolved_key(matches@[j])),
            forall|j: int| 0 <= j < sorted@.len() ==> !(#[trigger] sorted@[j] is Managed) && key@.is_prefix_of(resolved_key(sorted@[j])),
        decreases matches@.len(),
    {
        let item = matches.remove(0);
        let mut pos: usize = sorted.len();
        while pos > 0 && crate::text::str_lt(match_key(&item), match_key(&sorted[pos - 1]))
            invariant
                pos <= sorted@.len(),
                forall|j: int| 0 <= j < sorted@.len() ==> !(#[trigger] sorted@[j] is Managed) && key@.is_prefix_of(resolved_key(sorted@[j])),
            decreases pos,
        {
            pos -= 1;
        }
        sorted.insert(pos, item);
    }
    let mut unique: Vec<ResolvedStaircase> = Vec::new();
    while sorted.len() > 0
        invariant
            forall|j: int| 0 <= j < sorted@.len() ==> !(#[trigger] sorted@[j] is Managed) && key@.is_prefix_of(resolved_key(sorted@[j])),
            forall|j: int| 0 <= j < unique@.len() ==> !(#[trigger] unique@[j] is Managed) && key@.is_prefix_of(resolved_key(unique@[j])),
        decreases sorted@.len(),
    {
        let item = sorted.remove(0);
        let dup = unique.len() > 0 && same_match(&unique[unique.len() - 1], &item);
        if !dup {
            unique.push(item);
        }
    }
    if unique.len() == 0 {
        return Err(StaircaseError::NotFound(cat3("implicit structural key '", key, "'")));
    }
    if unique.len() == 1 {
        return Ok(unique.remove(0));
    }
    let mut candidates: Vec<AmbiguityCandidate> = Vec::new();
    let mut c: usize = 0;
    while c < unique.len()
        invariant
            c <= unique@.len(),
        decreases unique@.len() - c,
    {
        let (id, name, target, cuts) = match &unique[c] {
            ResolvedStaircase::ImplicitFamily(f) => (f.id.clone(), f.name.clone(), f.target.clone(), Vec::new()),
            ResolvedStaircase::Managed(s) => (s.id.clone(), s.name.clone(), s.target.clone(), step_cuts_of(&s.steps)),
            ResolvedStaircase::Implicit(s) => (s.id.clone(), s.name.clone(), s.target.clone(), step_cuts_of(&s.steps)),
        };
        let integration_context = match repo.resolve_commit(target.as_str()) {
            Ok(o) => Some(o),
            Err(_) => None,
        };
        candidates.push(AmbiguityCandidate {
            kind: owned("implicit"),
            selector: cat("--structural-key ", id.as_str()),
            name: Some(name),
            lineage_id: None,
            structural_key: Some(id),
            record_oid: None,
            integration_context,
            cuts,
        });
        c += 1;
    }
    Err(StaircaseError::SelectorAmbiguous { selector: owned(key), candidates })
}

/// The cuts of `steps`, in order.
fn step_cuts_of(steps: &Vec<Step>) -> (r: Vec<String>)
    ensures
        r@.len() == steps@.len(),
{
    let mut out: Vec<String> = Vec::new();
    let mut i: usize = 0;
    while i < steps.len()
        invariant
            i <= steps@.len(),
            out@.len() == i,
        decreases steps@.len() - i,
    {
        out.push(steps[i].cut.clone());
        i += 1;
    }
    out
}

} // verus!
