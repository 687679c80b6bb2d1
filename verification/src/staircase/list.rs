//! Listing staircases: recorded ones, discovered ones and families, one per
//! structural key, recorded ones first.

use vstd::prelude::*;
use crate::collections::SortedMap;
use crate::error::{Result, StaircaseError};
use crate::git::graph::contains_text;
use crate::git::repo::GitRepo;
use crate::model::{Discovery, StaircaseState};
use crate::staircase::discovery::{compute_implicit_id, discover};
use crate::staircase::persistence::{list_all_staircases, list_archived_staircases, list_archived_structural_keys, list_staircases};
use crate::staircase::resolved::ResolvedStaircase;
use crate::text::cat;

verus! {

/// What to list.
#[derive(Debug, Clone, PartialEq, Eq)]
pub struct ListFilter {
    pub managed: bool,
    pub discovered: bool,
    pub families: bool,
    pub implicit: bool,
    pub stale: bool,
    pub archived: bool,
    pub all: bool,
    pub include_archived_materializations: bool,
    pub diagnostics: bool,
    pub onto: Option<String>,
}

impl Default for ListFilter {
    /// A filter with nothing selected, which lists the default view.
    fn default() -> (f: Self)
        ensures
            !f.managed && !f.discovered && !f.families && !f.implicit && !f.stale && !f.archived && !f.all
                && !f.include_archived_materializations && !f.diagnostics && f.onto is None,
    {
        ListFilter {
            managed: false,
            discovered: false,
            families: false,
            implicit: false,
            stale: false,
            archived: false,
            all: false,
            include_archived_materializations: false,
            diagnostics: false,
            onto: None,
        }
    }
}

/// The default view: no selection at all.
pub open spec fn shows_default(f: ListFilter) -> bool {
    !f.all && !f.managed && !(f.implicit || f.discovered) && !f.families && !f.stale && !f.archived
}

/// Which recorded staircases a filter lists: archived ones, all, or the
/// active ones (for `managed`, `stale` and the default view); none otherwise.
pub enum RecordSelection {
    Archived,
    All,
    Active,
    Nothing,
}

/// The recorded staircases that `filter` selects (see [`RecordSelection`]).
pub open spec fn spec_record_selection(f: ListFilter) -> RecordSelection {
    if f.archived {
        RecordSelection::Archived
    } else if f.all {
        RecordSelection::All
    } else if f.managed || f.stale || shows_default(f) {
        RecordSelection::Active
    } else {
        RecordSelection::Nothing
    }
}

/// Whether a canonical entry is replaced by a new staircase of the same key:
/// a recorded staircase is never replaced, and any other entry is replaced
/// by a recorded one.
pub open spec fn spec_replaces(existing: Option<ResolvedStaircase>, incoming: ResolvedStaircase) -> bool {
    match existing {
        None => true,
        Some(ResolvedStaircase::Managed(_)) => false,
        Some(_) => incoming is Managed,
    }
}

/// Decides whether `incoming` takes the key's place (see [`spec_replaces`]).
pub fn replaces(existing: Option<&ResolvedStaircase>, incoming: &ResolvedStaircase) -> (b: bool)
    ensures
        b == spec_replaces(match existing { Some(e) => Some(*e), None => None }, *incoming),
{
    match existing {
        None => true,
        Some(ResolvedStaircase::Managed(_)) => false,
        Some(_) => incoming.is_managed(),
    }
}

/// The canonical entries after `s` arrives under `key` (see [`spec_replaces`]).
pub open spec fn spec_keep(m: Map<Seq<char>, ResolvedStaircase>, key: Seq<char>, s: ResolvedStaircase) -> Map<Seq<char>, ResolvedStaircase> {
    if spec_replaces(if m.contains_key(key) { Some(m[key]) } else { None }, s) {
        m.insert(key, s)
    } else {
        m
    }
}

/// The staircase that each key keeps when the keyed staircases arrive in order.
pub open spec fn spec_canonical(items: Seq<(Seq<char>, ResolvedStaircase)>) -> Map<Seq<char>, ResolvedStaircase>
    decreases items.len(),
{
    if items.len() == 0 {
        Map::empty()
    } else {
        spec_keep(spec_canonical(items.drop_last()), items.last().0, items.last().1)
    }
}

/// Keyed staircases by the characters of their keys.
pub open spec fn keyed_view(items: Seq<(String, ResolvedStaircase)>) -> Seq<(Seq<char>, ResolvedStaircase)> {
    items.map_values(|e: (String, ResolvedStaircase)| (e.0@, e.1))
}

/// One staircase per key (see [`spec_canonical`]), in key order.
pub fn canonical_staircases(items: Vec<(String, ResolvedStaircase)>) -> (r: SortedMap<ResolvedStaircase>)
    ensures
        r.view() == spec_canonical(keyed_view(items@)),
{
    let ghost all = keyed_view(items@);
    let mut rest = items;
    let mut canonical: SortedMap<ResolvedStaircase> = SortedMap::new();
    let ghost n = all.len();
    proof {
        assert(all.take(0) =~= seq![]);
    }
    while rest.len() > 0
        invariant
            rest@.len() <= n,
            n == all.len(),
            keyed_view(rest@) == all.skip(n - rest@.len()),
            canonical.view() == spec_canonical(all.take(n - rest@.len())),
        decreases rest@.len(),
    {
        let ghost done = n - rest@.len();
        let ghost before = rest@;
        let (key, staircase) = rest.remove(0);
        proof {
            assert(keyed_view(before)[0] == all.skip(done)[0]);
            assert(all[done] == (key@, staircase));
        }
        if replaces(canonical.get(key.as_str()), &staircase) {
            canonical.insert(key, staircase);
        }
        proof {
            assert(all.take(done + 1).drop_last() =~= all.take(done));
            assert(rest@.len() == before.len() - 1);
            assert forall|j: int| 0 <= j < rest@.len() implies keyed_view(rest@)[j] == all.skip(done + 1)[j] by {
                assert(rest@[j] == before[j + 1]);
                assert(keyed_view(before)[j + 1] == all.skip(done)[j + 1]);
            }
            assert(keyed_view(rest@) =~= all.skip(n - rest@.len()));
        }
    }
    proof {
        assert(all.take(n as int) =~= all);
    }
    canonical
}

/// Whether `filter` lists staircases of the kind of `rs`: recorded ones when
/// it selects records (see [`spec_record_selection`]), discovered linear
/// ones for `implicit`, `discovered` and the default view, families for
/// `families` and the default view.
pub open spec fn listed_kind(f: ListFilter, rs: ResolvedStaircase) -> bool {
    match rs {
        ResolvedStaircase::Managed(_) => !(spec_record_selection(f) is Nothing),
        ResolvedStaircase::Implicit(_) => f.implicit || f.discovered || shows_default(f),
        ResolvedStaircase::ImplicitFamily(_) => f.families || shows_default(f),
    }
}

/// Every staircase that a canonical map keeps is one of those that arrived.
proof fn lemma_canonical_values(f: ListFilter, items: Seq<(Seq<char>, ResolvedStaircase)>)
    requires
        forall|i: int| 0 <= i < items.len() ==> listed_kind(f, #[trigger] items[i].1),
    ensures
        forall|k: Seq<char>| #[trigger] spec_canonical(items).contains_key(k) ==> listed_kind(f, spec_canonical(items)[k]),
    decreases items.len(),
{
    if items.len() > 0 {
        let front = items.drop_last();
        assert forall|i: int| 0 <= i < front.len() implies listed_kind(f, #[trigger] front[i].1) by {
            assert(front[i] == items[i]);
        }
        lemma_canonical_values(f, front);
        let prev = spec_canonical(front);
        let k0 = items.last().0;
        let s0 = items.last().1;
        assert(listed_kind(f, items[items.len() - 1].1));
        assert(spec_canonical(items) == spec_keep(prev, k0, s0));
        assert forall|k: Seq<char>| #[trigger] spec_canonical(items).contains_key(k) implies listed_kind(
            f,
            spec_canonical(items)[k],
        ) by {
            if spec_replaces(if prev.contains_key(k0) { Some(prev[k0]) } else { None }, s0) {
                if k != k0 {
                    assert(prev.contains_key(k));
                }
            } else {
                assert(prev.contains_key(k));
            }
        }
    }
}

/// The key a listed staircase is kept under: a discovered one's id, and
/// `family:` and a family's id (a recorded one's is computed from Git).
pub open spec fn keyed_as(key: Seq<char>, s: ResolvedStaircase) -> bool {
    match s {
        ResolvedStaircase::Implicit(m) => key == m.id@,
        ResolvedStaircase::ImplicitFamily(f) => key == "family:"@ + f.id@,
        ResolvedStaircase::Managed(_) => true,
    }
}

/// `listed` are the staircases kept for `items` (see [`spec_canonical`]),
/// one per key, in increasing key order (`keys`).
pub open spec fn listed_from(items: Seq<(Seq<char>, ResolvedStaircase)>, keys: Seq<Seq<char>>, listed: Seq<ResolvedStaircase>) -> bool {
    let c = spec_canonical(items);
    &&& forall|i: int| 0 <= i < items.len() ==> keyed_as(#[trigger] items[i].0, items[i].1)
    &&& keys.len() == listed.len()
    &&& forall|i: int| 0 <= i < keys.len() ==> c.contains_key(#[trigger] keys[i]) && c[keys[i]] == listed[i]
    &&& forall|k: Seq<char>| #[trigger] c.contains_key(k) ==> keys.contains(k)
    &&& forall|i: int, j: int| 0 <= i < j < keys.len() ==> crate::text::seq_lt(keys[i], keys[j])
}

/// The staircases that `filter` selects: recorded ones (see
/// [`spec_record_selection`]); discovered linear staircases (for `implicit`,
/// `discovered` and the default view) unless an archived staircase already
/// has their key; families (for `families` and the default view). Each key
/// (a recorded staircase's computed key, a discovery's id, `family:<id>`)
/// keeps one staircase (see [`canonical_staircases`]), in key order; with
/// `stale`, only the staircases whose status is stale. Discovery failures
/// list no discoveries.
pub fn list(repo: &GitRepo, filter: ListFilter) -> (r: Result<Vec<ResolvedStaircase>>)
    ensures
        r matches Ok(v) ==> forall|i: int| 0 <= i < v@.len() ==> listed_kind(filter, #[trigger] v@[i]),
        r matches Ok(v) ==> (filter.stale ==> forall|i: int| 0 <= i < v@.len() ==> !(#[trigger] v@[i] is ImplicitFamily)),
        r matches Ok(v) ==> (!filter.stale ==> exists|items: Seq<(Seq<char>, ResolvedStaircase)>, keys: Seq<Seq<char>>|
            #[trigger] listed_from(items, keys, v@)),
{
    let show_implicit = filter.implicit || filter.discovered;
    let show_all = !filter.all && !filter.managed && !show_implicit && !filter.families && !filter.stale && !filter.archived;
    let all = filter.all;
    let mut resolved: Vec<ResolvedStaircase> = Vec::new();
    let recorded = if filter.archived {
        Some(list_archived_staircases(repo)?)
    } else if all {
        Some(list_all_staircases(repo)?)
    } else if filter.managed || filter.stale || show_all {
        Some(list_staircases(repo)?)
    } else {
        None
    };
    match recorded {
        Some(mut list) => {
            while list.len() > 0
                invariant
                    !(spec_record_selection(filter) is Nothing),
                    forall|i: int| 0 <= i < resolved@.len() ==> listed_kind(filter, #[trigger] resolved@[i]),
                decreases list@.len(),
            {
                let s = list.remove(0);
                resolved.push(ResolvedStaircase::Managed(s));
            }
        },
        None => {},
    }
    let suppressed: Vec<String> = if !filter.include_archived_materializations && !filter.diagnostics && !all {
        match list_archived_structural_keys(repo) {
            Ok(k) => k,
            Err(_) => Vec::new(),
        }
    } else {
        Vec::new()
    };
    let mut discovered_items: Vec<Discovery> = Vec::new();
    if show_implicit || filter.families || show_all {
        let onto = match &filter.onto {
            Some(o) => Some(o.as_str()),
            None => None,
        };
        match discover(repo, onto, None, filter.families) {
            Ok(list) => {
                let mut i: usize = 0;
                while i < list.len()
                    invariant
                        i <= list@.len(),
                        show_implicit == (filter.implicit || filter.discovered),
                        show_all == shows_default(filter),
                        forall|j: int| 0 <= j < resolved@.len() ==> listed_kind(filter, #[trigger] resolved@[j]),
                    decreases list@.len() - i,
                {
                    match &list[i] {
                        Discovery::Linear(s) => {
                            if (show_implicit || show_all) && !contains_text(&suppressed, s.id.as_str()) {
                                resolved.push(ResolvedStaircase::Implicit(s.clone()));
                            }
                        },
                        Discovery::Ambiguous(f) => {
                            if filter.families || show_all {
                                resolved.push(ResolvedStaircase::ImplicitFamily(f.clone()));
                            }
                        },
                    }
                    i += 1;
                }
                discovered_items = list;
            },
            Err(_) => {},
        }
    }
    let mut keyed: Vec<(String, ResolvedStaircase)> = Vec::new();
    while resolved.len() > 0
        invariant
            forall|j: int| 0 <= j < resolved@.len() ==> listed_kind(filter, #[trigger] resolved@[j]),
            forall|j: int| 0 <= j < keyed@.len() ==> listed_kind(filter, #[trigger] keyed@[j].1),
            forall|j: int| 0 <= j < keyed@.len() ==> keyed_as(#[trigger] keyed@[j].0@, keyed@[j].1),
        decreases resolved@.len(),
    {
        let ghost before = resolved@;
        let staircase = resolved.remove(0);
        proof {
            assert(staircase == before[0]);
            assert forall|j: int| 0 <= j < resolved@.len() implies listed_kind(filter, #[trigger] resolved@[j]) by {
                assert(resolved@[j] == before[j + 1]);
            }
        }
        let key = match &staircase {
            ResolvedStaircase::Managed(metadata) => {
                let integration = repo.resolve_commit(metadata.target.as_str())?;
                compute_implicit_id(repo, integration.as_str(), metadata.steps.as_slice())?
            },
            ResolvedStaircase::Implicit(metadata) => metadata.id.clone(),
            ResolvedStaircase::ImplicitFamily(family) => cat("family:", family.id.as_str()),
        };
        proof {
            reveal_strlit("family:");
        }
        keyed.push((key, staircase));
    }
    let ghost keyed_items = keyed_view(keyed@);
    proof {
        assert forall|i: int| 0 <= i < keyed_items.len() implies listed_kind(filter, #[trigger] keyed_items[i].1) by {
            assert(keyed_items[i].1 == keyed@[i].1);
        }
        lemma_canonical_values(filter, keyed_items);
    }
    let canonical = canonical_staircases(keyed);
    let cached_draft = if filter.stale {
        match crate::staircase::draft::get_worktree_draft(repo) {
            Ok(d) => Some(d),
            Err(_) => None,
        }
    } else {
        None
    };
    let ghost cmap = canonical.view();
    let mut entries = canonical.into_entries();
    let ghost all = entries@;
    proof {
        assert forall|j: int| 0 <= j < entries@.len() implies listed_kind(filter, #[trigger] entries@[j].1) by {
            assert(cmap.contains_key(entries@[j].0@));
        }
    }
    let mut results: Vec<ResolvedStaircase> = Vec::new();
    while entries.len() > 0
        invariant
            forall|j: int| 0 <= j < entries@.len() ==> listed_kind(filter, #[trigger] entries@[j].1),
            forall|j: int| 0 <= j < results@.len() ==> listed_kind(filter, #[trigger] results@[j]),
            filter.stale ==> forall|j: int| 0 <= j < results@.len() ==> !(#[trigger] results@[j] is ImplicitFamily),
            entries@.len() <= all.len(),
            entries@ == all.skip(all.len() - entries@.len()),
            !filter.stale ==> results@.len() == all.len() - entries@.len(),
            !filter.stale ==> forall|j: int| 0 <= j < results@.len() ==> #[trigger] results@[j] == all[j].1,
        decreases entries@.len(),
    {
        let ghost before = entries@;
        let ghost idx = all.len() - entries@.len();
        let (_, rs) = entries.remove(0);
        proof {
            assert(rs == before[0].1);
            assert(before[0] == all[idx]);
            assert(entries@ =~= all.skip(all.len() - entries@.len()));
            assert forall|j: int| 0 <= j < entries@.len() implies listed_kind(filter, #[trigger] entries@[j].1) by {
                assert(entries@[j] == before[j + 1]);
            }
        }
        if filter.stale {
            match &rs {
                ResolvedStaircase::ImplicitFamily(_) => {},
                _ => {
                    let m = rs.metadata();
                    let status = crate::staircase::status::get_status_metadata_ext(
                        repo,
                        m.clone(),
                        !rs.is_managed(),
                        Some(&discovered_items),
                        Some(cached_draft.clone()),
                    )?;
                    if status.state() == StaircaseState::Stale {
                        results.push(rs);
                    }
                },
            }
        } else {
            results.push(rs);
        }
    }
    proof {
        if !filter.stale {
            let keys = all.map_values(|e: (String, ResolvedStaircase)| e.0@);
            assert forall|i: int| 0 <= i < keys.len() implies cmap.contains_key(#[trigger] keys[i]) && cmap[keys[i]]
                == results@[i] by {
                assert(keys[i] == all[i].0@);
            }
            assert forall|k: Seq<char>| #[trigger] cmap.contains_key(k) implies keys.contains(k) by {
                let y = choose|y: int| 0 <= y < all.len() && all[y].0@ == k;
                assert(keys[y] == k);
            }
            assert forall|i: int, j: int| 0 <= i < j < keys.len() implies crate::text::seq_lt(keys[i], keys[j]) by {
                assert(keys[i] == all[i].0@ && keys[j] == all[j].0@);
            }
            assert forall|i: int| 0 <= i < keyed_items.len() implies keyed_as(#[trigger] keyed_items[i].0, keyed_items[i].1) by {
            }
            assert(listed_from(keyed_items, keys, results@));
        }
    }
    Ok(results)
}

} // verus!
