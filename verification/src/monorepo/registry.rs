//! The registry of shadow monorepo worktrees. The front end loads and saves
//! it as a whole; the library decides what each change does to it.

use vstd::prelude::*;
use crate::text::{split_char, split_on, str_eq, to_chars, views};

verus! {

/// A repository of the monorepo that has a real Git worktree in a shadow tree.
#[derive(Debug, Clone, PartialEq, Eq)]
pub struct ActiveRepoEntry {
    pub relative_path: String,
    pub worktree_path: String,
}

/// One shadow worktree of a monorepo.
#[derive(Debug, Clone, PartialEq, Eq)]
pub struct MonorepoWorktreeEntry {
    pub id: String,
    pub path: String,
    pub primary_root: String,
    pub active_repos: Vec<ActiveRepoEntry>,
    pub created_at: String,
}

/// All registered shadow worktrees, in the order they were added.
#[derive(Debug, Clone)]
pub struct MonorepoWorktreeRegistry {
    pub worktrees: Vec<MonorepoWorktreeEntry>,
}

impl Default for MonorepoWorktreeRegistry {
    fn default() -> (r: Self)
        ensures
            r.worktrees@.len() == 0,
    {
        MonorepoWorktreeRegistry { worktrees: Vec::new() }
    }
}

/// Whether the paths `a` and `b` have the same components.
pub fn same_path_text(a: &str, b: &str) -> (r: bool)
    ensures
        r == same_path(a@, b@),
{
    let ac = components_of(a);
    let bc = components_of(b);
    if ac.len() != bc.len() {
        proof {
            assert(views(ac@).len() != views(bc@).len());
        }
        return false;
    }
    let mut i: usize = 0;
    while i < ac.len()
        invariant
            views(ac@) == path_components(a@),
            views(bc@) == path_components(b@),
            ac@.len() == bc@.len(),
            i <= ac@.len(),
            forall|j: int| 0 <= j < i ==> ac@[j]@ == bc@[j]@,
        decreases ac@.len() - i,
    {
        if !str_eq(ac[i].as_str(), bc[i].as_str()) {
            proof {
                assert(views(ac@)[i as int] != views(bc@)[i as int]);
            }
            return false;
        }
        i += 1;
    }
    proof {
        assert(views(ac@) =~= views(bc@));
    }
    true
}

/// Whether `w` stays when `entry` is added: both its id and its path differ.
pub open spec fn survives_addition(w: MonorepoWorktreeEntry, id: Seq<char>, path: Seq<char>) -> bool {
    w.id@ != id && !same_path(w.path@, path)
}

/// Adds `entry`, dropping every entry that has the same id or the same path.
pub fn add_worktree_entry(registry: &mut MonorepoWorktreeRegistry, entry: MonorepoWorktreeEntry)
    ensures
        final(registry).worktrees@ == old(registry).worktrees@.filter(
            |w: MonorepoWorktreeEntry| survives_addition(w, entry.id@, entry.path@),
        ).push(entry),
{
    let ghost id = entry.id@;
    let ghost path = entry.path@;
    let ghost keep = |w: MonorepoWorktreeEntry| survives_addition(w, id, path);
    let ghost all = registry.worktrees@;
    let mut rest: Vec<MonorepoWorktreeEntry> = Vec::new();
    std::mem::swap(&mut rest, &mut registry.worktrees);
    let mut kept: Vec<MonorepoWorktreeEntry> = Vec::new();
    while rest.len() > 0
        invariant
            id == entry.id@,
            path == entry.path@,
            keep == (|w: MonorepoWorktreeEntry| survives_addition(w, id, path)),
            rest@.len() <= all.len(),
            all == all.take(all.len() - rest@.len()) + rest@,
            kept@ == all.take(all.len() - rest@.len()).filter(keep),
        decreases rest@.len(),
    {
        let ghost done = all.take(all.len() - rest@.len());
        let w = rest.remove(0);
        proof {
            let next = all.take(all.len() - rest@.len());
            assert(next.drop_last() =~= done);
            assert(next.last() == w);
            reveal(Seq::filter);
            assert(all =~= next + rest@);
        }
        let same_id = str_eq(w.id.as_str(), entry.id.as_str());
        let same_place = same_path_text(w.path.as_str(), entry.path.as_str());
        if !same_id && !same_place {
            kept.push(w);
        }
    }
    proof {
        assert(all.take(all.len() as int) =~= all);
    }
    kept.push(entry);
    registry.worktrees = kept;
}

/// Whether `w` is the entry that `id_or_path` names: by id, by its recorded
/// path, or by the canonical form of the given path.
pub open spec fn names_entry(w: MonorepoWorktreeEntry, id_or_path: Seq<char>, canonical: Option<Seq<char>>) -> bool {
    w.id@ == id_or_path || w.path@ == id_or_path || (canonical matches Some(c) && same_path(w.path@, c))
}

/// Removes the first entry that `id_or_path` names (see `names_entry`; the
/// front end passes the canonical form of `id_or_path` when it has one) and
/// returns it; none, and the registry unchanged, when no entry matches.
pub fn remove_worktree_entry(
    registry: &mut MonorepoWorktreeRegistry,
    id_or_path: &str,
    canonical_target: Option<&str>,
) -> (r: Option<MonorepoWorktreeEntry>)
    ensures
        ({
            let ws = old(registry).worktrees@;
            let c = match canonical_target { Some(t) => Some(t@), None => None };
            match r {
                Some(e) => exists|i: int|
                    0 <= i < ws.len() && names_entry(ws[i], id_or_path@, c)
                        && (forall|j: int| 0 <= j < i ==> !names_entry(#[trigger] ws[j], id_or_path@, c))
                        && e == ws[i] && final(registry).worktrees@ == ws.remove(i),
                None => (forall|j: int| 0 <= j < ws.len() ==> !names_entry(#[trigger] ws[j], id_or_path@, c))
                    && final(registry).worktrees@ == ws,
            }
        }),
{
    let ghost c = match canonical_target { Some(t) => Some(t@), None => None::<Seq<char>> };
    let mut i: usize = 0;
    while i < registry.worktrees.len()
        invariant
            c == match canonical_target { Some(t) => Some(t@), None => None::<Seq<char>> },
            registry.worktrees@ == old(registry).worktrees@,
            i <= registry.worktrees@.len(),
            forall|j: int| 0 <= j < i ==> !names_entry(#[trigger] registry.worktrees@[j], id_or_path@, c),
        decreases registry.worktrees@.len() - i,
    {
        let w = &registry.worktrees[i];
        let by_target = match canonical_target {
            Some(t) => same_path_text(w.path.as_str(), t),
            None => false,
        };
        if str_eq(w.id.as_str(), id_or_path) || str_eq(w.path.as_str(), id_or_path) || by_target {
            let removed = registry.worktrees.remove(i);
            proof {
                let ws = old(registry).worktrees@;
                assert(names_entry(ws[i as int], id_or_path@, c));
                assert(removed == ws[i as int] && registry.worktrees@ == ws.remove(i as int));
            }
            return Some(removed);
        }
        i += 1;
    }
    None
}

/// The components of a path as `Path::components` reads them: the root
/// first when the path is absolute, a `.` when the path starts with one
/// (alone or before a slash), then each non-empty piece between slashes
/// other than `.`.
pub open spec fn path_components(p: Seq<char>) -> Seq<Seq<char>> {
    let root: Seq<Seq<char>> = if p.len() > 0 && p[0] == '/' { seq!["/"@] } else { seq![] };
    let cur: Seq<Seq<char>> = if p.len() > 0 && p[0] == '.' && (p.len() == 1 || p[1] == '/') { seq!["."@] } else { seq![] };
    root + cur + split_char(p, '/').filter(|c: Seq<char>| c.len() > 0 && c != "."@)
}

/// Whether two paths have the same components (`Path` equality).
pub open spec fn same_path(a: Seq<char>, b: Seq<char>) -> bool {
    path_components(a) == path_components(b)
}

/// Whether `base` is a leading part of `p`, component by component
/// (`Path::starts_with`).
pub open spec fn path_starts_with(p: Seq<char>, base: Seq<char>) -> bool {
    path_components(base).is_prefix_of(path_components(p))
}

/// The components of `p` (see `path_components`).
pub fn components_of(p: &str) -> (r: Vec<String>)
    ensures
        views(r@) == path_components(p@),
{
    let pieces = split_on(p, '/');
    let ghost ps = split_char(p@, '/');
    let ghost keep = |c: Seq<char>| c.len() > 0 && c != "."@;
    let mut out: Vec<String> = Vec::new();
    let chars = to_chars(p);
    let is_abs = chars.len() > 0 && chars[0] == '/';
    if is_abs {
        out.push("/".to_string());
    }
    let is_cur = chars.len() > 0 && chars[0] == '.' && (chars.len() == 1 || chars[1] == '/');
    if is_cur {
        out.push(".".to_string());
    }
    let ghost root: Seq<Seq<char>> = (if is_abs { seq!["/"@] } else { seq![] }) + (if is_cur { seq!["."@] } else { seq![] });
    proof {
        reveal_strlit("/");
        reveal_strlit(".");
        assert(views(out@) =~= root);
    }
    let mut i: usize = 0;
    while i < pieces.len()
        invariant
            views(pieces@) == ps,
            keep == (|c: Seq<char>| c.len() > 0 && c != "."@),
            i <= pieces@.len(),
            views(out@) == root + ps.take(i as int).filter(keep),
        decreases pieces@.len() - i,
    {
        proof {
            assert(ps.take(i + 1).drop_last() =~= ps.take(i as int));
            assert(ps.take(i + 1).last() == pieces@[i as int]@);
            reveal(Seq::filter);
        }
        let piece = &pieces[i];
        let n = piece.as_str().unicode_len();
        if n > 0 && !str_eq(piece.as_str(), ".") {
            proof {
                reveal_strlit(".");
            }
            let ghost before = views(out@);
            out.push(piece.clone());
            proof {
                assert(views(out@) =~= before.push(pieces@[i as int]@));
            }
        } else {
            proof {
                reveal_strlit(".");
            }
        }
        i += 1;
    }
    proof {
        assert(ps.take(pieces@.len() as int) =~= ps);
        reveal_strlit("/");
    }
    out
}

/// Whether `base` is a leading part of `p`, component by component.
pub fn starts_with_path(p: &str, base: &str) -> (r: bool)
    ensures
        r == path_starts_with(p@, base@),
{
    let pc = components_of(p);
    let bc = components_of(base);
    if bc.len() > pc.len() {
        return false;
    }
    let mut i: usize = 0;
    while i < bc.len()
        invariant
            views(pc@) == path_components(p@),
            views(bc@) == path_components(base@),
            bc@.len() <= pc@.len(),
            i <= bc@.len(),
            forall|j: int| 0 <= j < i ==> pc@[j]@ == bc@[j]@,
        decreases bc@.len() - i,
    {
        if !str_eq(pc[i].as_str(), bc[i].as_str()) {
            proof {
                assert(views(pc@)[i as int] != views(bc@)[i as int]);
            }
            return false;
        }
        i += 1;
    }
    proof {
        assert(views(bc@) =~= views(pc@).take(bc@.len() as int));
    }
    true
}

/// The first registered worktree whose path contains `canonical_path`.
/// `entry_paths[i]` is the canonical form of the path of the `i`-th entry
/// (its recorded path when it cannot be canonicalized).
pub fn find_shadow_worktree_for_path(
    registry: MonorepoWorktreeRegistry,
    canonical_path: &str,
    entry_paths: &Vec<String>,
) -> (r: Option<MonorepoWorktreeEntry>)
    requires
        entry_paths@.len() == registry.worktrees@.len(),
    ensures
        match r {
            Some(e) => exists|i: int|
                0 <= i < entry_paths@.len() && path_starts_with(canonical_path@, entry_paths@[i]@)
                    && (forall|j: int| 0 <= j < i ==> !path_starts_with(canonical_path@, #[trigger] entry_paths@[j]@))
                    && e == registry.worktrees@[i],
            None => forall|j: int| 0 <= j < entry_paths@.len()
                ==> !path_starts_with(canonical_path@, #[trigger] entry_paths@[j]@),
        },
{
    let ghost all = registry.worktrees@;
    let mut worktrees = registry.worktrees;
    let mut i: usize = 0;
    while i < entry_paths.len()
        invariant
            worktrees@ == all,
            all == registry.worktrees@,
            entry_paths@.len() == all.len(),
            i <= entry_paths@.len(),
            forall|j: int| 0 <= j < i ==> !path_starts_with(canonical_path@, #[trigger] entry_paths@[j]@),
        decreases entry_paths@.len() - i,
    {
        if starts_with_path(canonical_path, entry_paths[i].as_str()) {
            let e = worktrees.remove(i);
            proof {
                assert(path_starts_with(canonical_path@, entry_paths@[i as int]@));
                assert(e == all[i as int]);
            }
            return Some(e);
        }
        i += 1;
    }
    None
}


/// After an entry is added to the registry (see `add_worktree_entry`), it
/// is the last entry and the only one with its id or its path.
pub proof fn law_added_entry_is_unique(ws: Seq<MonorepoWorktreeEntry>, e: MonorepoWorktreeEntry)
    ensures
        ({
            let after = ws.filter(|w: MonorepoWorktreeEntry| survives_addition(w, e.id@, e.path@)).push(e);
            &&& after.last() == e
            &&& forall|i: int| 0 <= i < after.len() - 1 ==> (#[trigger] after[i]).id@ != e.id@ && after[i].path@ != e.path@
        }),
{
    let keep = |w: MonorepoWorktreeEntry| survives_addition(w, e.id@, e.path@);
    let kept = ws.filter(keep);
    let after = kept.push(e);
    assert forall|i: int| 0 <= i < after.len() - 1 implies (#[trigger] after[i]).id@ != e.id@ && after[i].path@ != e.path@ by {
        assert(after[i] == kept[i]);
        ws.lemma_filter_pred(keep, i);
    }
}

} // verus!
