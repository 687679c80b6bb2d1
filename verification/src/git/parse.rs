//! Parsers of Git's porcelain output: branch listings, tree listings and
//! worktree listings.

use vstd::prelude::*;
use crate::error::{Result, StaircaseError};
use crate::model::BranchInfo;
use super::types::{TreeEntry, WorktreeInfo};
use crate::text::{
    cat, lines, lines_of, owned, split_char, split_on, strip_prefix, trim, trim_str, views, words,
    words_of, find_char, to_chars, substring, lemma_find_char_is,
};

verus! {

/// A branch as plain character sequences: refname, object id and upstream.
pub open spec fn branch_view(b: BranchInfo) -> (Seq<char>, Seq<char>, Option<Seq<char>>) {
    (b.refname@, b.oid@, match b.upstream {
        Some(u) => Some(u@),
        None => None,
    })
}

/// The branch that one line of `for-each-ref --format=%(refname)%09%(objectname)%09%(upstream)`
/// describes: the trimmed line split at tabs needs at least two fields; an empty
/// third field means no upstream. Blank lines describe nothing.
pub open spec fn branch_of_line(line: Seq<char>) -> Option<(Seq<char>, Seq<char>, Option<Seq<char>>)> {
    let t = trim(line);
    let parts = split_char(t, '\t');
    if t.len() == 0 || parts.len() < 2 {
        None
    } else {
        Some((parts[0], parts[1], if parts.len() >= 3 && parts[2].len() > 0 {
            Some(parts[2])
        } else {
            None
        }))
    }
}

/// The branches that the lines describe, in order.
pub open spec fn branches_of_lines(ls: Seq<Seq<char>>) -> Seq<(Seq<char>, Seq<char>, Option<Seq<char>>)>
    decreases ls.len(),
{
    if ls.len() == 0 {
        seq![]
    } else {
        let rest = branches_of_lines(ls.drop_last());
        match branch_of_line(ls.last()) {
            Some(b) => rest.push(b),
            None => rest,
        }
    }
}

/// The branches listed in `output`.
pub open spec fn spec_branch_list(output: Seq<char>) -> Seq<(Seq<char>, Seq<char>, Option<Seq<char>>)> {
    branches_of_lines(lines(output))
}

/// The branches of a `for-each-ref` listing in the format
/// `%(refname)%09%(objectname)%09%(upstream)`.
pub fn parse_branch_list(output: &str) -> (r: Vec<BranchInfo>)
    ensures
        r@.map_values(|b: BranchInfo| branch_view(b)) == spec_branch_list(output@),
{
    let ls = lines_of(output);
    let mut r: Vec<BranchInfo> = Vec::new();
    let mut i: usize = 0;
    while i < ls.len()
        invariant
            i <= ls@.len(),
            views(ls@) == lines(output@),
            r@.map_values(|b: BranchInfo| branch_view(b)) == branches_of_lines(views(ls@).take(i as int)),
        decreases ls@.len() - i,
    {
        let ghost prev = r@;
        let ghost l = views(ls@);
        proof {
            assert(l.take(i + 1).drop_last() =~= l.take(i as int));
            assert(l.take(i + 1).last() == ls@[i as int]@);
        }
        let t = trim_str(ls[i].as_str());
        if t.unicode_len() > 0 {
            let parts = split_on(t.as_str(), '\t');
            if parts.len() >= 2 {
                let upstream = if parts.len() >= 3 && parts[2].unicode_len() > 0 {
                    Some(parts[2].clone())
                } else {
                    None
                };
                let b = BranchInfo { refname: parts[0].clone(), oid: parts[1].clone(), upstream };
                r.push(b);
                proof {
                    assert(r@.map_values(|b: BranchInfo| branch_view(b)) =~= prev.map_values(
                        |b: BranchInfo| branch_view(b),
                    ).push(branch_view(b)));
                }
            }
        }
        i += 1;
    }
    proof {
        assert(views(ls@).take(i as int) =~= views(ls@));
    }
    r
}

/// A tree entry as plain character sequences: mode, kind, object id and name.
pub open spec fn tree_entry_view(e: TreeEntry) -> (Seq<char>, Seq<char>, Seq<char>, Seq<char>) {
    (e.mode@, e.kind@, e.oid@, e.name@)
}

/// Ways in which a line of `git ls-tree` output can be malformed.
#[derive(Debug, Clone, Copy, PartialEq, Eq, Structural)]
pub enum TreeLineError {
    /// The line has no tab between metadata and name.
    MissingName,
    /// The metadata is not exactly mode, kind and object id.
    BadMetadata,
}

/// The entry of one `ls-tree` line: metadata before the first tab, made of
/// exactly three words, then the name.
pub open spec fn tree_entry_of_line(line: Seq<char>) -> core::result::Result<(Seq<char>, Seq<char>, Seq<char>, Seq<char>), TreeLineError> {
    let i = find_char(line, '\t');
    if i >= line.len() {
        Err(TreeLineError::MissingName)
    } else {
        let fields = words(line.take(i as int));
        if fields.len() != 3 {
            Err(TreeLineError::BadMetadata)
        } else {
            Ok((fields[0], fields[1], fields[2], line.skip(i as int + 1)))
        }
    }
}

/// The entries of the lines, or the error of the first malformed line.
pub open spec fn tree_entries_of_lines(ls: Seq<Seq<char>>) -> core::result::Result<Seq<(Seq<char>, Seq<char>, Seq<char>, Seq<char>)>, TreeLineError>
    decreases ls.len(),
{
    if ls.len() == 0 {
        Ok(seq![])
    } else {
        match tree_entries_of_lines(ls.drop_last()) {
            Err(e) => Err(e),
            Ok(r) => match tree_entry_of_line(ls.last()) {
                Err(e) => Err(e),
                Ok(x) => Ok(r.push(x)),
            },
        }
    }
}

proof fn lemma_tree_error_persists(ls: Seq<Seq<char>>, k: int, e: TreeLineError)
    requires
        0 <= k <= ls.len(),
        tree_entries_of_lines(ls.take(k)) == Err::<Seq<(Seq<char>, Seq<char>, Seq<char>, Seq<char>)>, TreeLineError>(e),
    ensures
        tree_entries_of_lines(ls) == Err::<Seq<(Seq<char>, Seq<char>, Seq<char>, Seq<char>)>, TreeLineError>(e),
    decreases ls.len() - k,
{
    if k < ls.len() {
        assert(ls.drop_last().take(k) =~= ls.take(k));
        lemma_tree_error_persists(ls.drop_last(), k, e);
    } else {
        assert(ls.take(k) =~= ls);
    }
}

/// The message for a malformed line of the listing of tree `oid`.
pub open spec fn tree_error_message(e: TreeLineError, oid: Seq<char>) -> Seq<char> {
    match e {
        TreeLineError::MissingName => "invalid ls-tree entry in "@ + oid,
        TreeLineError::BadMetadata => "invalid ls-tree metadata in "@ + oid,
    }
}

/// The entries of `git ls-tree` output for tree `oid`.
pub fn parse_tree_listing(oid: &str, output: &str) -> (r: Result<Vec<TreeEntry>>)
    ensures
        match tree_entries_of_lines(lines(output@)) {
            Ok(es) => r matches Ok(v) && v@.map_values(|e: TreeEntry| tree_entry_view(e)) == es,
            Err(e) => r matches Err(StaircaseError::Other(m)) && m@ == tree_error_message(e, oid@),
        },
{
    let ls = lines_of(output);
    let ghost l = views(ls@);
    let mut r: Vec<TreeEntry> = Vec::new();
    let mut i: usize = 0;
    proof {
        assert(l.take(0) =~= Seq::<Seq<char>>::empty());
        assert(r@.map_values(|e: TreeEntry| tree_entry_view(e)) =~= Seq::<(Seq<char>, Seq<char>, Seq<char>, Seq<char>)>::empty());
    }
    while i < ls.len()
        invariant
            i <= ls@.len(),
            l == views(ls@),
            l == lines(output@),
            tree_entries_of_lines(l.take(i as int)) == Ok::<Seq<(Seq<char>, Seq<char>, Seq<char>, Seq<char>)>, TreeLineError>(
                r@.map_values(|e: TreeEntry| tree_entry_view(e))),
        decreases ls@.len() - i,
    {
        proof {
            assert(l.take(i + 1).drop_last() =~= l.take(i as int));
            assert(l.take(i + 1).last() == ls@[i as int]@);
        }
        let line = ls[i].as_str();
        let chars = to_chars(line);
        let mut t: usize = 0;
        while t < chars.len() && chars[t] != '\t'
            invariant
                chars@ == line@,
                t <= chars@.len(),
                forall|k: int| 0 <= k < t ==> chars@[k] != '\t',
            decreases chars@.len() - t,
        {
            t += 1;
        }
        proof {
            lemma_find_char_is(line@, '\t', t as int);
        }
        if t == chars.len() {
            proof {
                lemma_tree_error_persists(l, i + 1, TreeLineError::MissingName);
            }
            return Err(StaircaseError::Other(cat("invalid ls-tree entry in ", oid)));
        }
        let metadata = substring(line, 0, t);
        let fields = words_of(metadata.as_str());
        proof {
            assert(line@.take(t as int) =~= metadata@);
        }
        if fields.len() != 3 {
            proof {
                lemma_tree_error_persists(l, i + 1, TreeLineError::BadMetadata);
            }
            return Err(StaircaseError::Other(cat("invalid ls-tree metadata in ", oid)));
        }
        let name = substring(line, t + 1, chars.len());
        proof {
            assert(line@.skip(t + 1) =~= name@);
        }
        let e = TreeEntry {
            mode: fields[0].clone(),
            kind: fields[1].clone(),
            oid: fields[2].clone(),
            name,
        };
        let ghost prev = r@;
        r.push(e);
        proof {
            assert(r@.map_values(|e: TreeEntry| tree_entry_view(e)) =~= prev.map_values(
                |e: TreeEntry| tree_entry_view(e),
            ).push(tree_entry_view(e)));
        }
        i += 1;
    }
    proof {
        assert(l.take(i as int) =~= l);
    }
    Ok(r)
}

/// A worktree as plain character sequences: path, head and branch.
pub open spec fn worktree_view(w: WorktreeInfo) -> (Seq<char>, Option<Seq<char>>, Option<Seq<char>>) {
    (w.path@, match w.head {
        Some(h) => Some(h@),
        None => None,
    }, match w.branch {
        Some(b) => Some(b@),
        None => None,
    })
}

/// Worktrees read so far, and the one being read.
pub type WorktreeScan = (Seq<(Seq<char>, Option<Seq<char>>, Option<Seq<char>>)>, Option<(Seq<char>, Option<Seq<char>>, Option<Seq<char>>)>);

/// One line of `git worktree list --porcelain`: `worktree <path>` starts a
/// worktree, `HEAD <oid>` and `branch <ref>` describe it, an empty line ends it.
pub open spec fn worktree_step(s: WorktreeScan, line: Seq<char>) -> WorktreeScan {
    let (done, cur) = s;
    if "worktree "@.is_prefix_of(line) {
        let finished = match cur {
            Some(w) => done.push(w),
            None => done,
        };
        (finished, Some((line.skip(9), None, None)))
    } else if "HEAD "@.is_prefix_of(line) {
        (done, match cur {
            Some(w) => Some((w.0, Some(line.skip(5)), w.2)),
            None => None,
        })
    } else if "branch "@.is_prefix_of(line) {
        (done, match cur {
            Some(w) => Some((w.0, w.1, Some(line.skip(7)))),
            None => None,
        })
    } else if line.len() == 0 {
        (match cur {
            Some(w) => done.push(w),
            None => done,
        }, None)
    } else {
        (done, cur)
    }
}

/// The scan after the lines.
pub open spec fn worktree_scan(ls: Seq<Seq<char>>) -> WorktreeScan
    decreases ls.len(),
{
    if ls.len() == 0 {
        (seq![], None)
    } else {
        worktree_step(worktree_scan(ls.drop_last()), ls.last())
    }
}

/// The worktrees that `worktree list --porcelain` output lists.
pub open spec fn spec_worktree_list(output: Seq<char>) -> Seq<(Seq<char>, Option<Seq<char>>, Option<Seq<char>>)> {
    worktree_scan(lines(output).push(seq![])).0
}

fn opt_view(o: &Option<String>) -> (r: Option<String>)
    ensures
        r == *o,
{
    match o {
        Some(s) => Some(s.clone()),
        None => None,
    }
}

/// The worktrees listed by `git worktree list --porcelain`.
pub fn parse_worktree_list(output: &str) -> (r: Vec<WorktreeInfo>)
    ensures
        r@.map_values(|w: WorktreeInfo| worktree_view(w)) == spec_worktree_list(output@),
{
    let mut ls = lines_of(output);
    let ghost l0 = views(ls@);
    ls.push(String::new());
    let ghost l = views(ls@);
    proof {
        assert(l =~= lines(output@).push(seq![]));
    }
    let mut done: Vec<WorktreeInfo> = Vec::new();
    let mut cur: Option<WorktreeInfo> = None;
    let mut i: usize = 0;
    while i < ls.len()
        invariant
            i <= ls@.len(),
            l == views(ls@),
            worktree_scan(l.take(i as int)) == (done@.map_values(|w: WorktreeInfo| worktree_view(w)), match cur {
                Some(w) => Some(worktree_view(w)),
                None => None,
            }),
        decreases ls@.len() - i,
    {
        proof {
            assert(l.take(i + 1).drop_last() =~= l.take(i as int));
            assert(l.take(i + 1).last() == ls@[i as int]@);
        }
        let line = ls[i].as_str();
        let ghost prev_done = done@;
        match strip_prefix(line, "worktree ") {
            Some(path) => {
                proof {
                    reveal_strlit("worktree ");
                }
                match cur {
                    Some(w) => {
                        done.push(w);
                        proof {
                            assert(done@.map_values(|w: WorktreeInfo| worktree_view(w)) =~= prev_done.map_values(
                                |w: WorktreeInfo| worktree_view(w),
                            ).push(worktree_view(w)));
                        }
                    },
                    None => {},
                }
                cur = Some(WorktreeInfo { path, head: None, branch: None });
            },
            None => {
                match strip_prefix(line, "HEAD ") {
                    Some(head) => {
                        proof {
                            reveal_strlit("HEAD ");
                        }
                        cur = match cur {
                            Some(w) => Some(WorktreeInfo { path: w.path, head: Some(head), branch: w.branch }),
                            None => None,
                        };
                    },
                    None => {
                        match strip_prefix(line, "branch ") {
                            Some(branch) => {
                                proof {
                                    reveal_strlit("branch ");
                                }
                                cur = match cur {
                                    Some(w) => Some(WorktreeInfo { path: w.path, head: w.head, branch: Some(branch) }),
                                    None => None,
                                };
                            },
                            None => {
                                if line.unicode_len() == 0 {
                                    match cur {
                                        Some(w) => {
                                            done.push(w);
                                            proof {
                                                assert(done@.map_values(|w: WorktreeInfo| worktree_view(w)) =~= prev_done.map_values(
                                                    |w: WorktreeInfo| worktree_view(w),
                                                ).push(worktree_view(w)));
                                            }
                                        },
                                        None => {},
                                    }
                                    cur = None;
                                }
                            },
                        }
                    },
                }
            },
        }
        i += 1;
    }
    proof {
        assert(l.take(i as int) =~= l);
    }
    done
}

} // verus!
