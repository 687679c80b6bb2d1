//! The draft of the worktree as an operation found it, captured before the
//! operation and restored when it is aborted or after it succeeds.

use vstd::prelude::*;
use crate::collections::SortedMap;
use crate::error::{Result, StaircaseError};
use crate::git::repo::{path_join, GitRepo};
use crate::model::DraftFileSnapshot;
use crate::text::{owned, split_char, split_on, str_eq, strip_prefix, trim_str, views};

verus! {

/// The worktree's draft: the commit and branch checked out, the index (as a
/// tree, or as `ls-files -s` text with the dirty files when it has
/// conflicts), the unstaged changes as a binary patch, the untracked files and
/// the draft attachment file.
#[derive(Debug, Clone, PartialEq, Eq)]
pub struct DraftRecovery {
    pub head_oid: String,
    pub head_ref: Option<String>,
    pub index_tree_oid: Option<String>,
    pub index_snapshot: Option<String>,
    pub dirty_files: Vec<DraftFileSnapshot>,
    pub unstaged_patch: String,
    pub untracked_paths: Vec<String>,
    pub untracked_files: Vec<DraftFileSnapshot>,
    pub attachment_json: Option<String>,
}

/// The non-empty pieces of `text` split at NUL characters.
pub fn nul_separated(text: &str) -> (r: Vec<String>)
    ensures
        views(r@) == split_char(text@, '\0').filter(|p: Seq<char>| p.len() > 0),
{
    let parts = split_on(text, '\0');
    let ghost keep = |p: Seq<char>| p.len() > 0;
    let mut r: Vec<String> = Vec::new();
    let mut i: usize = 0;
    while i < parts.len()
        invariant
            keep == (|p: Seq<char>| p.len() > 0),
            views(parts@) == split_char(text@, '\0'),
            i <= parts@.len(),
            views(r@) == views(parts@).take(i as int).filter(keep),
        decreases parts@.len() - i,
    {
        proof {
            assert(views(parts@).take(i + 1).drop_last() =~= views(parts@).take(i as int));
            assert(views(parts@).take(i + 1).last() == parts@[i as int]@);
            reveal(Seq::filter);
        }
        if parts[i].unicode_len() > 0 {
            proof {
                crate::text::lemma_views_push(r@, parts@[i as int]);
            }
            r.push(parts[i].clone());
        }
        i += 1;
    }
    proof {
        assert(views(parts@).take(parts@.len() as int) =~= views(parts@));
    }
    r
}

/// The last piece of `line` split at tabs.
fn last_tab_field(line: &str) -> (r: String) {
    let parts = split_on(line, '\t');
    if parts.len() > 0 {
        parts[parts.len() - 1].clone()
    } else {
        owned(line)
    }
}

/// The output of a `git` command run untrimmed, or empty text when it fails.
fn run_or_empty(repo: &GitRepo, args: &[&str]) -> (r: String) {
    match repo.command().args(args).trim(false).run() {
        Ok(s) => s,
        Err(_) => String::new(),
    }
}

/// The index of a conflicted worktree: `ls-files -s` text, and snapshots of
/// the modified and unmerged files, each path once, in path order.
fn capture_conflicted_state(repo: &GitRepo) -> (r: Result<(Option<String>, Vec<DraftFileSnapshot>)>) {
    let index_snapshot = match repo.run(&["ls-files", "-s"]) {
        Ok(s) => Some(s),
        Err(_) => None,
    };
    let mut paths: SortedMap<bool> = SortedMap::new();
    let modified = run_or_empty(repo, &["ls-files", "-m", "-z"]);
    let mods = nul_separated(modified.as_str());
    let mut i: usize = 0;
    while i < mods.len()
        invariant
            i <= mods@.len(),
        decreases mods@.len() - i,
    {
        paths.insert(mods[i].clone(), true);
        i += 1;
    }
    let unmerged = run_or_empty(repo, &["ls-files", "-u", "-z"]);
    let lines = nul_separated(unmerged.as_str());
    let mut j: usize = 0;
    while j < lines.len()
        invariant
            j <= lines@.len(),
        decreases lines@.len() - j,
    {
        paths.insert(last_tab_field(lines[j].as_str()), true);
        j += 1;
    }
    let entries = paths.entries();
    let mut list: Vec<String> = Vec::new();
    let mut k: usize = 0;
    while k < entries.len()
        invariant
            k <= entries@.len(),
        decreases entries@.len() - k,
    {
        list.push(entries[k].0.clone());
        k += 1;
    }
    let files = match repo.host.capture_files(&list) {
        Ok(f) => f,
        Err(e) => return Err(StaircaseError::Io(e)),
    };
    Ok((index_snapshot, files))
}

/// The untracked, not ignored files of the worktree.
pub fn capture_untracked_files(repo: &GitRepo) -> (r: Result<Vec<DraftFileSnapshot>>) {
    let untracked = run_or_empty(repo, &["ls-files", "--others", "--exclude-standard", "-z"]);
    let paths = nul_separated(untracked.as_str());
    match repo.host.capture_files(&paths) {
        Ok(f) => Ok(f),
        Err(e) => Err(StaircaseError::Io(e)),
    }
}

/// Writes captured untracked files back.
pub fn restore_untracked_files(repo: &GitRepo, files: &Vec<DraftFileSnapshot>) -> (r: Result<()>) {
    if files.len() == 0 {
        return Ok(());
    }
    repo.host.restore_files(files)
}

/// The draft of the worktree, or none when `HEAD` names no commit.
pub fn capture_draft(repo: &GitRepo) -> (r: Result<Option<DraftRecovery>>) {
    let head_oid = match repo.resolve_commit_opt("HEAD")? {
        Some(oid) => oid,
        None => return Ok(None),
    };
    let (index_tree_oid, index_snapshot, dirty_files) = match repo.run(&["write-tree"]) {
        Ok(oid) => (Some(trim_str(oid.as_str())), None, Vec::new()),
        Err(_) => {
            let (snapshot, files) = capture_conflicted_state(repo)?;
            (None, snapshot, files)
        },
    };
    let unstaged_patch = run_or_empty(repo, &["diff", "--binary", "--no-ext-diff"]);
    let untracked = run_or_empty(repo, &["ls-files", "--others", "--exclude-standard", "-z"]);
    let git_dir = repo.git_dir()?;
    let attachment_path = path_join(&git_dir, "staircase-draft.json");
    let attachment_json = match repo.host.read_text(&attachment_path) {
        Ok(t) => Some(t),
        Err(_) => None,
    };
    let head_ref = repo.current_branch()?;
    let untracked_files = capture_untracked_files(repo)?;
    Ok(Some(DraftRecovery {
        head_oid,
        head_ref,
        index_tree_oid,
        index_snapshot,
        dirty_files,
        unstaged_patch,
        untracked_paths: nul_separated(untracked.as_str()),
        untracked_files,
        attachment_json,
    }))
}

/// Checks out the draft's branch (by its short name) or, detached, its commit.
fn checkout_head(repo: &GitRepo, draft: &DraftRecovery) -> (r: Result<()>) {
    match &draft.head_ref {
        Some(head_ref) => {
            let branch = match strip_prefix(head_ref.as_str(), "refs/heads/") {
                Some(b) => b,
                None => head_ref.clone(),
            };
            repo.run(&["checkout", "-f", branch.as_str()])?;
        },
        None => {
            repo.run(&["checkout", "--detach", "-f", draft.head_oid.as_str()])?;
        },
    }
    Ok(())
}

/// Restores `draft`, if any: its checkout, its index, its dirty files, its
/// unstaged patch (applied on a best-effort basis), its untracked files and
/// its attachment file. Whether there was a draft to restore.
pub fn restore_draft(repo: &GitRepo, draft: &Option<DraftRecovery>) -> (r: Result<bool>)
    ensures
        draft is None ==> r == Ok::<bool, StaircaseError>(false),
        r matches Ok(b) ==> b == draft is Some,
{
    let draft = match draft {
        Some(d) => d,
        None => return Ok(false),
    };
    checkout_head(repo, draft)?;
    match &draft.index_tree_oid {
        Some(tree) => {
            repo.run(&["read-tree", tree.as_str()])?;
            repo.run(&["checkout-index", "-a", "-f"])?;
        },
        None => {
            match &draft.index_snapshot {
                Some(snapshot) => {
                    repo.run(&["read-tree", "--empty"])?;
                    repo.run_with_stdin(&["update-index", "--index-info"], snapshot.as_str())?;
                },
                None => {},
            }
        },
    }
    if draft.dirty_files.len() > 0 {
        repo.host.restore_files(&draft.dirty_files)?;
    }
    if draft.unstaged_patch.unicode_len() > 0 {
        let _ = repo.run_with_stdin(&["apply", "--binary"], draft.unstaged_patch.as_str());
    }
    restore_untracked_files(repo, &draft.untracked_files)?;
    let git_dir = repo.git_dir()?;
    let attachment_path = path_join(&git_dir, "staircase-draft.json");
    match &draft.attachment_json {
        Some(content) => {
            match repo.host.write_text(&attachment_path, content.as_str()) {
                Ok(()) => {},
                Err(e) => return Err(StaircaseError::Io(e)),
            }
        },
        None => {
            if repo.host.path_exists(&attachment_path) {
                match repo.host.remove_file(&attachment_path) {
                    Ok(()) => {},
                    Err(e) => return Err(StaircaseError::Io(e)),
                }
            }
        },
    }
    Ok(true)
}

/// After a successful operation, puts the worktree back as `draft` had it:
/// when the draft had a clean index at its commit's tree and nothing else to
/// restore, only its checkout is restored; otherwise the whole draft is.
pub fn restore_draft_after_success(repo: &GitRepo, draft: &Option<DraftRecovery>) -> (r: Result<bool>)
    ensures
        draft is None ==> r == Ok::<bool, StaircaseError>(false),
        r matches Ok(b) ==> b == draft is Some,
{
    let d = match draft {
        Some(d) => d,
        None => return Ok(false),
    };
    let clean_index = match &d.index_tree_oid {
        Some(tree) => match repo.get_tree_id(d.head_oid.as_str()) {
            Ok(t) => str_eq(t.as_str(), tree.as_str()),
            Err(_) => false,
        },
        None => false,
    };
    if clean_index && d.unstaged_patch.unicode_len() == 0 && d.untracked_files.len() == 0 && d.attachment_json.is_none() {
        checkout_head(repo, d)?;
        return Ok(true);
    }
    restore_draft(repo, draft)
}

} // verus!
