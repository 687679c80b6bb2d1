//! The draft of a worktree: what `git status` reports, how it is classified,
//! and the attachment that ties it to a staircase step.

use vstd::prelude::*;
use std::path::PathBuf;
use crate::error::{Result, StaircaseError};
use crate::git::repo::{path_join, GitRepo};
use crate::model::{DraftAttachment, DraftClassification, DraftIntent, DraftSnapshot, StaircaseMetadata, WorktreeDraft};
use crate::git::repo::path_text;
use crate::text::{join, join_strings, lines, lines_of, owned, str_eq, to_chars, trim, trim_str, views, words, words_of};

verus! {

/// The marker files of transient Git operations in the Git directory, in the
/// order in which they are checked, with the operation each stands for.
pub open spec fn transient_markers() -> Seq<(Seq<char>, Seq<char>)> {
    seq![
        ("MERGE_HEAD"@, "merge"@),
        ("rebase-merge"@, "rebase"@),
        ("rebase-apply"@, "rebase"@),
        ("CHERRY_PICK_HEAD"@, "cherry-pick"@),
        ("REVERT_HEAD"@, "revert"@),
        ("BISECT_LOG"@, "bisect"@),
    ]
}

/// `op` is the operation of one of the transient markers.
pub open spec fn is_transient_operation(op: Seq<char>) -> bool {
    exists|i: int| 0 <= i < transient_markers().len() && transient_markers()[i].1 == op
}

/// The transient Git operation in progress in the worktree (merge, rebase,
/// cherry-pick, revert or bisect), found by its marker file in `.git`.
pub fn check_transient_operation(repo: &GitRepo) -> (r: Result<Option<String>>)
    ensures
        r matches Ok(Some(op)) ==> is_transient_operation(op@),
        r is Ok,
{
    let git_dir = path_join(&repo.workdir, ".git");
    let checks: [(&str, &str); 6] = [
        ("MERGE_HEAD", "merge"),
        ("rebase-merge", "rebase"),
        ("rebase-apply", "rebase"),
        ("CHERRY_PICK_HEAD", "cherry-pick"),
        ("REVERT_HEAD", "revert"),
        ("BISECT_LOG", "bisect"),
    ];
    proof {
        assert(checks@.map_values(|c: (&str, &str)| (c.0@, c.1@)) =~= transient_markers());
    }
    let mut i: usize = 0;
    while i < 6
        invariant
            i <= 6,
            checks@.map_values(|c: (&str, &str)| (c.0@, c.1@)) == transient_markers(),
        decreases 6 - i,
    {
        let (file, op) = checks[i];
        let path = path_join(&git_dir, file);
        if repo.host.path_exists(&path) {
            proof {
                assert(transient_markers()[i as int].1 == op@);
            }
            return Ok(Some(owned(op)));
        }
        i += 1;
    }
    Ok(None)
}

/// Where the worktree's draft attachment is stored.
fn attachment_path(repo: &GitRepo) -> PathBuf {
    let git_dir = path_join(&repo.workdir, ".git");
    path_join(&git_dir, "staircase-draft.json")
}

/// The stored draft attachment, if a readable one is stored.
pub fn read_persistent_attachment(repo: &GitRepo) -> (r: Result<Option<DraftAttachment>>)
    ensures
        r matches Err(e) ==> e is Io,
{
    let file = attachment_path(repo);
    if repo.host.path_exists(&file) {
        match repo.host.load_attachment(&file) {
            Ok(a) => Ok(a),
            Err(e) => Err(StaircaseError::Io(e)),
        }
    } else {
        Ok(None)
    }
}

/// Stores `attachment` as the worktree's draft attachment.
pub fn save_persistent_attachment(repo: &GitRepo, attachment: &DraftAttachment) -> (r: Result<()>)
    ensures
        r matches Err(e) ==> e is Io,
{
    let file = attachment_path(repo);
    match repo.host.save_attachment(&file, attachment) {
        Ok(()) => Ok(()),
        Err(e) => Err(StaircaseError::Io(e)),
    }
}

/// Removes the worktree's draft attachment, if stored (a failure to remove
/// is ignored).
pub fn delete_persistent_attachment(repo: &GitRepo) -> (r: Result<()>)
    ensures
        r is Ok,
{
    let file = attachment_path(repo);
    if repo.host.path_exists(&file) {
        let _ = repo.host.remove_file(&file);
    }
    Ok(())
}

/// Removes the worktree's draft attachment.
pub fn detach_draft(repo: &GitRepo) -> (r: Result<()>)
    ensures
        r is Ok,
{
    delete_persistent_attachment(repo)
}

/// What `git status --porcelain=v2 --ignored=matching` reports, as paths:
/// staged, unstaged, untracked, ignored and conflicted, and whether a
/// submodule is dirty.
pub type StatusView = (Seq<Seq<char>>, Seq<Seq<char>>, Seq<Seq<char>>, Seq<Seq<char>>, Seq<Seq<char>>, bool);

/// The empty status.
pub open spec fn empty_status() -> StatusView {
    (seq![], seq![], seq![], seq![], seq![], false)
}

/// The fields of one status line.
pub open spec fn status_fields(line: Seq<char>) -> Seq<Seq<char>> {
    words(trim(line))
}

/// The status after one more line of porcelain v2 output: ordinary and
/// renamed entries (`1`, `2`, at least nine fields) add their path to the
/// staged and unstaged lists by the two status letters, and mark a changed
/// submodule; unmerged entries (`u`, at least eleven fields) are
/// conflicted; `?` and `!` entries are untracked and ignored paths (the
/// fields after the first, joined by spaces). Other lines change nothing.
pub open spec fn status_step(st: StatusView, line: Seq<char>) -> StatusView {
    let t = trim(line);
    let parts = words(t);
    if t.len() == 0 || t[0] == '#' || parts.len() == 0 {
        st
    } else if parts[0] == "1"@ || parts[0] == "2"@ {
        if parts.len() >= 9 {
            let xy = parts[1];
            let sub = parts[2];
            let path = parts.last();
            let dirty = st.5 || (sub.len() > 0 && sub[0] == 'S' && sub != "S..."@);
            let staged = if xy.len() >= 2 && xy[0] != '.' { st.0.push(path) } else { st.0 };
            let unstaged = if xy.len() >= 2 && xy[1] != '.' { st.1.push(path) } else { st.1 };
            (staged, unstaged, st.2, st.3, st.4, dirty)
        } else {
            st
        }
    } else if parts[0] == "u"@ {
        if parts.len() >= 11 {
            (st.0, st.1, st.2, st.3, st.4.push(parts.last()), st.5)
        } else {
            st
        }
    } else if parts[0] == "?"@ {
        if parts.len() >= 2 {
            (st.0, st.1, st.2.push(join(parts.drop_first(), " "@)), st.3, st.4, st.5)
        } else {
            st
        }
    } else if parts[0] == "!"@ {
        if parts.len() >= 2 {
            (st.0, st.1, st.2, st.3.push(join(parts.drop_first(), " "@)), st.4, st.5)
        } else {
            st
        }
    } else {
        st
    }
}

/// The status that the lines report, in order.
pub open spec fn status_of_lines(ls: Seq<Seq<char>>) -> StatusView
    decreases ls.len(),
{
    if ls.len() == 0 {
        empty_status()
    } else {
        status_step(status_of_lines(ls.drop_last()), ls.last())
    }
}

/// The paths and flags that porcelain v2 status output reports.
#[derive(Debug, Clone, PartialEq, Eq)]
pub struct StatusSummary {
    pub staged_paths: Vec<String>,
    pub unstaged_paths: Vec<String>,
    pub untracked_paths: Vec<String>,
    pub ignored_paths: Vec<String>,
    pub conflicted_paths: Vec<String>,
    pub is_submodule_dirty: bool,
}

/// The status view of a summary.
pub open spec fn summary_view(s: StatusSummary) -> StatusView {
    (views(s.staged_paths@), views(s.unstaged_paths@), views(s.untracked_paths@), views(s.ignored_paths@),
        views(s.conflicted_paths@), s.is_submodule_dirty)
}

/// The fields after the first, joined by spaces.
fn rest_joined(parts: &Vec<String>) -> (r: String)
    requires
        parts@.len() >= 1,
    ensures
        r@ == join(views(parts@).drop_first(), " "@),
{
    let mut rest: Vec<String> = Vec::new();
    let mut i: usize = 1;
    while i < parts.len()
        invariant
            1 <= i <= parts@.len(),
            views(rest@) == views(parts@).subrange(1, i as int),
        decreases parts@.len() - i,
    {
        let ghost old_rest = rest@;
        rest.push(parts[i].clone());
        proof {
            assert(views(rest@) =~= views(old_rest).push(parts@[i as int]@));
            assert(views(rest@) =~= views(parts@).subrange(1, i + 1));
        }
        i += 1;
    }
    proof {
        assert(views(parts@).subrange(1, i as int) =~= views(parts@).drop_first());
    }
    join_strings(&rest, " ")
}

/// Applies one status line to `summary` (see [`status_step`]).
fn apply_status_line(summary: &mut StatusSummary, line: &str)
    ensures
        summary_view(*final(summary)) == status_step(summary_view(*old(summary)), line@),
{
    let t = trim_str(line);
    let parts = words_of(t.as_str());
    proof {
        reveal_strlit("1");
        reveal_strlit("2");
        reveal_strlit("u");
        reveal_strlit("?");
        reveal_strlit("!");
        reveal_strlit("S...");
        assert(views(parts@).len() == parts@.len());
    }
    let first_is_hash = t.unicode_len() > 0 && t.get_char(0) == '#';
    if t.unicode_len() == 0 || first_is_hash || parts.len() == 0 {
        return;
    }
    let kind = parts[0].as_str();
    if str_eq(kind, "1") || str_eq(kind, "2") {
        if parts.len() >= 9 {
            let xy = to_chars(parts[1].as_str());
            let sub = parts[2].as_str();
            let path = parts[parts.len() - 1].clone();
            if sub.unicode_len() > 0 && sub.get_char(0) == 'S' && !str_eq(sub, "S...") {
                summary.is_submodule_dirty = true;
            }
            if xy.len() >= 2 {
                if xy[0] != '.' {
                    summary.staged_paths.push(path.clone());
                }
                if xy[1] != '.' {
                    summary.unstaged_paths.push(path);
                }
            }
        }
    } else if str_eq(kind, "u") {
        if parts.len() >= 11 {
            summary.conflicted_paths.push(parts[parts.len() - 1].clone());
        }
    } else if str_eq(kind, "?") {
        if parts.len() >= 2 {
            summary.untracked_paths.push(rest_joined(&parts));
        }
    } else if str_eq(kind, "!") {
        if parts.len() >= 2 {
            summary.ignored_paths.push(rest_joined(&parts));
        }
    }
    proof {
        assert(summary_view(*summary) =~~= status_step(summary_view(*old(summary)), line@));
    }
}

/// Reads `git status --porcelain=v2 --ignored=matching` output (see [`status_step`]).
pub fn parse_porcelain_status(output: &str) -> (r: StatusSummary)
    ensures
        summary_view(r) == status_of_lines(lines(output@)),
{
    let ls = lines_of(output);
    let mut summary = StatusSummary {
        staged_paths: Vec::new(),
        unstaged_paths: Vec::new(),
        untracked_paths: Vec::new(),
        ignored_paths: Vec::new(),
        conflicted_paths: Vec::new(),
        is_submodule_dirty: false,
    };
    let mut i: usize = 0;
    proof {
        assert(views(ls@).take(0) =~= Seq::<Seq<char>>::empty());
        assert(summary_view(summary) =~~= empty_status());
    }
    while i < ls.len()
        invariant
            i <= ls@.len(),
            views(ls@) == lines(output@),
            summary_view(summary) == status_of_lines(views(ls@).take(i as int)),
        decreases ls@.len() - i,
    {
        apply_status_line(&mut summary, ls[i].as_str());
        proof {
            assert(views(ls@).take(i + 1).drop_last() =~= views(ls@).take(i as int));
        }
        i += 1;
    }
    proof {
        assert(views(ls@).take(i as int) =~= views(ls@));
    }
    summary
}

/// How a draft is classified: a transient Git operation first, then
/// conflicts, a dirty submodule, staged and unstaged changes together,
/// staged only, unstaged only, untracked files only, and otherwise clean.
pub open spec fn spec_classify(transient: bool, st: StatusView) -> DraftClassification {
    if transient {
        DraftClassification::TransientOperation
    } else if st.4.len() > 0 {
        DraftClassification::Conflicted
    } else if st.5 {
        DraftClassification::SubmoduleDirty
    } else if st.0.len() > 0 && st.1.len() > 0 {
        DraftClassification::PartiallyStaged
    } else if st.0.len() > 0 {
        DraftClassification::StagedOnly
    } else if st.1.len() > 0 {
        DraftClassification::UnstagedOnly
    } else if st.2.len() > 0 {
        DraftClassification::Untracked
    } else {
        DraftClassification::Clean
    }
}

/// Classifies a draft (see [`spec_classify`]).
pub fn classify_draft(transient: bool, summary: &StatusSummary) -> (c: DraftClassification)
    ensures
        c == spec_classify(transient, summary_view(*summary)),
{
    if transient {
        DraftClassification::TransientOperation
    } else if summary.conflicted_paths.len() > 0 {
        DraftClassification::Conflicted
    } else if summary.is_submodule_dirty {
        DraftClassification::SubmoduleDirty
    } else if summary.staged_paths.len() > 0 && summary.unstaged_paths.len() > 0 {
        DraftClassification::PartiallyStaged
    } else if summary.staged_paths.len() > 0 {
        DraftClassification::StagedOnly
    } else if summary.unstaged_paths.len() > 0 {
        DraftClassification::UnstagedOnly
    } else if summary.untracked_paths.len() > 0 {
        DraftClassification::Untracked
    } else {
        DraftClassification::Clean
    }
}

/// The basis of a worktree without a commit.
pub const NULL_BASIS: &'static str = "0000000000000000000000000000000000000000";

/// The number of steps of `staircases` whose cut is `basis`.
pub open spec fn count_cuts(staircases: Seq<StaircaseMetadata>, basis: Seq<char>) -> nat
    decreases staircases.len(),
{
    if staircases.len() == 0 {
        0
    } else {
        count_cuts(staircases.drop_last(), basis) + count_step_cuts(staircases.last().steps@, basis)
    }
}

/// The number of `steps` whose cut is `basis`.
pub open spec fn count_step_cuts(steps: Seq<crate::model::Step>, basis: Seq<char>) -> nat
    decreases steps.len(),
{
    if steps.len() == 0 {
        0
    } else {
        count_step_cuts(steps.drop_last(), basis) + if steps.last().cut@ == basis { 1nat } else { 0nat }
    }
}

/// The attachment that a draft gets automatically: when exactly one step of
/// all the staircases has `basis` as its cut, an attachment that extends that
/// step; otherwise none.
pub fn auto_attachment(basis: &str, staircases: &Vec<StaircaseMetadata>, worktree_identity: &str) -> (r: Option<DraftAttachment>)
    ensures
        r is Some <==> count_cuts(staircases@, basis@) == 1,
        r matches Some(a) ==> a.intent == DraftIntent::ExtendStep && a.expected_basis@ == basis@
            && a.worktree_identity@ == worktree_identity@,
{
    let mut found: Option<(usize, usize)> = None;
    let mut count: usize = 0;
    let mut i: usize = 0;
    proof {
        assert(staircases@.take(0) =~= Seq::<StaircaseMetadata>::empty());
    }
    while i < staircases.len()
        invariant
            i <= staircases@.len(),
            count == if count_cuts(staircases@.take(i as int), basis@) >= 2 { 2 } else { count_cuts(staircases@.take(i as int), basis@) },
            count == 1 ==> (found matches Some((a, b)) && a < staircases@.len() && b < staircases@[a as int].steps@.len()),
        decreases staircases@.len() - i,
    {
        let steps = &staircases[i].steps;
        let mut j: usize = 0;
        let ghost before = count_cuts(staircases@.take(i as int), basis@);
        proof {
            assert(steps@.take(0) =~= Seq::<crate::model::Step>::empty());
        }
        while j < steps.len()
            invariant
                i < staircases@.len(),
                *steps == staircases@[i as int].steps,
                j <= steps@.len(),
                count == if before + count_step_cuts(steps@.take(j as int), basis@) >= 2 { 2 } else {
                    before + count_step_cuts(steps@.take(j as int), basis@) },
                count == 1 ==> (found matches Some((a, b)) && a < staircases@.len() && b < staircases@[a as int].steps@.len()),
            decreases steps@.len() - j,
        {
            proof {
                assert(steps@.take(j + 1).drop_last() =~= steps@.take(j as int));
            }
            if str_eq(steps[j].cut.as_str(), basis) {
                if count == 0 {
                    found = Some((i, j));
                }
                if count < 2 {
                    count += 1;
                }
            }
            j += 1;
        }
        proof {
            assert(staircases@.take(i + 1).drop_last() =~= staircases@.take(i as int));
            assert(steps@.take(j as int) =~= steps@);
        }
        i += 1;
    }
    proof {
        assert(staircases@.take(i as int) =~= staircases@);
    }
    if count != 1 {
        return None;
    }
    match found {
        Some((a, b)) => {
            let s = &staircases[a];
            let step = &s.steps[b];
            Some(DraftAttachment {
                staircase_id: Some(s.id.clone()),
                staircase_name: Some(s.name.clone()),
                step_id: Some(step.id.clone()),
                step_name: Some(step.name.clone()),
                intent: DraftIntent::ExtendStep,
                expected_basis: owned(basis),
                worktree_identity: owned(worktree_identity),
            })
        },
        None => None,
    }
}

/// The draft of the worktree: its basis (the commit of `HEAD`, or the null
/// id), its branch, the paths that `git status` reports (see
/// [`parse_porcelain_status`]), the staged tree when nothing conflicts, the
/// transient operation, its attachment (the stored one, stale when its basis
/// differs; else the automatic one, see [`auto_attachment`]) and its
/// classification (see [`spec_classify`]).
pub fn get_worktree_draft(repo: &GitRepo) -> (r: Result<WorktreeDraft>)
    ensures
        r matches Ok(d) ==> d.classification == spec_classify(d.transient_operation is Some, (views(d.staged_paths@),
            views(d.unstaged_paths@), views(d.untracked_paths@), views(d.ignored_paths@), views(d.conflicted_paths@),
            d.is_submodule_dirty)),
        r matches Ok(d) ==> (d.staged_tree_oid is Some ==> d.conflicted_paths@.len() == 0),
        r matches Ok(d) ==> (d.is_attachment_stale ==> (d.attachment matches Some(a) && a.expected_basis@ != d.basis@)),
        r matches Ok(d) ==> exists|s: Seq<char>| #[trigger] crate::git::command::output_text_of_some_run(false, true, s)
            && (views(d.staged_paths@), views(d.unstaged_paths@), views(d.untracked_paths@), views(d.ignored_paths@),
            views(d.conflicted_paths@), d.is_submodule_dirty) == status_of_lines(lines(s)),
{
    let basis = match repo.resolve_commit_opt("HEAD")? {
        Some(b) => b,
        None => owned(NULL_BASIS),
    };
    let head_branch = repo.current_branch()?;
    let transient_op = check_transient_operation(repo)?;
    let status_out = repo.command().args(&["status", "--porcelain=v2", "--ignored=matching"]).check_status(false).run()?;
    let summary = parse_porcelain_status(status_out.as_str());
    let staged_tree_oid = if summary.conflicted_paths.len() == 0 {
        match repo.run(&["write-tree"]) {
            Ok(t) => Some(t),
            Err(_) => None,
        }
    } else {
        None
    };
    let persistent = read_persistent_attachment(repo)?;
    let mut is_attachment_stale = false;
    let mut attachment: Option<DraftAttachment> = None;
    let identity = path_text(&repo.workdir);
    match persistent {
        Some(att) => {
            if !str_eq(att.expected_basis.as_str(), basis.as_str()) {
                is_attachment_stale = true;
            }
            attachment = Some(att);
        },
        None => {
            if !str_eq(basis.as_str(), NULL_BASIS) {
                let all = crate::staircase::persistence::list_staircases(repo)?;
                attachment = auto_attachment(basis.as_str(), &all, identity.as_str());
            }
        },
    }
    let classification = classify_draft(transient_op.is_some(), &summary);
    Ok(WorktreeDraft {
        worktree_identity: Some(identity),
        basis,
        head_branch,
        staged_paths: summary.staged_paths,
        staged_tree_oid,
        unstaged_paths: summary.unstaged_paths,
        untracked_paths: summary.untracked_paths,
        ignored_paths: summary.ignored_paths,
        conflicted_paths: summary.conflicted_paths,
        transient_operation: transient_op,
        is_submodule_dirty: summary.is_submodule_dirty,
        attachment,
        classification,
        is_attachment_stale,
    })
}

/// Which part of a draft a diff shows.
#[derive(Debug, Clone, Copy, PartialEq, Eq, Structural)]
pub enum DraftDiffMode {
    Staged,
    Unstaged,
    Combined,
    Untracked,
    Ignored,
}

/// A list of paths, one `<label>: <path>` per line, or `empty` when there are none.
pub open spec fn spec_path_listing(label: Seq<char>, paths: Seq<Seq<char>>, empty: Seq<char>) -> Seq<char> {
    if paths.len() == 0 {
        empty
    } else {
        join(paths.map_values(|p: Seq<char>| label + ": "@ + p), "\n"@)
    }
}

/// Lists `paths` (see [`spec_path_listing`]).
pub fn path_listing(label: &str, paths: &Vec<String>, empty: &str) -> (r: String)
    ensures
        r@ == spec_path_listing(label@, views(paths@), empty@),
{
    if paths.len() == 0 {
        return owned(empty);
    }
    let mut lines: Vec<String> = Vec::new();
    let mut i: usize = 0;
    while i < paths.len()
        invariant
            i <= paths@.len(),
            views(lines@) == views(paths@).take(i as int).map_values(|p: Seq<char>| label@ + ": "@ + p),
        decreases paths@.len() - i,
    {
        let ghost before = lines@;
        lines.push(crate::text::cat3(label, ": ", paths[i].as_str()));
        proof {
            assert(views(lines@) =~= views(before).push(label@ + ": "@ + paths@[i as int]@));
            assert(views(paths@).take(i + 1).map_values(|p: Seq<char>| label@ + ": "@ + p) =~= views(paths@).take(i as int).map_values(
                |p: Seq<char>| label@ + ": "@ + p).push(label@ + ": "@ + paths@[i as int]@));
        }
        i += 1;
    }
    proof {
        assert(views(paths@).take(i as int) =~= views(paths@));
    }
    join_strings(&lines, "\n")
}

/// The diff of one part of the draft: the staged, unstaged or combined diff
/// from Git, or the untracked or ignored paths as a list.
pub fn diff_draft(repo: &GitRepo, mode: DraftDiffMode) -> (r: Result<String>) {
    match mode {
        DraftDiffMode::Staged => repo.run(&["diff", "--cached"]),
        DraftDiffMode::Unstaged => repo.run(&["diff"]),
        DraftDiffMode::Combined => repo.run(&["diff", "HEAD"]),
        DraftDiffMode::Untracked => {
            let draft = get_worktree_draft(repo)?;
            Ok(path_listing("Untracked", &draft.untracked_paths, "No untracked files."))
        },
        DraftDiffMode::Ignored => {
            let draft = get_worktree_draft(repo)?;
            Ok(path_listing("Ignored", &draft.ignored_paths, "No ignored files."))
        },
    }
}

} // verus!
