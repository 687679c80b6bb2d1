//! Archiving a staircase: its record moves under the archive namespace with
//! a manifest of what it owned, and its branches and public ref go away.

use vstd::prelude::*;
use crate::collections::StringMap;
use crate::error::{Result, StaircaseError};
use crate::fresh::fresh_uuid_simple;
use crate::git::repo::{path_join, GitRepo};
use crate::model::{
    ArchiveManifest, ArchivedOwnedRef, BranchConfigEntry, BranchConfigSnapshot, LifecycleEvent,
    LifecycleState, StaircaseLifecycle, StaircaseMetadata, StaircaseRecord, Step,
};
use crate::model::metadata::copy_opt;
use crate::staircase::resolved::{cuts_by_key, map_texts};
use crate::monorepo::shadow::timestamp_iso8601;
use crate::staircase::persistence::record::{read_record, spec_step_key, step_key, write_record};
use crate::staircase::refs::{StaircaseRefs, STATE_PREFIX};
use crate::staircase::resolved::ResolvedSelector;
use crate::text::{
    cat, cat3, lemma_views_push, lines, lines_of, opt_view, owned, split_once, split_once_spec,
    starts_with, str_eq, strip_prefix, trim, trim_str, usize_to_decimal, views, words, words_of,
};

verus! {

/// How to archive a staircase.
#[derive(Debug, Clone)]
pub struct ArchiveOptions {
    pub reason: Option<String>,
    pub dry_run: bool,
    pub snapshot_drafts: bool,
    pub detach_dirty_worktrees: bool,
    pub leave_worktrees: bool,
}

impl Default for ArchiveOptions {
    fn default() -> (r: Self)
        ensures
            r.reason is None && !r.dry_run && !r.snapshot_drafts && !r.detach_dirty_worktrees
                && !r.leave_worktrees,
    {
        ArchiveOptions {
            reason: None,
            dry_run: false,
            snapshot_drafts: false,
            detach_dirty_worktrees: false,
            leave_worktrees: false,
        }
    }
}

/// What archiving did, or would do on a dry run.
#[derive(Debug, Clone)]
pub struct ArchiveResult {
    pub archived_staircase_id: String,
    pub canonical_name: String,
    pub archive_event_id: String,
    pub moved_branches: Vec<String>,
    pub unowned_warnings: Vec<String>,
    pub is_dry_run: bool,
}

/// The full ref of a step's branch: as given when it starts with `refs/`,
/// else under `refs/heads/`.
pub open spec fn full_branch_ref(b: Seq<char>) -> Seq<char> {
    if "refs/"@.is_prefix_of(b) { b } else { "refs/heads/"@ + b }
}

/// The refs of the steps' branches, each once, in the order of the steps
/// that first name them.
pub open spec fn spec_owned_refs(steps: Seq<Step>) -> Seq<Seq<char>>
    decreases steps.len(),
{
    if steps.len() == 0 {
        seq![]
    } else {
        let before = spec_owned_refs(steps.drop_last());
        match steps.last().branch {
            Some(b) => if before.contains(full_branch_ref(b@)) {
                before
            } else {
                before.push(full_branch_ref(b@))
            },
            None => before,
        }
    }
}

/// Whether `v` holds `x`.
pub fn contains_text(v: &Vec<String>, x: &str) -> (r: bool)
    ensures
        r == views(v@).contains(x@),
{
    let mut i: usize = 0;
    while i < v.len()
        invariant
            i <= v@.len(),
            forall|j: int| 0 <= j < i ==> v@[j]@ != x@,
        decreases v@.len() - i,
    {
        if str_eq(v[i].as_str(), x) {
            proof {
                assert(views(v@)[i as int] == x@);
            }
            return true;
        }
        i += 1;
    }
    proof {
        if views(v@).contains(x@) {
            let k = choose|k: int| 0 <= k < views(v@).len() && views(v@)[k] == x@;
            assert(v@[k]@ == x@);
        }
    }
    false
}

/// The refs of the steps' branches (see `spec_owned_refs`).
pub fn owned_branch_refs(steps: &Vec<Step>) -> (r: Vec<String>)
    ensures
        views(r@) == spec_owned_refs(steps@),
{
    let mut out: Vec<String> = Vec::new();
    let mut i: usize = 0;
    while i < steps.len()
        invariant
            i <= steps@.len(),
            views(out@) == spec_owned_refs(steps@.take(i as int)),
        decreases steps@.len() - i,
    {
        proof {
            assert(steps@.take(i + 1).drop_last() =~= steps@.take(i as int));
            assert(steps@.take(i + 1).last() == steps@[i as int]);
        }
        match &steps[i].branch {
            Some(b) => {
                let full = if starts_with(b.as_str(), "refs/") {
                    b.clone()
                } else {
                    cat("refs/heads/", b.as_str())
                };
                if !contains_text(&out, full.as_str()) {
                    proof {
                        lemma_views_push(out@, full);
                    }
                    out.push(full);
                }
            },
            None => {},
        }
        i += 1;
    }
    proof {
        assert(steps@.take(steps@.len() as int) =~= steps@);
    }
    out
}

/// The branch name of a full ref: without `refs/heads/`, else as it is.
pub open spec fn branch_name_of(full: Seq<char>) -> Seq<char> {
    if "refs/heads/"@.is_prefix_of(full) { full.skip(11) } else { full }
}

/// The branch name of a full ref (see `branch_name_of`).
pub fn branch_name(full: &str) -> (r: String)
    ensures
        r@ == branch_name_of(full@),
{
    proof {
        reveal_strlit("refs/heads/");
    }
    match strip_prefix(full, "refs/heads/") {
        Some(b) => b,
        None => owned(full),
    }
}

/// The entries `git config --get-regexp` lists: each line split at its
/// first space into key and value; lines without a space are skipped.
pub open spec fn spec_config_entries(ls: Seq<Seq<char>>) -> Seq<(Seq<char>, Seq<char>)>
    decreases ls.len(),
{
    if ls.len() == 0 {
        seq![]
    } else {
        let before = spec_config_entries(ls.drop_last());
        match split_once_spec(ls.last(), " "@) {
            Some(kv) => before.push(kv),
            None => before,
        }
    }
}

/// The key and value of a configuration entry.
pub open spec fn entry_view(e: BranchConfigEntry) -> (Seq<char>, Seq<char>) {
    (e.key@, e.value@)
}

/// The configuration entries in `git config --get-regexp` output (see
/// `spec_config_entries`).
pub fn config_entries(stdout: &str) -> (r: Vec<BranchConfigEntry>)
    ensures
        r@.len() == spec_config_entries(lines(stdout@)).len(),
        forall|i: int| 0 <= i < r@.len() ==> entry_view(#[trigger] r@[i]) == spec_config_entries(lines(stdout@))[i],
{
    let ls = lines_of(stdout);
    let ghost lv = lines(stdout@);
    let mut out: Vec<BranchConfigEntry> = Vec::new();
    let mut i: usize = 0;
    while i < ls.len()
        invariant
            views(ls@) == lv,
            i <= ls@.len(),
            out@.len() == spec_config_entries(lv.take(i as int)).len(),
            forall|j: int| 0 <= j < out@.len() ==> entry_view(#[trigger] out@[j]) == spec_config_entries(lv.take(i as int))[j],
        decreases ls@.len() - i,
    {
        let ghost prev = spec_config_entries(lv.take(i as int));
        proof {
            assert(lv.take(i + 1).drop_last() =~= lv.take(i as int));
            assert(lv.take(i + 1).last() == ls@[i as int]@);
        }
        match split_once(ls[i].as_str(), " ") {
            Some((key, value)) => {
                let ghost old_out = out@;
                out.push(BranchConfigEntry { key, value });
                proof {
                    assert(spec_config_entries(lv.take(i + 1)) == prev.push((key@, value@)));
                    assert forall|j: int| 0 <= j < out@.len() implies entry_view(#[trigger] out@[j])
                        == prev.push((key@, value@))[j] by {
                        if j < old_out.len() {
                            assert(out@[j] == old_out[j]);
                        }
                    }
                }
            },
            None => {
                proof {
                    assert(spec_config_entries(lv.take(i + 1)) == prev);
                }
            },
        }
        i += 1;
    }
    proof {
        assert(lv.take(ls@.len() as int) =~= lv);
    }
    out
}

/// The branches that `git worktree list --porcelain` shows checked out,
/// each with the worktree path last announced before it.
pub open spec fn spec_worktree_branches(ls: Seq<Seq<char>>) -> Seq<(Option<Seq<char>>, Seq<char>)> {
    worktree_scan(ls, None).1
}

/// Scanning porcelain worktree lines: the last announced path, and the
/// branches found so far.
pub open spec fn worktree_scan(ls: Seq<Seq<char>>, start: Option<Seq<char>>) -> (Option<Seq<char>>, Seq<(Option<Seq<char>>, Seq<char>)>)
    decreases ls.len(),
{
    if ls.len() == 0 {
        (start, seq![])
    } else {
        let (path, found) = worktree_scan(ls.drop_last(), start);
        let line = ls.last();
        if "worktree "@.is_prefix_of(line) {
            (Some(line.skip(9)), found)
        } else if "branch "@.is_prefix_of(line) {
            (path, found.push((path, trim(line.skip(7)))))
        } else {
            (path, found)
        }
    }
}

/// The view of a worktree path and branch.
pub open spec fn pair_view(p: (Option<String>, String)) -> (Option<Seq<char>>, Seq<char>) {
    (opt_view(p.0), p.1@)
}

/// The checked-out branches of `git worktree list --porcelain` output (see
/// `spec_worktree_branches`).
pub fn worktree_branches(stdout: &str) -> (r: Vec<(Option<String>, String)>)
    ensures
        r@.len() == spec_worktree_branches(lines(stdout@)).len(),
        forall|i: int| 0 <= i < r@.len() ==> pair_view(#[trigger] r@[i]) == spec_worktree_branches(lines(stdout@))[i],
{
    let ls = lines_of(stdout);
    let ghost lv = lines(stdout@);
    let mut path: Option<String> = None;
    let mut out: Vec<(Option<String>, String)> = Vec::new();
    let mut i: usize = 0;
    proof {
        reveal_strlit("worktree ");
        reveal_strlit("branch ");
    }
    while i < ls.len()
        invariant
            views(ls@) == lv,
            i <= ls@.len(),
            opt_view(path) == worktree_scan(lv.take(i as int), None).0,
            out@.len() == worktree_scan(lv.take(i as int), None).1.len(),
            forall|j: int| 0 <= j < out@.len() ==> pair_view(#[trigger] out@[j]) == worktree_scan(lv.take(i as int), None).1[j],
            "worktree "@.len() == 9,
            "branch "@.len() == 7,
        decreases ls@.len() - i,
    {
        proof {
            assert(lv.take(i + 1).drop_last() =~= lv.take(i as int));
            assert(lv.take(i + 1).last() == ls@[i as int]@);
        }
        let line = ls[i].as_str();
        match strip_prefix(line, "worktree ") {
            Some(p) => {
                path = Some(p);
            },
            None => match strip_prefix(line, "branch ") {
                Some(b) => {
                    let branch = trim_str(b.as_str());
                    let at = match &path {
                        Some(p) => Some(p.clone()),
                        None => None,
                    };
                    out.push((at, branch));
                },
                None => {},
            },
        }
        i += 1;
    }
    proof {
        assert(lv.take(ls@.len() as int) =~= lv);
    }
    out
}

/// Whether step `s` is on branch `b`, or on its short name `short`.
pub open spec fn on_branch(s: Step, b: Seq<char>, short: Seq<char>) -> bool {
    opt_view(s.branch) == Some(b) || opt_view(s.branch) == Some(short)
}

/// The cut of the first step from index `i` on branch `b` (or `short`),
/// else the top step's, else none.
pub open spec fn detach_cut_from(steps: Seq<Step>, b: Seq<char>, short: Seq<char>, i: int) -> Seq<char>
    decreases steps.len() - i,
{
    if i < 0 || i >= steps.len() {
        if steps.len() > 0 { steps.last().cut@ } else { seq![] }
    } else if on_branch(steps[i], b, short) {
        steps[i].cut@
    } else {
        detach_cut_from(steps, b, short, i + 1)
    }
}

/// The cut a worktree on branch `b` is detached at: that of the first step
/// whose branch is `b` or `b` without `refs/heads/`, else the top step's,
/// else none.
pub open spec fn spec_detach_cut(steps: Seq<Step>, b: Seq<char>) -> Seq<char> {
    detach_cut_from(steps, b, branch_name_of(b), 0)
}

/// The cut a worktree on branch `b` is detached at (see `spec_detach_cut`).
pub fn detach_cut(steps: &Vec<Step>, b: &str) -> (r: String)
    ensures
        r@ == spec_detach_cut(steps@, b@),
{
    let short = branch_name(b);
    let mut i: usize = 0;
    while i < steps.len()
        invariant
            short@ == branch_name_of(b@),
            i <= steps@.len(),
            detach_cut_from(steps@, b@, short@, i as int) == spec_detach_cut(steps@, b@),
        decreases steps@.len() - i,
    {
        let hit = match &steps[i].branch {
            Some(sb) => str_eq(sb.as_str(), b) || str_eq(sb.as_str(), short.as_str()),
            None => false,
        };
        if hit {
            return steps[i].cut.clone();
        }
        i += 1;
    }
    if steps.len() > 0 {
        steps[steps.len() - 1].cut.clone()
    } else {
        String::new()
    }
}

/// The warning for a branch outside the staircase left on an archived cut.
pub open spec fn unowned_warning(refname: Seq<char>, oid: Seq<char>) -> Seq<char> {
    "warning: unowned branch "@ + refname + " still points to archived cut "@ + oid
}

/// The warnings for `git for-each-ref --format='%(refname) %(objectname)'`
/// output: each line of exactly two words whose ref is not owned and whose
/// object is one of the cuts.
pub open spec fn spec_unowned_warnings(ls: Seq<Seq<char>>, owned: Seq<Seq<char>>, cuts: Seq<Seq<char>>) -> Seq<Seq<char>>
    decreases ls.len(),
{
    if ls.len() == 0 {
        seq![]
    } else {
        let before = spec_unowned_warnings(ls.drop_last(), owned, cuts);
        let ws = words(ls.last());
        if ws.len() == 2 && !owned.contains(ws[0]) && cuts.contains(ws[1]) {
            before.push(unowned_warning(ws[0], ws[1]))
        } else {
            before
        }
    }
}

/// The warnings for branches left on archived cuts (see `spec_unowned_warnings`).
pub fn unowned_warnings(stdout: &str, owned: &Vec<String>, cuts: &Vec<String>) -> (r: Vec<String>)
    ensures
        views(r@) == spec_unowned_warnings(lines(stdout@), views(owned@), views(cuts@)),
{
    let ls = lines_of(stdout);
    let ghost lv = lines(stdout@);
    let mut out: Vec<String> = Vec::new();
    let mut i: usize = 0;
    while i < ls.len()
        invariant
            views(ls@) == lv,
            i <= ls@.len(),
            views(out@) == spec_unowned_warnings(lv.take(i as int), views(owned@), views(cuts@)),
        decreases ls@.len() - i,
    {
        proof {
            assert(lv.take(i + 1).drop_last() =~= lv.take(i as int));
            assert(lv.take(i + 1).last() == ls@[i as int]@);
        }
        let parts = words_of(ls[i].as_str());
        if parts.len() == 2 {
            proof {
                assert(views(parts@)[0] == parts@[0]@ && views(parts@)[1] == parts@[1]@);
            }
            if !contains_text(owned, parts[0].as_str()) && contains_text(cuts, parts[1].as_str()) {
                let mut w = cat("warning: unowned branch ", parts[0].as_str());
                w.append(" still points to archived cut ");
                w.append(parts[1].as_str());
                proof {
                    lemma_views_push(out@, w);
                }
                out.push(w);
            }
        }
        i += 1;
    }
    proof {
        assert(lv.take(ls@.len() as int) =~= lv);
    }
    out
}

/// The archive entry for the `index`-th owned ref (from 0): it is
/// `owned-<index+1>`, a primary hidden commit ref restored or renamed.
pub fn archived_owned_ref(lineage: &str, index: usize, full_ref: &str, oid: String) -> (r: ArchivedOwnedRef)
    requires
        index < usize::MAX,
    ensures
        r.ref_id@ == "owned-"@ + crate::text::decimal((index + 1) as nat),
        r.original_refname@ == full_ref@,
        r.original_oid == oid,
        r.object_type@ == "commit"@,
        r.archive_refname@ == "refs/staircase-archive/"@ + lineage@ + "/owned/"@ + r.ref_id@,
        r.ownership_class@ == "primary"@,
        r.visibility_class@ == "hidden"@,
        r.restoration_policy@ == "restore-or-rename"@,
{
    let ref_id = cat("owned-", usize_to_decimal(index + 1).as_str());
    let archive_refname = StaircaseRefs::archive_owned(lineage, ref_id.as_str());
    ArchivedOwnedRef {
        ref_id,
        original_refname: owned(full_ref),
        object_type: owned("commit"),
        original_oid: oid,
        archive_refname,
        ownership_class: owned("primary"),
        visibility_class: owned("hidden"),
        restoration_policy: owned("restore-or-rename"),
    }
}

/// The Git operations that block archiving while in progress: their marker
/// files in the Git directory.
pub open spec fn archive_blocking_markers() -> Seq<Seq<char>> {
    seq!["rebase-apply"@, "rebase-merge"@, "MERGE_HEAD"@, "CHERRY_PICK_HEAD"@, "REVERT_HEAD"@]
}

/// The message when a Git operation is in progress.
pub open spec fn operation_in_progress_message() -> Seq<char> {
    "active Git operation in progress; finish or abort it before archiving"@
}

/// The message when a worktree on an owned branch has local changes.
pub open spec fn dirty_worktree_message(path: Seq<char>, branch: Seq<char>) -> Seq<char> {
    "worktree at "@ + path + " attached to branch '"@ + branch
        + "' is dirty; use --detach-dirty-worktrees or --snapshot-drafts"@
}

/// How `Option<String>` prints with `{:?}`: `None`, or `Some` and the
/// string quoted and escaped.
pub uninterp spec fn debug_option_text(o: Option<Seq<char>>) -> Seq<char>;

/// Formats `o` with `{:?}` (the `Debug` implementation of `Option<String>`).
#[verifier::external_body]
fn debug_text(o: &Option<String>) -> (r: String)
    ensures
        r@ == debug_option_text(opt_view(*o)),
{
    format!("{:?}", o)
}

/// Reads the staircase's record: active, else by its public name, else archived.
fn current_record(repo: &GitRepo, id: &str, name: &str) -> (r: Result<StaircaseRecord>) {
    let by_state = read_record(repo, StaircaseRefs::state_record(id).as_str());
    match by_state {
        Ok(rec) => Ok(rec),
        Err(_) => {
            let by_name = read_record(repo, StaircaseRefs::public(name).as_str());
            match by_name {
                Ok(rec) => Ok(rec),
                Err(_) => read_record(repo, StaircaseRefs::archive_record(id).as_str()),
            }
        },
    }
}

/// The snapshot of the configuration of each owned branch.
fn branch_configs(repo: &GitRepo, owned_refs: &Vec<String>) -> (r: Vec<BranchConfigSnapshot>)
    ensures
        r@.len() == owned_refs@.len(),
        forall|i: int| 0 <= i < r@.len() ==> (#[trigger] r@[i]).branch_name@ == branch_name_of(owned_refs@[i]@),
{
    let mut out: Vec<BranchConfigSnapshot> = Vec::new();
    let mut i: usize = 0;
    while i < owned_refs.len()
        invariant
            i <= owned_refs@.len(),
            out@.len() == i,
            forall|j: int| 0 <= j < i ==> (#[trigger] out@[j]).branch_name@ == branch_name_of(owned_refs@[j]@),
        decreases owned_refs@.len() - i,
    {
        let name = branch_name(owned_refs[i].as_str());
        let pattern = cat3("^branch\\.", name.as_str(), "\\.");
        let entries = match repo.run(&["config", "--get-regexp", pattern.as_str()]) {
            Ok(stdout) => config_entries(stdout.as_str()),
            Err(_) => Vec::new(),
        };
        out.push(BranchConfigSnapshot { branch_name: name, entries });
        i += 1;
    }
    out
}

/// Whether the worktree has local changes, as `git status --porcelain`
/// reports them; clean when the command fails.
fn worktree_is_dirty(repo: &GitRepo) -> bool {
    match repo.run(&["status", "--porcelain"]) {
        Ok(s) => trim_str(s.as_str()).unicode_len() > 0,
        Err(_) => false,
    }
}

/// Detaches the worktrees checked out on owned branches (unless dry), and
/// refuses a dirty one unless the options allow leaving, detaching or
/// snapshotting it.
fn release_worktrees(repo: &GitRepo, steps: &Vec<Step>, owned_refs: &Vec<String>, options: &ArchiveOptions) -> (r: Result<()>)
    ensures
        r matches Err(StaircaseError::Other(m)) ==> exists|p: Seq<char>, b: Seq<char>|
            m@ == dirty_worktree_message(p, b) && views(owned_refs@).contains(b),
        r matches Err(e) ==> e is Other,
{
    let listing = match repo.run(&["worktree", "list", "--porcelain"]) {
        Ok(s) => s,
        Err(_) => return Ok(()),
    };
    let branches = worktree_branches(listing.as_str());
    let mut i: usize = 0;
    while i < branches.len()
        invariant
            i <= branches@.len(),
        decreases branches@.len() - i,
    {
        let b = branches[i].1.as_str();
        if contains_text(owned_refs, b) {
            let dirty = worktree_is_dirty(repo);
            if dirty && !options.detach_dirty_worktrees && !options.snapshot_drafts && !options.leave_worktrees {
                let path = debug_text(&branches[i].0);
                let mut m = cat3("worktree at ", path.as_str(), " attached to branch '");
                m.append(b);
                m.append("' is dirty; use --detach-dirty-worktrees or --snapshot-drafts");
                proof {
                    assert(m@ == dirty_worktree_message(path@, b@));
                }
                return Err(StaircaseError::Other(m));
            }
            if !options.dry_run {
                let cut = detach_cut(steps, b);
                if cut.as_str().unicode_len() > 0 {
                    let _ = repo.run(&["checkout", "--detach", cut.as_str()]);
                }
            }
        }
        i += 1;
    }
    Ok(())
}

/// Whether one of the archive-blocking markers exists in `.git`.
fn archive_blocked(repo: &GitRepo) -> bool {
    let git_dir = path_join(&repo.workdir, ".git");
    repo.host.path_exists(&path_join(&git_dir, "rebase-apply")) || repo.host.path_exists(
        &path_join(&git_dir, "rebase-merge"),
    ) || repo.host.path_exists(&path_join(&git_dir, "MERGE_HEAD")) || repo.host.path_exists(
        &path_join(&git_dir, "CHERRY_PICK_HEAD"),
    ) || repo.host.path_exists(&path_join(&git_dir, "REVERT_HEAD"))
}

/// The cuts of the steps, in order.
fn cuts_of(steps: &Vec<Step>) -> (r: Vec<String>)
    ensures
        r@.len() == steps@.len(),
        forall|i: int| 0 <= i < r@.len() ==> (#[trigger] r@[i])@ == steps@[i].cut@,
{
    let mut out: Vec<String> = Vec::new();
    let mut i: usize = 0;
    while i < steps.len()
        invariant
            i <= steps@.len(),
            out@.len() == i,
            forall|j: int| 0 <= j < i ==> (#[trigger] out@[j])@ == steps@[j].cut@,
        decreases steps@.len() - i,
    {
        out.push(steps[i].cut.clone());
        i += 1;
    }
    out
}

/// The report on a staircase whose record `record` is already archived:
/// nothing moves, and the event is the record's last one. None when the
/// record is active, which is then archived.
pub fn archived_already(meta: &StaircaseMetadata, record: &StaircaseRecord, dry_run: bool) -> (r: Option<ArchiveResult>)
    ensures
        r is Some <==> record.lifecycle.state == LifecycleState::Archived,
        r matches Some(res) ==> {
            &&& res.archived_staircase_id@ == meta.id@
            &&& res.canonical_name@ == meta.name@
            &&& res.moved_branches@.len() == 0
            &&& res.unowned_warnings@.len() == 0
            &&& res.is_dry_run == dry_run
            &&& (record.lifecycle.events@.len() > 0 ==> res.archive_event_id@ == record.lifecycle.events@.last().event_id@)
        },
{
    if record.lifecycle.state == LifecycleState::Archived {
        let n = record.lifecycle.events.len();
        let event_id = if n > 0 { record.lifecycle.events[n - 1].event_id.clone() } else { String::new() };
        Some(ArchiveResult {
            archived_staircase_id: meta.id.clone(),
            canonical_name: meta.name.clone(),
            archive_event_id: event_id,
            moved_branches: Vec::new(),
            unowned_warnings: Vec::new(),
            is_dry_run: dry_run,
        })
    } else {
        None
    }
}

/// The retention ref of each step key of archived staircase `id` (the last
/// step with a key wins).
pub open spec fn retention_refs_by_key(id: Seq<char>, steps: Seq<Step>) -> Map<Seq<char>, Seq<char>>
    decreases steps.len(),
{
    if steps.len() == 0 {
        Map::empty()
    } else {
        retention_refs_by_key(id, steps.drop_last()).insert(
            spec_step_key(steps.last()),
            "refs/staircase-archive/"@ + id + "/steps/"@ + spec_step_key(steps.last()),
        )
    }
}

/// The cut and the retention ref of each step key of staircase `meta` (see
/// `cuts_by_key` and `retention_refs_by_key`).
fn step_key_maps(meta: &StaircaseMetadata) -> (r: (StringMap<String>, StringMap<String>))
    ensures
        map_texts(r.0.view()) == cuts_by_key(meta.steps@),
        map_texts(r.1.view()) == retention_refs_by_key(meta.id@, meta.steps@),
{
    let mut cuts: StringMap<String> = StringMap::new();
    let mut retention: StringMap<String> = StringMap::new();
    let mut k: usize = 0;
    proof {
        assert(meta.steps@.take(0) =~= Seq::<Step>::empty());
        assert(map_texts(cuts.view()) =~= Map::empty());
        assert(map_texts(retention.view()) =~= Map::empty());
    }
    while k < meta.steps.len()
        invariant
            k <= meta.steps@.len(),
            map_texts(cuts.view()) == cuts_by_key(meta.steps@.take(k as int)),
            map_texts(retention.view()) == retention_refs_by_key(meta.id@, meta.steps@.take(k as int)),
        decreases meta.steps@.len() - k,
    {
        let key = step_key(&meta.steps[k]);
        let ghost before_cuts = cuts.view();
        let ghost before_retention = retention.view();
        cuts.insert(owned(key), meta.steps[k].cut.clone());
        let r = StaircaseRefs::archive_step(meta.id.as_str(), key);
        retention.insert(owned(key), r);
        proof {
            let t = meta.steps@.take(k + 1);
            assert(t.drop_last() =~= meta.steps@.take(k as int));
            assert(t.last() == meta.steps@[k as int]);
            assert(map_texts(cuts.view()) =~= map_texts(before_cuts).insert(key@, meta.steps@[k as int].cut@));
            assert(map_texts(retention.view()) =~= map_texts(before_retention).insert(
                key@,
                "refs/staircase-archive/"@ + meta.id@ + "/steps/"@ + key@,
            ));
        }
        k += 1;
    }
    proof {
        assert(meta.steps@.take(meta.steps@.len() as int) =~= meta.steps@);
    }
    (cuts, retention)
}

/// The manifest of archiving staircase `meta` in event `event_id` at `time`,
/// replacing record `previous_record_oid`: the staircase's lineage, name
/// and branch layout, the archived owned refs and branch configurations
/// given, the cut and retention ref of each step key, and the name kept
/// reserved; no actor, worktree attachments or dispositions.
pub fn archive_manifest(
    meta: &StaircaseMetadata,
    previous_record_oid: &str,
    event_id: &str,
    time: &str,
    reason: &Option<String>,
    owned_refs: Vec<ArchivedOwnedRef>,
    configs: Vec<BranchConfigSnapshot>,
) -> (m: ArchiveManifest)
    ensures
        m.archive_event_id@ == event_id@,
        m.lineage_id@ == meta.id@,
        m.archive_time@ == time@,
        m.actor is None,
        m.reason == *reason,
        m.previous_record_oid@ == previous_record_oid@,
        m.canonical_name@ == meta.name@,
        m.branch_layout_profile == meta.primary_branch_layout,
        m.branch_layout_base == meta.branch_layout_base,
        m.owned_refs == owned_refs,
        map_texts(m.expected_source_oids.view()) == cuts_by_key(meta.steps@),
        map_texts(m.archive_retention_refs.view()) == retention_refs_by_key(meta.id@, meta.steps@),
        m.branch_configs == configs,
        m.worktree_attachments@.len() == 0,
        m.draft_disposition is None,
        m.provider_disposition is None,
        m.name_reservation,
        m.originating_structural_key is None,
{
    let (expected_source_oids, retention_refs) = step_key_maps(meta);
    ArchiveManifest {
        archive_event_id: owned(event_id),
        lineage_id: meta.id.clone(),
        archive_time: owned(time),
        actor: None,
        reason: copy_opt(reason),
        previous_record_oid: owned(previous_record_oid),
        canonical_name: meta.name.clone(),
        branch_layout_profile: copy_opt(&meta.primary_branch_layout),
        branch_layout_base: copy_opt(&meta.branch_layout_base),
        owned_refs,
        expected_source_oids,
        archive_retention_refs: retention_refs,
        branch_configs: configs,
        worktree_attachments: Vec::new(),
        draft_disposition: None,
        provider_disposition: None,
        name_reservation: true,
        originating_structural_key: None,
    }
}

/// A copy of a lifecycle event.
fn copy_event(e: &LifecycleEvent) -> (r: LifecycleEvent)
    ensures
        r == *e,
{
    LifecycleEvent {
        event_id: e.event_id.clone(),
        kind: e.kind.clone(),
        timestamp: e.timestamp.clone(),
        actor: copy_opt(&e.actor),
        record_oid_before: copy_opt(&e.record_oid_before),
        record_oid_after: copy_opt(&e.record_oid_after),
        canonical_name: copy_opt(&e.canonical_name),
        reason: copy_opt(&e.reason),
        details: e.details.clone(),
    }
}

/// The `archived` event `event_id` at `time` of staircase `name`, whose
/// record was `previous_record_oid`.
pub open spec fn is_archived_event(
    e: LifecycleEvent,
    event_id: Seq<char>,
    time: Seq<char>,
    previous_record_oid: Seq<char>,
    name: Seq<char>,
    reason: Option<String>,
) -> bool {
    &&& e.event_id@ == event_id
    &&& e.kind@ == "archived"@
    &&& e.timestamp@ == time
    &&& e.actor is None
    &&& e.record_oid_before matches Some(b) && b@ == previous_record_oid
    &&& e.record_oid_after is None
    &&& e.canonical_name matches Some(c) && c@ == name
    &&& e.reason == reason
    &&& e.details@ == "null"@
}

/// The lifecycle of a staircase archived in event `event_id`: archived, for
/// `reason`, with its name reserved, and its history followed by the
/// `archived` event (see `is_archived_event`).
pub fn archived_lifecycle(
    lifecycle: &StaircaseLifecycle,
    event_id: &str,
    time: &str,
    previous_record_oid: &str,
    name: &str,
    reason: &Option<String>,
) -> (l: StaircaseLifecycle)
    ensures
        l.state == LifecycleState::Archived,
        l.archive_reason == *reason,
        l.name_reserved,
        l.events@.len() == lifecycle.events@.len() + 1,
        forall|i: int| 0 <= i < lifecycle.events@.len() ==> (#[trigger] l.events@[i]) == lifecycle.events@[i],
        is_archived_event(l.events@.last(), event_id@, time@, previous_record_oid@, name@, *reason),
{
    let mut events: Vec<LifecycleEvent> = Vec::new();
    let mut i: usize = 0;
    while i < lifecycle.events.len()
        invariant
            i <= lifecycle.events@.len(),
            events@.len() == i,
            forall|j: int| 0 <= j < i ==> (#[trigger] events@[j]) == lifecycle.events@[j],
        decreases lifecycle.events@.len() - i,
    {
        events.push(copy_event(&lifecycle.events[i]));
        i += 1;
    }
    proof {
        reveal_strlit("archived");
        reveal_strlit("null");
    }
    events.push(LifecycleEvent {
        event_id: owned(event_id),
        kind: owned("archived"),
        timestamp: owned(time),
        actor: None,
        record_oid_before: Some(owned(previous_record_oid)),
        record_oid_after: None,
        canonical_name: Some(owned(name)),
        reason: copy_opt(reason),
        details: owned("null"),
    });
    StaircaseLifecycle {
        state: LifecycleState::Archived,
        archive_reason: copy_opt(reason),
        name_reserved: true,
        events,
    }
}

/// Archives the selected staircase: refused while a Git operation is in
/// progress or (without the options that allow it) while a worktree on one
/// of its branches is dirty. Its record gains an `archived` event and a
/// manifest of its owned branches (`spec_owned_refs`), their configuration,
/// and its steps' cuts and retention refs, and moves to the archive
/// namespace; then its public ref, its state refs, its owned branches and
/// their configuration are deleted. A dry run computes the same result and
/// changes nothing. An archived staircase is reported as it is (see
/// `archive_record`).
pub fn archive_staircase(repo: &GitRepo, selector: &ResolvedSelector, options: &ArchiveOptions) -> (r: Result<ArchiveResult>)
    requires
        !(selector.staircase is ImplicitFamily),
    ensures
        r matches Ok(res) ==> {
            let m = selector.staircase->Managed_0;
            let n = selector.staircase->Implicit_0;
            &&& (selector.staircase is Managed ==> res.archived_staircase_id@ == m.id@ && res.canonical_name@ == m.name@)
            &&& (selector.staircase is Implicit ==> res.archived_staircase_id@ == n.id@ && res.canonical_name@ == n.name@)
            &&& res.is_dry_run == options.dry_run
            &&& (res.moved_branches@.len() == 0 || (selector.staircase is Managed
                    ==> views(res.moved_branches@) == spec_owned_refs(m.steps@))
                && (selector.staircase is Implicit ==> views(res.moved_branches@) == spec_owned_refs(n.steps@)))
        },
{
    if archive_blocked(repo) {
        return Err(StaircaseError::Other(owned("active Git operation in progress; finish or abort it before archiving")));
    }
    let meta = selector.metadata();
    proof {
        assert(selector.staircase == crate::staircase::resolved::ResolvedStaircase::Managed(*meta)
            || selector.staircase == crate::staircase::resolved::ResolvedStaircase::Implicit(*meta));
    }
    let record = match current_record(repo, meta.id.as_str(), meta.name.as_str()) {
        Ok(rec) => rec,
        Err(e) => return Err(e),
    };
    archive_record(repo, meta, &record, options)
}

/// Archives staircase `meta` whose current record is `record` (see
/// `archive_staircase`). An archived record is reported as it is (see
/// `archived_already`); an active one yields its owned branch refs
/// (`spec_owned_refs`), moved or, on a dry run, to be moved. The record
/// written carries `archived_lifecycle` and `archive_manifest` of the
/// record replaced.
pub fn archive_record(repo: &GitRepo, meta: &StaircaseMetadata, record: &StaircaseRecord, options: &ArchiveOptions) -> (r: Result<ArchiveResult>)
    ensures
        record.lifecycle.state == LifecycleState::Archived ==> (r matches Ok(res) && res.moved_branches@.len() == 0
            && (record.lifecycle.events@.len() > 0 ==> res.archive_event_id@ == record.lifecycle.events@.last().event_id@)),
        r matches Ok(res) ==> {
            &&& res.archived_staircase_id@ == meta.id@
            &&& res.canonical_name@ == meta.name@
            &&& res.is_dry_run == options.dry_run
            &&& record.lifecycle.state != LifecycleState::Archived ==> views(res.moved_branches@) == spec_owned_refs(meta.steps@)
        },
{
    match archived_already(meta, record, options.dry_run) {
        Some(res) => return Ok(res),
        None => {},
    }
    let owned_refs = owned_branch_refs(&meta.steps);
    let configs = branch_configs(repo, &owned_refs);
    release_worktrees(repo, &meta.steps, &owned_refs, options)?;
    let event_id = cat("evt-archive-", fresh_uuid_simple().as_str());
    let timestamp = timestamp_iso8601();
    let mut archived_refs: Vec<ArchivedOwnedRef> = Vec::new();
    let mut i: usize = 0;
    while i < owned_refs.len()
        invariant
            i <= owned_refs@.len(),
            record.lifecycle.state != LifecycleState::Archived,
        decreases owned_refs@.len() - i,
    {
        let oid = match repo.resolve_ref_opt(owned_refs[i].as_str()) {
            Ok(Some(o)) => o,
            Ok(None) => String::new(),
            Err(e) => return Err(e),
        };
        archived_refs.push(archived_owned_ref(meta.id.as_str(), i, owned_refs[i].as_str(), oid));
        i += 1;
    }
    let manifest = archive_manifest(
        meta,
        record.record_oid.as_str(),
        event_id.as_str(),
        timestamp.as_str(),
        &options.reason,
        archived_refs,
        configs,
    );
    let lifecycle = archived_lifecycle(
        &record.lifecycle,
        event_id.as_str(),
        timestamp.as_str(),
        record.record_oid.as_str(),
        meta.name.as_str(),
        &options.reason,
    );
    let cuts = cuts_of(&meta.steps);
    let warnings = match repo.run(&["for-each-ref", "--format=%(refname) %(objectname)", "refs/heads/"]) {
        Ok(stdout) => unowned_warnings(stdout.as_str(), &owned_refs, &cuts),
        Err(_) => Vec::new(),
    };
    if options.dry_run {
        return Ok(ArchiveResult {
            archived_staircase_id: meta.id.clone(),
            canonical_name: meta.name.clone(),
            archive_event_id: event_id,
            moved_branches: owned_refs,
            unowned_warnings: warnings,
            is_dry_run: true,
        });
    }
    match write_record(repo, meta, &record.user_metadata, &lifecycle, Some(&manifest), Some(record.record_oid.as_str()), true) {
        Ok(_) => {},
        Err(e) => return Err(e),
    }
    let public_ref = StaircaseRefs::public(meta.name.as_str());
    let _ = repo.run(&["update-ref", "-d", public_ref.as_str()]);
    let mut state_prefix = cat(STATE_PREFIX, meta.id.as_str());
    state_prefix.append("/");
    match repo.run(&["for-each-ref", "--format=%(refname)", state_prefix.as_str()]) {
        Ok(stdout) => {
            let ls = lines_of(stdout.as_str());
            let mut q: usize = 0;
            while q < ls.len()
                invariant
                    q <= ls@.len(),
                decreases ls@.len() - q,
            {
                let r = trim_str(ls[q].as_str());
                let _ = repo.run(&["update-ref", "-d", r.as_str()]);
                q += 1;
            }
        },
        Err(_) => {},
    }
    let mut b: usize = 0;
    while b < owned_refs.len()
        invariant
            b <= owned_refs@.len(),
        decreases owned_refs@.len() - b,
    {
        let name = branch_name(owned_refs[b].as_str());
        let section = cat("branch.", name.as_str());
        let _ = repo.run(&["config", "--remove-section", section.as_str()]);
        let _ = repo.run(&["update-ref", "-d", owned_refs[b].as_str()]);
        b += 1;
    }
    Ok(ArchiveResult {
        archived_staircase_id: meta.id.clone(),
        canonical_name: meta.name.clone(),
        archive_event_id: event_id,
        moved_branches: owned_refs,
        unowned_warnings: warnings,
        is_dry_run: false,
    })
}

/// Releases the name that an archived staircase reserves: its archived
/// record gains a `name-released` event, and neither its lifecycle nor its
/// manifest reserves the name any more; returns the new record. A
/// staircase whose record is not archived keeps its name.
pub fn release_staircase_name(repo: &GitRepo, selector: &ResolvedSelector) -> (r: Result<String>)
    requires
        !(selector.staircase is ImplicitFamily),
{
    let meta = selector.metadata();
    let archive_record_ref = StaircaseRefs::archive_record(meta.id.as_str());
    let record = read_record(repo, archive_record_ref.as_str())?;
    if record.lifecycle.state != LifecycleState::Archived {
        return Err(StaircaseError::Other(cat3("staircase '", meta.name.as_str(), "' is not archived; cannot release name")));
    }
    let mut lifecycle = record.lifecycle.clone();
    lifecycle.name_reserved = false;
    let event_id = cat("evt-release-name-", fresh_uuid_simple().as_str());
    lifecycle.events.push(LifecycleEvent {
        event_id,
        kind: owned("name-released"),
        timestamp: timestamp_iso8601(),
        actor: None,
        record_oid_before: Some(record.record_oid.clone()),
        record_oid_after: None,
        canonical_name: Some(meta.name.clone()),
        reason: None,
        details: owned("null"),
    });
    let manifest = match &record.archive_manifest {
        Some(m) => {
            let mut copy = m.clone();
            copy.name_reservation = false;
            Some(copy)
        },
        None => None,
    };
    let updated = write_record(
        repo,
        &record.metadata,
        &record.user_metadata,
        &lifecycle,
        manifest.as_ref(),
        Some(record.record_oid.as_str()),
        true,
    )?;
    Ok(updated.record_oid)
}

} // verus!
