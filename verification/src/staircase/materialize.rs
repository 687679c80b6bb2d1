//! Turning the worktree draft into staircase history: attaching it to a
//! step, committing it into a step (extending, inserting after or rewriting
//! it, and restacking what lies above), and saving or restoring snapshots.

use vstd::prelude::*;
use std::path::PathBuf;
use crate::error::{Result, StaircaseError};
use crate::fresh::{fresh_uuid, unix_time_secs};
use crate::git::repo::{path_join, path_text, GitRepo};
use crate::model::{
    DraftAttachment, DraftClassification, DraftIntent, DraftSnapshot, RewriteMode, StaircaseMetadata, Step,
    WorktreeDraft,
};
use crate::staircase::draft::{get_worktree_draft, save_persistent_attachment};
use crate::staircase::persistence::record::write_metadata;
use crate::staircase::resolution::resolve_staircase;
use crate::staircase::resolved::adopt;
use crate::staircase::restack::{same_but_cuts, RestackOptions, RestackStrategy, Restacker};
use crate::text::{cat, cat3, opt_view, owned, str_eq, trim_str, u64_to_decimal, views};
use crate::model::metadata::copy_opt;

verus! {

/// What to stage before materializing, and how to commit.
#[derive(Debug, Clone)]
pub struct MaterializeOptions {
    pub all_tracked: bool,
    pub include_untracked: bool,
    pub include_ignored: bool,
    pub allow_empty: bool,
    pub message: Option<String>,
    pub paths: Vec<String>,
    pub preserve_draft: bool,
}

impl Default for MaterializeOptions {
    fn default() -> (r: Self)
        ensures
            !r.all_tracked && !r.include_untracked && !r.include_ignored && !r.allow_empty,
            r.message is None && r.paths@.len() == 0 && !r.preserve_draft,
    {
        MaterializeOptions {
            all_tracked: false,
            include_untracked: false,
            include_ignored: false,
            allow_empty: false,
            message: None,
            paths: Vec::new(),
            preserve_draft: false,
        }
    }
}

/// What materializing committed.
#[derive(Debug, Clone)]
pub struct MaterializeResult {
    pub staircase_id: String,
    pub staircase_name: String,
    pub step_name: String,
    pub commit_oid: String,
    pub updated_steps_count: usize,
}

/// The `git add` arguments that stage the draft: everything (ignored files
/// too), everything, the tracked files, or the given paths; none when
/// nothing is asked.
pub open spec fn spec_staging_args(options: MaterializeOptions) -> Option<Seq<Seq<char>>> {
    if options.include_ignored {
        Some(seq!["add"@, "-f"@, "-A"@])
    } else if options.include_untracked {
        Some(seq!["add"@, "-A"@])
    } else if options.all_tracked {
        Some(seq!["add"@, "-u"@])
    } else if options.paths@.len() > 0 {
        Some(seq!["add"@, "--"@] + views(options.paths@))
    } else {
        None
    }
}

/// The `git add` arguments that stage the draft (see `spec_staging_args`).
pub fn staging_args(options: &MaterializeOptions) -> (r: Option<Vec<String>>)
    ensures
        match spec_staging_args(*options) {
            Some(a) => r matches Some(v) && views(v@) == a,
            None => r is None,
        },
{
    if options.include_ignored {
        let v = vec![owned("add"), owned("-f"), owned("-A")];
        proof {
            assert(views(v@) =~= seq!["add"@, "-f"@, "-A"@]);
        }
        Some(v)
    } else if options.include_untracked {
        let v = vec![owned("add"), owned("-A")];
        proof {
            assert(views(v@) =~= seq!["add"@, "-A"@]);
        }
        Some(v)
    } else if options.all_tracked {
        let v = vec![owned("add"), owned("-u")];
        proof {
            assert(views(v@) =~= seq!["add"@, "-u"@]);
        }
        Some(v)
    } else if options.paths.len() > 0 {
        let mut v = vec![owned("add"), owned("--")];
        let mut i: usize = 0;
        while i < options.paths.len()
            invariant
                i <= options.paths@.len(),
                views(v@) == seq!["add"@, "--"@] + views(options.paths@).take(i as int),
            decreases options.paths@.len() - i,
        {
            proof {
                crate::text::lemma_views_push(v@, options.paths@[i as int]);
                assert(views(options.paths@).take(i + 1) =~= views(options.paths@).take(i as int).push(options.paths@[i as int]@));
            }
            v.push(options.paths[i].clone());
            i += 1;
        }
        proof {
            assert(views(options.paths@).take(options.paths@.len() as int) =~= views(options.paths@));
        }
        Some(v)
    } else {
        None
    }
}

/// The staircase a draft is materialized into: the one asked for, else the
/// attached one, else the one named like the current branch.
pub fn materialize_target(requested: Option<&str>, attachment: &Option<DraftAttachment>, head_branch: &Option<String>) -> (r: Option<String>)
    ensures
        requested matches Some(t) ==> (r matches Some(x) && x@ == t@),
        requested is None ==> match *attachment {
            Some(a) if a.staircase_name is Some => r matches Some(x) && x@ == a.staircase_name->0@,
            _ => opt_view(r) == opt_view(*head_branch),
        },
{
    match requested {
        Some(t) => Some(owned(t)),
        None => {
            match attachment {
                Some(a) => match &a.staircase_name {
                    Some(n) => return Some(n.clone()),
                    None => {},
                },
                None => {},
            }
            match head_branch {
                Some(b) => Some(b.clone()),
                None => None,
            }
        },
    }
}

/// The step a draft goes into: the attached step (by id or name) when the
/// staircase has it, else the top step.
pub open spec fn spec_attached_index(steps: Seq<Step>, step_ref: Option<Seq<char>>) -> int {
    match step_ref {
        Some(sid) => if exists|i: int| 0 <= i < steps.len() && ((#[trigger] steps[i]).id@ == sid || steps[i].name@ == sid) {
            choose|i: int| 0 <= i < steps.len() && ((#[trigger] steps[i]).id@ == sid || steps[i].name@ == sid)
                && forall|j: int| 0 <= j < i ==> !((#[trigger] steps[j]).id@ == sid || steps[j].name@ == sid)
        } else {
            steps.len() - 1
        },
        None => steps.len() - 1,
    }
}

/// The index of the step a draft goes into (see `spec_attached_index`).
pub fn attached_index(steps: &Vec<Step>, step_ref: &Option<String>) -> (r: usize)
    requires
        steps@.len() > 0,
    ensures
        r < steps@.len(),
        step_ref matches Some(sid) ==> (((steps@[r as int].id@ == sid@ || steps@[r as int].name@ == sid@)
            && forall|j: int| 0 <= j < r ==> !((#[trigger] steps@[j]).id@ == sid@ || steps@[j].name@ == sid@))
            || (r == steps@.len() - 1 && forall|j: int| 0 <= j < steps@.len() ==> !((#[trigger] steps@[j]).id@ == sid@
                || steps@[j].name@ == sid@))),
        step_ref is None ==> r == steps@.len() - 1,
{
    match step_ref {
        Some(sid) => {
            let mut i: usize = 0;
            while i < steps.len()
                invariant
                    steps@.len() > 0,
                    *step_ref matches Some(x) && x@ == sid@,
                    i <= steps@.len(),
                    forall|j: int| 0 <= j < i ==> !((#[trigger] steps@[j]).id@ == sid@ || steps@[j].name@ == sid@),
                decreases steps@.len() - i,
            {
                if str_eq(steps[i].id.as_str(), sid.as_str()) || str_eq(steps[i].name.as_str(), sid.as_str()) {
                    return i;
                }
                i += 1;
            }
            steps.len() - 1
        },
        None => steps.len() - 1,
    }
}

/// The commit message of a materialized draft without one.
pub open spec fn default_materialize_message(step: Seq<char>) -> Seq<char> {
    "Materialize draft for step '"@ + step + "'"@
}

/// Where the worktree's index is reset after extending a step: the cut of
/// the step on the current branch, else the new commit.
pub open spec fn spec_reset_target(steps: Seq<Step>, head_branch: Option<Seq<char>>, commit: Seq<char>) -> Seq<char> {
    match head_branch {
        Some(b) => if exists|i: int| 0 <= i < steps.len() && opt_view((#[trigger] steps[i]).branch) == Some(b) {
            steps[choose|i: int| 0 <= i < steps.len() && opt_view((#[trigger] steps[i]).branch) == Some(b)
                && forall|j: int| 0 <= j < i ==> opt_view((#[trigger] steps[j]).branch) != Some(b)].cut@
        } else {
            commit
        },
        None => commit,
    }
}

/// Where the index is reset after extending a step.
fn reset_target(steps: &Vec<Step>, head_branch: &Option<String>, commit: &String) -> (r: String) {
    match head_branch {
        Some(b) => {
            let mut i: usize = 0;
            while i < steps.len()
                invariant
                    i <= steps@.len(),
                decreases steps@.len() - i,
            {
                match &steps[i].branch {
                    Some(sb) => {
                        if str_eq(sb.as_str(), b.as_str()) {
                            return steps[i].cut.clone();
                        }
                    },
                    None => {},
                }
                i += 1;
            }
            commit.clone()
        },
        None => commit.clone(),
    }
}

/// Points step `index` at `commit`: its branch (if any) and its state ref.
fn move_step(repo: &GitRepo, meta: &mut StaircaseMetadata, index: usize, commit: &String) -> (r: Result<()>)
    requires
        index < old(meta).steps@.len(),
    ensures
        final(meta).steps@.len() == old(meta).steps@.len(),
        r is Ok ==> final(meta).steps@[index as int].cut@ == commit@,
        final(meta).steps@[index as int].name@ == old(meta).steps@[index as int].name@,
        forall|j: int| 0 <= j < final(meta).steps@.len() && j != index ==> (#[trigger] final(meta).steps@[j]) == old(meta).steps@[j],
        final(meta).id == old(meta).id && final(meta).name == old(meta).name,
{
    let mut step = meta.steps[index].copy();
    step.cut = commit.clone();
    match &step.branch {
        Some(b) => repo.update_branch(b.as_str(), commit.as_str())?,
        None => {},
    }
    repo.update_step_ref(meta.id.as_str(), step.id.as_str(), commit.as_str())?;
    meta.steps.set(index, step);
    Ok(())
}

/// Restacks the steps from `from` on (which sat on `original_cuts[from - shift - 1]`
/// and up) onto `base`; the number of steps restacked. Only the cuts of
/// those steps change.
fn restack_above(
    restacker: &Restacker,
    meta: &mut StaircaseMetadata,
    from: usize,
    original_cuts: &Vec<String>,
    shift: usize,
    base: &String,
) -> (r: Result<usize>)
    requires
        shift <= 1,
        from >= shift + 1,
        from <= old(meta).steps@.len(),
        original_cuts@.len() + shift >= old(meta).steps@.len(),
    ensures
        r matches Ok(n) ==> n == old(meta).steps@.len() - from,
        final(meta).steps@.len() == old(meta).steps@.len(),
        final(meta).id == old(meta).id,
        final(meta).name == old(meta).name,
        forall|j: int| 0 <= j < from ==> #[trigger] final(meta).steps@[j] == old(meta).steps@[j],
        same_but_cuts(old(meta).steps@, final(meta).steps@),
{
    let n = meta.steps.len();
    if from >= n {
        return Ok(0);
    }
    let mut old_parents: Vec<String> = Vec::new();
    let mut remaining: Vec<Step> = Vec::new();
    let mut i: usize = from;
    while i < n
        invariant
            n == meta.steps@.len(),
            from <= i <= n,
            from >= shift + 1,
            original_cuts@.len() + shift >= n,
            old_parents@.len() == i - from,
            remaining@.len() == i - from,
            forall|j: int| 0 <= j < i - from ==> #[trigger] remaining@[j] == meta.steps@[from + j],
        decreases n - i,
    {
        old_parents.push(original_cuts[i - shift - 1].clone());
        remaining.push(meta.steps[i].copy());
        i += 1;
    }
    let ghost before = remaining@;
    let options = RestackOptions { strategy: RestackStrategy::Manual, leave_upper_steps_stale: false };
    restacker.perform_restack(meta.id.as_str(), &mut remaining, base.as_str(), old_parents.as_slice(), &options)?;
    let ghost start = *meta;
    assert(start == *old(meta));
    let mut k: usize = 0;
    while k < remaining.len()
        invariant
            meta.steps@.len() == n,
            n == start.steps@.len(),
            from < n,
            meta.id == start.id,
            meta.name == start.name,
            remaining@.len() == n - from,
            before.len() == n - from,
            same_but_cuts(before, remaining@),
            forall|j: int| 0 <= j < n - from ==> #[trigger] before[j] == start.steps@[from + j],
            k <= remaining@.len(),
            forall|j: int| 0 <= j < from ==> #[trigger] meta.steps@[j] == start.steps@[j],
            forall|j: int| from + k <= j < n ==> #[trigger] meta.steps@[j] == start.steps@[j],
            forall|j: int| 0 <= j < k ==> #[trigger] meta.steps@[from + j] == remaining@[j],
        decreases remaining@.len() - k,
    {
        meta.steps.set(from + k, remaining[k].copy());
        proof {
            assert forall|j: int| 0 <= j < k + 1 implies #[trigger] meta.steps@[from + j] == remaining@[j] by {}
        }
        k += 1;
    }
    proof {
        assert forall|j: int| 0 <= j < n implies #[trigger] meta.steps@[j].id == start.steps@[j].id
            && meta.steps@[j].name == start.steps@[j].name && meta.steps@[j].branch == start.steps@[j].branch by {
            if j >= from {
                assert(meta.steps@[from + (j - from)] == remaining@[j - from]);
                assert(before[j - from] == start.steps@[from + (j - from)]);
            }
        }
        assert(same_but_cuts(start.steps@, meta.steps@));
    }
    Ok(n - from)
}

/// The messages of the refusals of `materialize_draft`.
pub open spec fn conflicted_draft_message() -> Seq<char> {
    "Cannot materialize: index contains unmerged conflicts"@
}

/// See `conflicted_draft_message`.
pub open spec fn busy_worktree_message() -> Seq<char> {
    "Cannot materialize: active Git operation in progress"@
}

/// See `conflicted_draft_message`.
pub open spec fn nothing_staged_message() -> Seq<char> {
    "No staged changes to materialize. Use --allow-empty to create an empty commit."@
}

/// See `conflicted_draft_message`.
pub open spec fn no_target_message() -> Seq<char> {
    "No staircase target specified, attached, or inferred from current branch"@
}

/// See `conflicted_draft_message`.
pub open spec fn no_steps_message() -> Seq<char> {
    "Staircase has no steps"@
}

/// Commits the worktree draft into a step of a staircase (see
/// `materialize_target`, `spec_attached_index`): refused with unmerged
/// entries, during a Git operation, or with nothing staged (unless empty
/// commits are allowed). The staged tree is committed on the draft's
/// basis; extending or rewriting a step moves it to the commit, a new step
/// is inserted after it; the steps above are restacked, the index is reset
/// onto the new history, the staircase is recorded (adopting an implicit
/// one) and the attachment follows the commit.
pub fn materialize_draft(
    repo: &GitRepo,
    staircase_target: Option<&str>,
    requested_intent: Option<DraftIntent>,
    options: &MaterializeOptions,
) -> (r: Result<MaterializeResult>)
    ensures
        r matches Ok(res) ==> res.updated_steps_count >= 1,
{
    let draft = get_worktree_draft(repo)?;
    materialize_into(repo, draft, staircase_target, requested_intent, options)
}

/// Materializes `draft` (see `materialize_draft`).
pub fn materialize_into(
    repo: &GitRepo,
    draft: WorktreeDraft,
    staircase_target: Option<&str>,
    requested_intent: Option<DraftIntent>,
    options: &MaterializeOptions,
) -> (r: Result<MaterializeResult>)
    ensures
        draft.classification == DraftClassification::Conflicted ==> (r matches Err(StaircaseError::Other(m))
            && m@ == conflicted_draft_message()),
        draft.classification != DraftClassification::Conflicted && draft.transient_operation is Some
            ==> (r matches Err(StaircaseError::Other(m)) && m@ == busy_worktree_message()),
        r matches Ok(res) ==> res.updated_steps_count >= 1,
{
    if draft.classification == DraftClassification::Conflicted {
        return Err(StaircaseError::Other(owned("Cannot materialize: index contains unmerged conflicts")));
    }
    if draft.transient_operation.is_some() {
        return Err(StaircaseError::Other(owned("Cannot materialize: active Git operation in progress")));
    }
    match staging_args(options) {
        Some(args) => {
            let mut refs: Vec<&str> = Vec::new();
            let mut i: usize = 0;
            while i < args.len()
                invariant
                    i <= args@.len(),
                decreases args@.len() - i,
            {
                refs.push(args[i].as_str());
                i += 1;
            }
            repo.run(refs.as_slice())?;
        },
        None => {},
    }
    let staged_tree = trim_str(repo.run(&["write-tree"])?.as_str());
    let basis_tree = trim_str(repo.run(&["rev-parse", "HEAD^{tree}"])?.as_str());
    if str_eq(staged_tree.as_str(), basis_tree.as_str()) && !options.allow_empty {
        return Err(StaircaseError::Other(owned(
            "No staged changes to materialize. Use --allow-empty to create an empty commit.",
        )));
    }
    let target_name = match materialize_target(staircase_target, &draft.attachment, &draft.head_branch) {
        Some(t) => t,
        None => return Err(StaircaseError::Other(owned(
            "No staircase target specified, attached, or inferred from current branch",
        ))),
    };
    let selector = match resolve_staircase(repo, target_name.as_str(), None)? {
        Some(s) => s,
        None => return Err(StaircaseError::Other(cat3("Staircase '", target_name.as_str(), "' not found"))),
    };
    let mut meta = if selector.staircase.is_managed() {
        selector.metadata().clone()
    } else {
        adopt(repo, selector.metadata())?
    };
    if meta.steps.len() == 0 {
        return Err(StaircaseError::Other(owned("Staircase has no steps")));
    }
    commit_draft(repo, draft, meta, requested_intent, options, staged_tree.as_str())
}

/// A copy of a draft intent.
fn copy_intent(i: &DraftIntent) -> (r: DraftIntent)
    ensures
        r == *i,
{
    match i {
        DraftIntent::Unassigned => DraftIntent::Unassigned,
        DraftIntent::ExtendStep => DraftIntent::ExtendStep,
        DraftIntent::NewStep => DraftIntent::NewStep,
        DraftIntent::RewriteStep(RewriteMode::Amend) => DraftIntent::RewriteStep(RewriteMode::Amend),
        DraftIntent::RewriteStep(RewriteMode::Fixup) => DraftIntent::RewriteStep(RewriteMode::Fixup),
        DraftIntent::RewriteStep(RewriteMode::FoldInto(s)) => DraftIntent::RewriteStep(RewriteMode::FoldInto(s.clone())),
    }
}

/// The intent a draft is materialized with: the one requested, else the
/// attachment's, else extending the step.
pub open spec fn spec_materialize_intent(requested: Option<DraftIntent>, attachment: Option<DraftAttachment>) -> DraftIntent {
    match requested {
        Some(i) => i,
        None => match attachment {
            Some(a) => a.intent,
            None => DraftIntent::ExtendStep,
        },
    }
}

/// The step the attachment names, if any.
pub open spec fn attachment_step_ref(attachment: Option<DraftAttachment>) -> Option<Seq<char>> {
    match attachment {
        Some(a) => opt_view(a.step_id),
        None => None,
    }
}

/// The commit message of a materialized draft: the one given, else
/// `default_materialize_message` of the step.
pub fn materialize_message(message: &Option<String>, step: &str) -> (r: String)
    ensures
        r@ == match message {
            Some(m) => m@,
            None => default_materialize_message(step@),
        },
{
    match message {
        Some(m) => m.clone(),
        None => cat3("Materialize draft for step '", step, "'"),
    }
}

/// The `git commit-tree` arguments that commit `tree` on `parent` with
/// `message`.
pub fn commit_tree_args(tree: &str, parent: &str, message: &str) -> (r: Vec<String>)
    ensures
        views(r@) == seq!["commit-tree"@, tree@, "-p"@, parent@, "-m"@, message@],
{
    let mut v: Vec<String> = Vec::new();
    v.push(owned("commit-tree"));
    v.push(owned(tree));
    v.push(owned("-p"));
    v.push(owned(parent));
    v.push(owned("-m"));
    v.push(owned(message));
    proof {
        reveal_strlit("commit-tree");
        reveal_strlit("-p");
        reveal_strlit("-m");
        assert(views(v@) =~= seq!["commit-tree"@, tree@, "-p"@, parent@, "-m"@, message@]);
    }
    v
}

/// Runs `git` with `args`.
fn run_strings(repo: &GitRepo, args: &Vec<String>) -> (r: Result<String>) {
    let mut refs: Vec<&str> = Vec::new();
    let mut i: usize = 0;
    while i < args.len()
        invariant
            i <= args@.len(),
        decreases args@.len() - i,
    {
        refs.push(args[i].as_str());
        i += 1;
    }
    repo.run(refs.as_slice())
}

/// Commits the staged tree `staged_tree` of `draft` into staircase `meta`
/// (see `materialize_draft`): on the draft's basis, with
/// `materialize_message`, into the attached step (`spec_attached_index`)
/// with `spec_materialize_intent`. Extending moves that step to the commit
/// and restacks every step above it; a new step `<name>-step` goes right
/// after it, with the steps above restacked; rewriting moves the step
/// alone. The result names the staircase, the attached step and the commit,
/// and counts the steps updated.
pub fn commit_draft(
    repo: &GitRepo,
    draft: WorktreeDraft,
    meta: StaircaseMetadata,
    requested_intent: Option<DraftIntent>,
    options: &MaterializeOptions,
    staged_tree: &str,
) -> (r: Result<MaterializeResult>)
    requires
        meta.steps@.len() > 0,
    ensures
        r matches Ok(res) ==> {
            let idx = spec_attached_index(meta.steps@, attachment_step_ref(draft.attachment));
            &&& res.updated_steps_count >= 1
            &&& res.staircase_id == meta.id
            &&& res.staircase_name == meta.name
            &&& res.step_name@ == meta.steps@[idx].name@
            &&& res.updated_steps_count == if spec_materialize_intent(requested_intent, draft.attachment) is RewriteStep {
                1
            } else {
                meta.steps@.len() - idx
            }
        },
{
    let mut meta = meta;
    let ghost start = meta;
    let intent = match requested_intent {
        Some(i) => i,
        None => match &draft.attachment {
            Some(a) => copy_intent(&a.intent),
            None => DraftIntent::ExtendStep,
        },
    };
    let step_ref = match &draft.attachment {
        Some(a) => copy_opt(&a.step_id),
        None => None,
    };
    let step_idx = attached_index(&meta.steps, &step_ref);
    proof {
        let idx = spec_attached_index(meta.steps@, attachment_step_ref(draft.attachment));
        match step_ref {
            Some(sid) => {
                if exists|i: int| 0 <= i < meta.steps@.len() && ((#[trigger] meta.steps@[i]).id@ == sid@ || meta.steps@[i].name@ == sid@) {
                    let w = choose|i: int| 0 <= i < meta.steps@.len() && ((#[trigger] meta.steps@[i]).id@ == sid@
                        || meta.steps@[i].name@ == sid@) && forall|j: int| 0 <= j < i ==> !((#[trigger] meta.steps@[j]).id@ == sid@ || meta.steps@[j].name@ == sid@);
                    if w < step_idx {
                        assert(!((meta.steps@[w]).id@ == sid@ || meta.steps@[w].name@ == sid@));
                    } else if w > step_idx {
                        assert(!((meta.steps@[step_idx as int]).id@ == sid@ || meta.steps@[step_idx as int].name@ == sid@));
                    }
                    assert(idx == step_idx);
                }
            },
            None => {},
        }
        assert(idx == step_idx);
    }
    let target_step_name = meta.steps[step_idx].name.clone();
    let mut original_cuts: Vec<String> = Vec::new();
    let mut c: usize = 0;
    while c < meta.steps.len()
        invariant
            c <= meta.steps@.len(),
            original_cuts@.len() == c,
        decreases meta.steps@.len() - c,
    {
        original_cuts.push(meta.steps[c].cut.clone());
        c += 1;
    }
    let message = materialize_message(&options.message, target_step_name.as_str());
    let args = commit_tree_args(staged_tree, draft.basis.as_str(), message.as_str());
    let commit_oid = trim_str(run_strings(repo, &args)?.as_str());
    let restacker = Restacker::prepare(repo, meta.steps.as_slice())?;
    let updated_steps_count: usize;
    match intent {
        DraftIntent::ExtendStep | DraftIntent::Unassigned => {
            move_step(repo, &mut meta, step_idx, &commit_oid)?;
            let restacked = restack_above(&restacker, &mut meta, step_idx + 1, &original_cuts, 0, &commit_oid)?;
            updated_steps_count = 1 + restacked;
            let target = reset_target(&meta.steps, &draft.head_branch, &commit_oid);
            repo.run(&["reset", "--soft", target.as_str()])?;
        },
        DraftIntent::NewStep => {
            let new_name = cat(target_step_name.as_str(), "-step");
            let new_id = fresh_uuid();
            repo.update_branch(new_name.as_str(), commit_oid.as_str())?;
            repo.update_step_ref(meta.id.as_str(), new_id.as_str(), commit_oid.as_str())?;
            let ghost before = meta.steps@;
            meta.steps.insert(step_idx + 1, Step {
                id: new_id,
                name: new_name.clone(),
                cut: commit_oid.clone(),
                branch: Some(new_name),
            });
            assert(meta.steps@[step_idx as int] == before[step_idx as int]);
            let count = meta.steps.len();
            assert(step_idx + 1 < count);
            let restacked = restack_above(&restacker, &mut meta, step_idx + 2, &original_cuts, 1, &commit_oid)?;
            updated_steps_count = 1 + restacked;
            repo.run(&["reset", "--soft", commit_oid.as_str()])?;
        },
        DraftIntent::RewriteStep(_) => {
            move_step(repo, &mut meta, step_idx, &commit_oid)?;
            updated_steps_count = 1;
            repo.run(&["reset", "--soft", commit_oid.as_str()])?;
        },
    }
    write_metadata(repo, &meta)?;
    match draft.attachment {
        Some(mut att) => {
            att.expected_basis = commit_oid.clone();
            save_persistent_attachment(repo, &att)?;
        },
        None => {},
    }
    let step_name = meta.steps[step_idx].name.clone();
    Ok(MaterializeResult {
        staircase_id: meta.id,
        staircase_name: meta.name,
        step_name,
        commit_oid,
        updated_steps_count,
    })
}

/// The message for a staircase selector that resolves to nothing.
pub open spec fn staircase_not_found_message(name: Seq<char>) -> Seq<char> {
    "Staircase '"@ + name + "' not found"@
}

/// The message for a step that the staircase does not have.
pub open spec fn step_not_found_message(name: Seq<char>) -> Seq<char> {
    "Step '"@ + name + "' not found in staircase"@
}

/// Attaches the worktree draft to a step of a staircase (the named step, by
/// name or id, else the top one), recording an implicit staircase first,
/// with the draft's intent (extending the step by default) and the current
/// `HEAD` as its expected basis.
pub fn attach_draft(repo: &GitRepo, staircase_name: &str, step_name: Option<&str>, intent: Option<DraftIntent>) -> (r: Result<DraftAttachment>)
    ensures
        r matches Ok(a) ==> match intent {
            Some(i) => a.intent == i,
            None => a.intent == DraftIntent::ExtendStep,
        },
        r matches Ok(a) ==> (step_name matches Some(n) ==> (a.step_name matches Some(x) && a.step_id matches Some(y)
            && (x@ == n@ || y@ == n@))),
        r matches Ok(a) ==> a.staircase_id is Some && a.staircase_name is Some,
{
    let selector = match resolve_staircase(repo, staircase_name, None)? {
        Some(s) => s,
        None => return Err(StaircaseError::Other(cat3("Staircase '", staircase_name, "' not found"))),
    };
    let meta = if selector.staircase.is_managed() {
        selector.metadata().clone()
    } else {
        adopt(repo, selector.metadata())?
    };
    let selected: Step = match step_name {
        Some(sn) => {
            let mut found: Option<Step> = None;
            let mut i: usize = 0;
            while i < meta.steps.len()
                invariant
                    i <= meta.steps@.len(),
                    found matches Some(s) ==> (s.name@ == sn@ || s.id@ == sn@),
                decreases meta.steps@.len() - i,
            {
                if str_eq(meta.steps[i].name.as_str(), sn) || str_eq(meta.steps[i].id.as_str(), sn) {
                    found = Some(meta.steps[i].copy());
                    break;
                }
                i += 1;
            }
            match found {
                Some(s) => s,
                None => return Err(StaircaseError::Other(cat3("Step '", sn, "' not found in staircase"))),
            }
        },
        None => {
            if meta.steps.len() == 0 {
                return Err(StaircaseError::Other(owned("Staircase has no steps")));
            }
            meta.steps[meta.steps.len() - 1].copy()
        },
    };
    let basis = repo.resolve_commit("HEAD")?;
    let attachment = DraftAttachment {
        staircase_id: Some(meta.id.clone()),
        staircase_name: Some(meta.name.clone()),
        step_id: Some(selected.id.clone()),
        step_name: Some(selected.name.clone()),
        intent: match intent {
            Some(i) => i,
            None => DraftIntent::ExtendStep,
        },
        expected_basis: basis,
        worktree_identity: path_text(&repo.workdir),
    };
    save_persistent_attachment(repo, &attachment)?;
    Ok(attachment)
}

/// Where snapshot `id` is stored.
fn snapshot_path(repo: &GitRepo, id: &str) -> PathBuf {
    let git_dir = path_join(&repo.workdir, ".git");
    let dir = path_join(&git_dir, "staircase-snapshots");
    path_join(&dir, cat(id, ".json").as_str())
}

/// Saves a snapshot of the worktree draft under a fresh id: its basis,
/// staged tree, worktree patch, untracked paths and attachment, and the
/// time it was taken (seconds since the Unix epoch).
pub fn create_snapshot(repo: &GitRepo, name: Option<&str>) -> (r: Result<DraftSnapshot>)
    ensures
        r matches Ok(s) ==> s.id@.len() == 36,
{
    let _ = name;
    let draft = get_worktree_draft(repo)?;
    let snapshot_id = fresh_uuid();
    let created_at = u64_to_decimal(unix_time_secs());
    let worktree_patch = match repo.run(&["diff"]) {
        Ok(p) => Some(p),
        Err(_) => None,
    };
    let snapshot = DraftSnapshot {
        id: snapshot_id,
        created_at,
        basis: draft.basis,
        staged_tree: draft.staged_tree_oid,
        worktree_tree: worktree_patch,
        untracked_paths: draft.untracked_paths,
        untracked_files: Vec::new(),
        attachment: draft.attachment,
    };
    let file = snapshot_path(repo, snapshot.id.as_str());
    match repo.host.save_snapshot(&file, &snapshot) {
        Ok(()) => {},
        Err(e) => return Err(StaircaseError::Io(e)),
    }
    Ok(snapshot)
}

/// The message for a snapshot that does not exist.
pub open spec fn snapshot_not_found_message(id: Seq<char>) -> Seq<char> {
    "Snapshot '"@ + id + "' not found"@
}

/// The message when the worktree is not clean for a restore.
pub open spec fn restore_collision_message() -> Seq<char> {
    "Restoration collision: current worktree draft is not clean"@
}

/// Restores snapshot `snapshot_id` into a clean worktree: its worktree
/// patch is applied and its attachment stored again.
pub fn restore_snapshot(repo: &GitRepo, snapshot_id: &str) -> (r: Result<DraftSnapshot>) {
    let file = snapshot_path(repo, snapshot_id);
    if !repo.host.path_exists(&file) {
        return Err(StaircaseError::Other(cat3("Snapshot '", snapshot_id, "' not found")));
    }
    let snapshot = repo.host.load_snapshot(&file)?;
    let current = get_worktree_draft(repo)?;
    if current.classification != DraftClassification::Clean {
        return Err(StaircaseError::Other(owned("Restoration collision: current worktree draft is not clean")));
    }
    match &snapshot.worktree_tree {
        Some(patch) => {
            let _ = repo.run_with_stdin(&["apply"], patch.as_str());
        },
        None => {},
    }
    match &snapshot.attachment {
        Some(att) => save_persistent_attachment(repo, att)?,
        None => {},
    }
    Ok(snapshot)
}

} // verus!
