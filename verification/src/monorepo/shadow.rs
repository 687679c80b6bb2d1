//! Shadow worktrees: what a new one is called, what `git worktree add` is
//! asked, which entries of the primary tree are linked, which worktrees are
//! pruned, and the timestamps and Bazel settings written for them.

use vstd::prelude::*;
use crate::fresh::{fresh_uuid, unix_time_secs};
use crate::git::repo::{canonical_text, path_from, path_join, path_text, GitRepo};
use crate::monorepo::registry::{
    components_of, path_components, path_starts_with, same_path, same_path_text, starts_with_path, MonorepoWorktreeEntry,
    MonorepoWorktreeRegistry,
};
use crate::text::{
    cat, cat3, decimal, join, join_strings, lemma_views_push, padded_decimal, starts_with, str_eq,
    substring, views, zero_padded,
};

verus! {

/// What to create a shadow worktree for, and how.
#[derive(Debug, Clone)]
pub struct CreateWorktreeOptions {
    pub repo_paths: Vec<String>,
    pub branch: Option<String>,
    pub commit: Option<String>,
    pub upstream: Option<String>,
    pub base: Option<String>,
    pub name: Option<String>,
    pub custom_target_path: Option<String>,
}

impl Default for CreateWorktreeOptions {
    fn default() -> (r: Self)
        ensures
            r.repo_paths@.len() == 0,
            r.branch is None && r.commit is None && r.upstream is None,
            r.base is None && r.name is None && r.custom_target_path is None,
    {
        CreateWorktreeOptions {
            repo_paths: Vec::new(),
            branch: None,
            commit: None,
            upstream: None,
            base: None,
            name: None,
            custom_target_path: None,
        }
    }
}

/// The id of a shadow worktree: `shadow-` and its name, or `shadow-` and the
/// first eight characters of a generated UUID when it has none.
pub open spec fn spec_shadow_id(name: Option<Seq<char>>, generated: Seq<char>) -> Seq<char> {
    match name {
        Some(n) => "shadow-"@ + n,
        None => "shadow-"@ + generated.take(8),
    }
}

/// The id of a shadow worktree named `name`, or generated from the UUID
/// text `generated` (see `spec_shadow_id`).
pub fn shadow_worktree_id(name: Option<&str>, generated: &str) -> (r: String)
    requires
        generated@.len() >= 8,
    ensures
        r@ == spec_shadow_id(
            match name { Some(n) => Some(n@), None => None },
            generated@,
        ),
{
    match name {
        Some(n) => cat("shadow-", n),
        None => {
            let prefix = substring(generated, 0, 8);
            cat("shadow-", prefix.as_str())
        },
    }
}

/// The id of a new shadow worktree: from its name, or from a fresh random UUID.
pub fn new_shadow_worktree_id(name: Option<&str>) -> (r: String)
    ensures
        name matches Some(n) ==> r@ == "shadow-"@ + n@,
        name is None ==> r@.len() == 15 && "shadow-"@.is_prefix_of(r@),
{
    match name {
        Some(n) => cat("shadow-", n),
        None => {
            let generated = fresh_uuid();
            let r = shadow_worktree_id(None, generated.as_str());
            proof {
                reveal_strlit("shadow-");
                assert(("shadow-"@ + generated@.take(8)).len() == 15);
                assert("shadow-"@ =~= ("shadow-"@ + generated@.take(8)).take(7));
            }
            r
        },
    }
}

/// The arguments of `git worktree add` for a repository checked out at
/// `dest`: a new or existing branch, a detached commit, or a detached `HEAD`.
pub open spec fn spec_worktree_add_args(
    branch: Option<Seq<char>>,
    base: Option<Seq<char>>,
    commit: Option<Seq<char>>,
    dest: Seq<char>,
    branch_exists: bool,
) -> Seq<Seq<char>> {
    let head = seq!["worktree"@, "add"@];
    match branch {
        Some(b) => match base {
            Some(start) => head + seq!["-b"@, b, dest, start],
            None => if branch_exists {
                head + seq![dest, b]
            } else {
                head + seq!["-b"@, b, dest]
            },
        },
        None => match commit {
            Some(c) => head + seq!["--detach"@, dest, c],
            None => head + seq!["--detach"@, dest, "HEAD"@],
        },
    }
}

/// The view of an optional text.
pub open spec fn opt_seq(o: Option<&str>) -> Option<Seq<char>> {
    match o {
        Some(t) => Some(t@),
        None => None,
    }
}

/// The arguments of `git worktree add` (see `spec_worktree_add_args`);
/// `branch_exists` tells whether `refs/heads/<branch>` already exists.
pub fn worktree_add_args(
    branch: Option<&str>,
    base: Option<&str>,
    commit: Option<&str>,
    dest: &str,
    branch_exists: bool,
) -> (r: Vec<String>)
    ensures
        views(r@) == spec_worktree_add_args(opt_seq(branch), opt_seq(base), opt_seq(commit), dest@, branch_exists),
{
    let mut args: Vec<String> = vec!["worktree".to_string(), "add".to_string()];
    match branch {
        Some(b) => match base {
            Some(start) => {
                args.push("-b".to_string());
                args.push(b.to_string());
                args.push(dest.to_string());
                args.push(start.to_string());
            },
            None => {
                if branch_exists {
                    args.push(dest.to_string());
                    args.push(b.to_string());
                } else {
                    args.push("-b".to_string());
                    args.push(b.to_string());
                    args.push(dest.to_string());
                }
            },
        },
        None => {
            args.push("--detach".to_string());
            args.push(dest.to_string());
            match commit {
                Some(c) => args.push(c.to_string()),
                None => args.push("HEAD".to_string()),
            }
        },
    }
    proof {
        assert(views(args@) =~= spec_worktree_add_args(
            opt_seq(branch), opt_seq(base), opt_seq(commit), dest@, branch_exists));
    }
    args
}

/// Entries of the primary tree that a shadow tree never mirrors: Git and
/// repo metadata, virtual environments, `node_modules`, the Bazel settings
/// file and Bazel's output links.
pub open spec fn spec_is_excluded(name: Seq<char>) -> bool {
    name == ".git"@ || name == ".repo"@ || name == ".venv"@ || name == "node_modules"@
        || name == ".bazelrc"@ || "bazel-"@.is_prefix_of(name)
}

/// Whether the entry called `name` is never mirrored (see `spec_is_excluded`).
pub fn is_excluded(name: &str) -> (r: bool)
    ensures
        r == spec_is_excluded(name@),
{
    str_eq(name, ".git") || str_eq(name, ".repo") || str_eq(name, ".venv") || str_eq(
        name,
        "node_modules",
    ) || str_eq(name, ".bazelrc") || starts_with(name, "bazel-")
}

/// What the shadow tree does with an entry of the primary tree.
#[derive(Debug, Clone, Copy, PartialEq, Eq, Structural)]
pub enum MirrorAction {
    /// Leaves it out: excluded, or an active repository that has its own worktree.
    Skip,
    /// Makes a directory and mirrors the entry's contents: it holds an active repository.
    Descend,
    /// Links it to the primary tree.
    Link,
}

/// What to do with the entry `name` at `rel_path` (relative to the primary
/// root), given the relative paths of the active repositories.
pub open spec fn spec_mirror_action(name: Seq<char>, rel_path: Seq<char>, active: Seq<Seq<char>>) -> MirrorAction {
    if spec_is_excluded(name) {
        MirrorAction::Skip
    } else if exists|i: int| 0 <= i < active.len() && same_path(#[trigger] active[i], rel_path) {
        MirrorAction::Skip
    } else if exists|i: int| 0 <= i < active.len() && path_starts_with(#[trigger] active[i], rel_path) {
        MirrorAction::Descend
    } else {
        MirrorAction::Link
    }
}


/// What the shadow tree does with the entry `name` at `rel_path` (see
/// `spec_mirror_action`).
pub fn mirror_action(name: &str, rel_path: &str, active: &Vec<String>) -> (r: MirrorAction)
    ensures
        r == spec_mirror_action(name@, rel_path@, views(active@)),
{
    if is_excluded(name) {
        return MirrorAction::Skip;
    }
    let mut i: usize = 0;
    while i < active.len()
        invariant
            !spec_is_excluded(name@),
            i <= active@.len(),
            forall|j: int| 0 <= j < i ==> !same_path(#[trigger] views(active@)[j], rel_path@),
        decreases active@.len() - i,
    {
        if same_path_text(active[i].as_str(), rel_path) {
            proof {
                assert(same_path(views(active@)[i as int], rel_path@));
            }
            return MirrorAction::Skip;
        }
        i += 1;
    }
    let mut k: usize = 0;
    while k < active.len()
        invariant
            !spec_is_excluded(name@),
            k <= active@.len(),
            forall|j: int| 0 <= j < active@.len() ==> !same_path(#[trigger] views(active@)[j], rel_path@),
            forall|j: int| 0 <= j < k ==> !path_starts_with(#[trigger] views(active@)[j], rel_path@),
        decreases active@.len() - k,
    {
        if starts_with_path(active[k].as_str(), rel_path) {
            proof {
                assert(path_starts_with(views(active@)[k as int], rel_path@));
                assert(!spec_is_excluded(name@));
                assert(!(exists|i: int| 0 <= i < views(active@).len() && same_path(#[trigger] views(active@)[i], rel_path@)));
            }
            return MirrorAction::Descend;
        }
        k += 1;
    }
    MirrorAction::Link
}

/// Components written back as a path: `/` alone for the root, the others
/// joined with `/`.
pub open spec fn render_components(cs: Seq<Seq<char>>) -> Seq<char> {
    if cs.len() > 0 && cs[0] == "/"@ {
        "/"@ + join(cs.drop_first(), "/"@)
    } else {
        join(cs, "/"@)
    }
}

/// Components written back as a path (see `render_components`).
fn render_path(cs: &Vec<String>) -> (r: String)
    ensures
        r@ == render_components(views(cs@)),
{
    if cs.len() > 0 && str_eq(cs[0].as_str(), "/") {
        let mut rest: Vec<String> = Vec::new();
        let mut i: usize = 1;
        while i < cs.len()
            invariant
                1 <= i <= cs@.len(),
                views(rest@) == views(cs@).subrange(1, i as int),
            decreases cs@.len() - i,
        {
            proof {
                lemma_views_push(rest@, cs@[i as int]);
                assert(views(cs@).subrange(1, i + 1) =~= views(cs@).subrange(1, i as int).push(cs@[i as int]@));
            }
            rest.push(cs[i].clone());
            i += 1;
        }
        proof {
            assert(views(cs@).subrange(1, cs@.len() as int) =~= views(cs@).drop_first());
        }
        let joined = join_strings(&rest, "/");
        cat("/", joined.as_str())
    } else {
        join_strings(cs, "/")
    }
}

/// The part of `path` below `root` (`Path::strip_prefix`), or the empty
/// path when `path` does not lie under `root`.
pub open spec fn spec_relative_within(path: Seq<char>, root: Seq<char>) -> Seq<char> {
    if path_starts_with(path, root) {
        render_components(path_components(path).skip(path_components(root).len() as int))
    } else {
        seq![]
    }
}

/// The part of `path` below `root` (see `spec_relative_within`).
pub fn relative_within(path: &str, root: &str) -> (r: String)
    ensures
        r@ == spec_relative_within(path@, root@),
{
    if !starts_with_path(path, root) {
        return String::new();
    }
    let pc = components_of(path);
    let rc = components_of(root);
    proof {
        assert(views(rc@).is_prefix_of(views(pc@)));
    }
    let mut rest: Vec<String> = Vec::new();
    let mut i: usize = rc.len();
    while i < pc.len()
        invariant
            views(pc@) == path_components(path@),
            views(rc@) == path_components(root@),
            rc@.len() <= i <= pc@.len(),
            views(rest@) == views(pc@).subrange(rc@.len() as int, i as int),
        decreases pc@.len() - i,
    {
        proof {
            lemma_views_push(rest@, pc@[i as int]);
            assert(views(pc@).subrange(rc@.len() as int, i + 1)
                =~= views(pc@).subrange(rc@.len() as int, i as int).push(pc@[i as int]@));
        }
        rest.push(pc[i].clone());
        i += 1;
    }
    proof {
        assert(views(pc@).subrange(rc@.len() as int, pc@.len() as int) =~= views(pc@).skip(rc@.len() as int));
    }
    render_path(&rest)
}

/// The directories searched for the primary root of a monorepo, nearest
/// first: `path` itself, then each parent as `PathBuf::pop` finds it, up to
/// the root of an absolute path or the empty path for a relative one.
pub open spec fn path_ancestors(path: Seq<char>) -> Seq<Seq<char>> {
    let cs = path_components(path);
    let lowest: int = if cs.len() > 0 && cs[0] == "/"@ { 1 } else { 0 };
    let n = cs.len() as int;
    seq![path] + Seq::new(
        if n - 1 >= lowest { (n - lowest) as nat } else { 0 },
        |k: int| render_components(cs.take(n - 1 - k)),
    )
}

/// The directories searched for the primary root (see `path_ancestors`).
pub fn ancestors_of(path: &str) -> (r: Vec<String>)
    ensures
        views(r@) == path_ancestors(path@),
{
    let cs = components_of(path);
    let n = cs.len();
    let lowest: usize = if n > 0 && str_eq(cs[0].as_str(), "/") { 1 } else { 0 };
    let ghost spec_lowest: int = if views(cs@).len() > 0 && views(cs@)[0] == "/"@ { 1 } else { 0 };
    proof {
        reveal_strlit("/");
        assert(lowest == spec_lowest);
    }
    let mut out: Vec<String> = vec![path.to_string()];
    if n == 0 || n - 1 < lowest {
        proof {
            assert(views(out@) =~= path_ancestors(path@));
        }
        return out;
    }
    let mut k: usize = n - 1;
    let ghost cv = views(cs@);
    loop
        invariant
            cv == views(cs@),
            cv == path_components(path@),
            n == cs@.len(),
            lowest == spec_lowest,
            spec_lowest == (if cv.len() > 0 && cv[0] == "/"@ { 1int } else { 0int }),
            lowest <= k <= n - 1,
            views(out@) == seq![path@] + Seq::new((n - 1 - k) as nat, |j: int| render_components(cv.take(n - 1 - j))),
        decreases k,
    {
        let mut prefix: Vec<String> = Vec::new();
        let mut j: usize = 0;
        while j < k
            invariant
                j <= k < cs@.len(),
                views(prefix@) == views(cs@).take(j as int),
            decreases k - j,
        {
            proof {
                lemma_views_push(prefix@, cs@[j as int]);
                assert(views(cs@).take(j + 1) =~= views(cs@).take(j as int).push(cs@[j as int]@));
            }
            prefix.push(cs[j].clone());
            j += 1;
        }
        let dir = render_path(&prefix);
        proof {
            lemma_views_push(out@, dir);
        }
        out.push(dir);
        proof {
            assert(views(out@) =~= seq![path@] + Seq::new((n - 1 - k + 1) as nat, |i: int| render_components(cv.take(n - 1 - i))));
        }
        if k == lowest {
            proof {
                let cs2 = path_components(path@);
                assert(cs2 == cv);
                assert(cs2.len() == n);
                let tail = Seq::new((n - lowest) as nat, |i: int| render_components(cv.take(n - 1 - i)));
                let spec_tail = Seq::new(
                    if cs2.len() - 1 >= lowest { (cs2.len() - lowest) as nat } else { 0 },
                    |i: int| render_components(cs2.take(cs2.len() - 1 - i)),
                );
                assert(path_ancestors(path@) == seq![path@] + spec_tail);
                assert(spec_tail.len() == tail.len());
                assert forall|i: int| 0 <= i < tail.len() implies spec_tail[i] == tail[i] by {}
                assert(spec_tail =~= tail);
                assert(views(out@) =~= seq![path@] + tail);
            }
            return out;
        }
        k = k - 1;
    }
}

/// The primary root of the monorepo that holds the repository: the nearest
/// of its canonical worktree path and that path's parents (see
/// `path_ancestors`) that has a `WORKSPACE` or `MODULE.bazel` file or a
/// `.repo` directory, else the canonical worktree path itself. What exists
/// on disk is the host's answer, so nothing is stated of the result.
pub fn find_primary_monorepo_root(repo: &GitRepo) -> String {
    let canonical = match canonical_text(&repo.workdir) {
        Ok(t) => t,
        Err(_) => path_text(&repo.workdir),
    };
    let candidates = ancestors_of(canonical.as_str());
    let mut i: usize = 0;
    while i < candidates.len()
        decreases candidates@.len() - i,
    {
        let dir = path_from(candidates[i].clone());
        if repo.host.path_exists(&path_join(&dir, "WORKSPACE")) || repo.host.path_exists(
            &path_join(&dir, "MODULE.bazel"),
        ) || repo.host.is_dir(&path_join(&dir, ".repo")) {
            return candidates[i].clone();
        }
        i += 1;
    }
    canonical
}

/// The ids of the registered worktrees to prune, in order: those whose
/// primary root or shadow tree no longer exists, or all when `force` is set.
pub open spec fn spec_pruned_ids(
    ws: Seq<MonorepoWorktreeEntry>,
    primary_exists: Seq<bool>,
    shadow_exists: Seq<bool>,
    force: bool,
) -> Seq<Seq<char>>
    decreases ws.len(),
{
    if ws.len() == 0 {
        seq![]
    } else {
        let n = ws.len() - 1;
        let before = spec_pruned_ids(ws.drop_last(), primary_exists, shadow_exists, force);
        if !primary_exists[n] || !shadow_exists[n] || force {
            before.push(ws[n].id@)
        } else {
            before
        }
    }
}

/// The ids of the worktrees to prune (see `spec_pruned_ids`);
/// `primary_exists[i]` and `shadow_exists[i]` tell whether the primary root
/// and the shadow tree of the `i`-th entry exist. The front end removes each.
pub fn prune_monorepo_worktrees(
    registry: &MonorepoWorktreeRegistry,
    primary_exists: &Vec<bool>,
    shadow_exists: &Vec<bool>,
    force: bool,
) -> (r: Vec<String>)
    requires
        primary_exists@.len() == registry.worktrees@.len(),
        shadow_exists@.len() == registry.worktrees@.len(),
    ensures
        views(r@) == spec_pruned_ids(registry.worktrees@, primary_exists@, shadow_exists@, force),
{
    let ghost ws = registry.worktrees@;
    let mut out: Vec<String> = Vec::new();
    let mut i: usize = 0;
    while i < registry.worktrees.len()
        invariant
            ws == registry.worktrees@,
            primary_exists@.len() == ws.len(),
            shadow_exists@.len() == ws.len(),
            i <= ws.len(),
            views(out@) == spec_pruned_ids(ws.take(i as int), primary_exists@, shadow_exists@, force),
        decreases ws.len() - i,
    {
        proof {
            assert(ws.take(i + 1).drop_last() =~= ws.take(i as int));
        }
        if !primary_exists[i] || !shadow_exists[i] || force {
            let id = registry.worktrees[i].id.clone();
            proof {
                lemma_views_push(out@, id);
            }
            out.push(id);
        }
        i += 1;
    }
    proof {
        assert(ws.take(ws.len() as int) =~= ws);
    }
    out
}

/// The `.bazelrc` of a shadow tree: it imports the primary tree's settings
/// when it has any, and gives the shadow tree its own output base and a
/// shared repository cache.
pub open spec fn spec_bazelrc(primary_bazelrc: Option<Seq<char>>, output_base: Seq<char>, repo_cache: Seq<char>) -> Seq<char> {
    let import = match primary_bazelrc {
        Some(p) => "# Import primary workspace settings\ntry-import "@ + p + "\n\n"@,
        None => seq![],
    };
    import + "# Isolate output base\nstartup --output_base="@ + output_base + "\n\n"@
        + "# Share repository cache\ncommon --repository_cache="@ + repo_cache + "\n"@
}

/// The `.bazelrc` of a shadow tree (see `spec_bazelrc`).
pub fn bazelrc_content(primary_bazelrc: Option<&str>, output_base: &str, repo_cache: &str) -> (r: String)
    ensures
        r@ == spec_bazelrc(opt_seq(primary_bazelrc), output_base@, repo_cache@),
{
    let mut content = String::new();
    match primary_bazelrc {
        Some(p) => {
            content.append("# Import primary workspace settings\ntry-import ");
            content.append(p);
            content.append("\n\n");
        },
        None => {},
    }
    content.append("# Isolate output base\nstartup --output_base=");
    content.append(output_base);
    content.append("\n\n");
    content.append("# Share repository cache\ncommon --repository_cache=");
    content.append(repo_cache);
    content.append("\n");
    proof {
        assert(content@ =~= spec_bazelrc(opt_seq(primary_bazelrc), output_base@, repo_cache@));
    }
    content
}

/// Whether `year` is a leap year of the Gregorian calendar.
pub open spec fn is_leap_year(year: int) -> bool {
    (year % 4 == 0 && year % 100 != 0) || year % 400 == 0
}

/// The number of days of `year`.
pub open spec fn year_days(year: int) -> int {
    if is_leap_year(year) { 366 } else { 365 }
}

/// The year in which day `days` (counted from 0) falls, counting from the
/// first day of `year`, and the day within that year.
pub open spec fn civil_year(days: int, year: int) -> (int, int)
    decreases days,
{
    if days < 0 || days < year_days(year) {
        (year, days)
    } else {
        civil_year(days - year_days(year), year + 1)
    }
}

/// The number of days of month `month` (1 to 12).
pub open spec fn month_days(month: int, leap: bool) -> int {
    if month == 2 {
        if leap { 29 } else { 28 }
    } else if month == 4 || month == 6 || month == 9 || month == 11 {
        30
    } else {
        31
    }
}

/// The month in which day `days` of the year falls, counting from month
/// `month`, and the day within that month (both from the start of `month`).
pub open spec fn civil_month(days: int, month: int, leap: bool) -> (int, int)
    decreases 13 - month,
{
    if month > 12 || days < month_days(month, leap) {
        (month, days)
    } else {
        civil_month(days - month_days(month, leap), month + 1, leap)
    }
}

/// The UTC time `secs` seconds after the Unix epoch as
/// `YYYY-MM-DDTHH:MM:SSZ`, each field zero-padded to its width.
pub open spec fn spec_iso8601(secs: nat) -> Seq<char> {
    let days = secs / 86400;
    let in_day = secs % 86400;
    let (year, day_of_year) = civil_year(days as int, 1970);
    let (month, day_of_month) = civil_month(day_of_year, 1, is_leap_year(year));
    zero_padded(decimal(year as nat), 4) + "-"@ + zero_padded(decimal(month as nat), 2) + "-"@
        + zero_padded(decimal((day_of_month + 1) as nat), 2) + "T"@
        + zero_padded(decimal(in_day / 3600), 2) + ":"@
        + zero_padded(decimal((in_day % 3600) / 60), 2) + ":"@
        + zero_padded(decimal(in_day % 60), 2) + "Z"@
}

proof fn lemma_civil_year_bounds(days: int, year: int)
    requires
        days >= 0,
        year >= 1970,
    ensures
        civil_year(days, year).0 >= year,
        civil_year(days, year).0 <= year + days,
        0 <= civil_year(days, year).1 < year_days(civil_year(days, year).0),
    decreases days,
{
    if days >= year_days(year) {
        lemma_civil_year_bounds(days - year_days(year), year + 1);
    }
}

/// The number of days from the start of month `month` to the end of the year.
pub open spec fn days_from_month(month: int, leap: bool) -> int
    decreases 13 - month,
{
    if month > 12 { 0 } else { month_days(month, leap) + days_from_month(month + 1, leap) }
}

proof fn lemma_days_in_year(year: int)
    ensures
        days_from_month(1, is_leap_year(year)) == year_days(year),
{
    reveal_with_fuel(days_from_month, 13);
}

/// `secs` after the Unix epoch as `YYYY-MM-DDTHH:MM:SSZ` (see `spec_iso8601`).
pub fn iso8601_utc(secs: u64) -> (r: String)
    ensures
        r@ == spec_iso8601(secs as nat),
{
    let days_since_epoch: u64 = secs / 86400;
    let seconds_into_day: u64 = secs % 86400;
    let hours: u64 = seconds_into_day / 3600;
    let minutes: u64 = (seconds_into_day % 3600) / 60;
    let seconds: u64 = seconds_into_day % 60;
    let mut days: u64 = days_since_epoch;
    let mut year: u64 = 1970;
    proof {
        assert(days_since_epoch <= 0xffff_ffff_ffff_ffffu64 / 86400) by (nonlinear_arith)
            requires
                days_since_epoch == secs / 86400,
                secs <= 0xffff_ffff_ffff_ffffu64,
        ;
    }
    loop
        invariant
            days_since_epoch == secs / 86400,
            days_since_epoch <= 0xffff_ffff_ffff_ffffu64 / 86400,
            1970 <= year <= 1970 + (days_since_epoch - days),
            days <= days_since_epoch,
            civil_year(days as int, year as int) == civil_year(days_since_epoch as int, 1970),
        ensures
            days_since_epoch == secs / 86400,
            (year as int, days as int) == civil_year(days_since_epoch as int, 1970),
        decreases days,
    {
        let leap = (year % 4 == 0 && year % 100 != 0) || year % 400 == 0;
        let days_in_year: u64 = if leap { 366 } else { 365 };
        if days < days_in_year {
            break;
        }
        days = days - days_in_year;
        year = year + 1;
    }
    let leap = (year % 4 == 0 && year % 100 != 0) || year % 400 == 0;
    let ghost yd = civil_year(days_since_epoch as int, 1970).1;
    proof {
        assert(days as int == yd);
        lemma_civil_year_bounds(days_since_epoch as int, 1970);
        lemma_days_in_year(year as int);
    }
    let mut month: u64 = 1;
    loop
        invariant
            1 <= month <= 12,
            days < days_from_month(month as int, leap),
            days <= 366,
            civil_month(days as int, month as int, leap) == civil_month(yd, 1, leap),
        ensures
            1 <= month <= 12,
            days <= 366,
            (month as int, days as int) == civil_month(yd, 1, leap),
        decreases 13 - month,
    {
        let length: u64 = if month == 2 {
            if leap { 29 } else { 28 }
        } else if month == 4 || month == 6 || month == 9 || month == 11 {
            30
        } else {
            31
        };
        if days < length {
            break;
        }
        proof {
            assert(days_from_month(month as int, leap) == length + days_from_month(month + 1, leap));
            if month == 12 {
                assert(days_from_month(13, leap) == 0);
            }
        }
        days = days - length;
        month = month + 1;
    }
    let day = days + 1;
    let mut r = padded_decimal(year, 4);
    r.append("-");
    r.append(padded_decimal(month, 2).as_str());
    r.append("-");
    r.append(padded_decimal(day, 2).as_str());
    r.append("T");
    r.append(padded_decimal(hours, 2).as_str());
    r.append(":");
    r.append(padded_decimal(minutes, 2).as_str());
    r.append(":");
    r.append(padded_decimal(seconds, 2).as_str());
    r.append("Z");
    proof {
        assert(r@ =~= spec_iso8601(secs as nat));
    }
    r
}

/// The current UTC time as `YYYY-MM-DDTHH:MM:SSZ`, from the system clock.
pub fn timestamp_iso8601() -> (r: String)
    ensures
        exists|secs: u64| r@ == spec_iso8601(secs as nat),
{
    let secs = unix_time_secs();
    let r = iso8601_utc(secs);
    proof {
        assert(r@ == spec_iso8601(secs as nat));
    }
    r
}

} // verus!
