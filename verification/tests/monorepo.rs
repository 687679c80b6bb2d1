use git_staircase::monorepo::registry::{
    add_worktree_entry, components_of, find_shadow_worktree_for_path, remove_worktree_entry,
    starts_with_path, ActiveRepoEntry, MonorepoWorktreeEntry, MonorepoWorktreeRegistry,
};
use git_staircase::monorepo::shadow::{
    ancestors_of, bazelrc_content, is_excluded, iso8601_utc, mirror_action, new_shadow_worktree_id,
    prune_monorepo_worktrees, relative_within, shadow_worktree_id, worktree_add_args, MirrorAction,
};

fn entry(id: &str, path: &str) -> MonorepoWorktreeEntry {
    MonorepoWorktreeEntry {
        id: id.to_string(),
        path: path.to_string(),
        primary_root: "/src/mono".to_string(),
        active_repos: vec![ActiveRepoEntry {
            relative_path: "libs/core".to_string(),
            worktree_path: format!("{}/libs/core", path),
        }],
        created_at: "2024-01-01T00:00:00Z".to_string(),
    }
}

fn strings(v: &[&str]) -> Vec<String> {
    v.iter().map(|s| s.to_string()).collect()
}

#[test]
fn shadow_ids_come_from_the_name_or_a_uuid() {
    assert_eq!(shadow_worktree_id(Some("feature"), "0123456789abcdef"), "shadow-feature");
    assert_eq!(shadow_worktree_id(None, "0123456789abcdef"), "shadow-01234567");
    assert_eq!(new_shadow_worktree_id(Some("x")), "shadow-x");
    let generated = new_shadow_worktree_id(None);
    assert_eq!(generated.len(), 15);
    assert!(generated.starts_with("shadow-"));
}

#[test]
fn worktree_add_arguments_cover_each_checkout_kind() {
    assert_eq!(
        worktree_add_args(Some("feat"), Some("main"), None, "/w/a", false),
        strings(&["worktree", "add", "-b", "feat", "/w/a", "main"])
    );
    assert_eq!(
        worktree_add_args(Some("feat"), None, None, "/w/a", true),
        strings(&["worktree", "add", "/w/a", "feat"])
    );
    assert_eq!(
        worktree_add_args(Some("feat"), None, None, "/w/a", false),
        strings(&["worktree", "add", "-b", "feat", "/w/a"])
    );
    assert_eq!(
        worktree_add_args(None, None, Some("abc123"), "/w/a", false),
        strings(&["worktree", "add", "--detach", "/w/a", "abc123"])
    );
    assert_eq!(
        worktree_add_args(None, None, None, "/w/a", false),
        strings(&["worktree", "add", "--detach", "/w/a", "HEAD"])
    );
}

#[test]
fn metadata_and_bazel_outputs_are_never_mirrored() {
    for name in [".git", ".repo", ".venv", "node_modules", ".bazelrc", "bazel-out", "bazel-bin"] {
        assert!(is_excluded(name), "{}", name);
    }
    for name in ["src", "bazel", ".github", "WORKSPACE"] {
        assert!(!is_excluded(name), "{}", name);
    }
}

#[test]
fn mirror_actions_skip_descend_or_link() {
    let active = strings(&["libs/core", "apps/web"]);
    assert_eq!(mirror_action(".git", ".git", &active), MirrorAction::Skip);
    assert_eq!(mirror_action("core", "libs/core", &active), MirrorAction::Skip);
    assert_eq!(mirror_action("core", "libs/core/", &active), MirrorAction::Skip);
    assert_eq!(mirror_action("libs", "libs", &active), MirrorAction::Descend);
    assert_eq!(mirror_action("apps", "apps", &active), MirrorAction::Descend);
    assert_eq!(mirror_action("docs", "docs", &active), MirrorAction::Link);
    assert_eq!(mirror_action("lib", "lib", &active), MirrorAction::Link);
}

#[test]
fn paths_compare_by_components() {
    assert_eq!(components_of("/a//b/./c/"), strings(&["/", "a", "b", "c"]));
    assert_eq!(components_of("a/b"), strings(&["a", "b"]));
    assert!(starts_with_path("/src/mono/libs", "/src/mono"));
    assert!(starts_with_path("/src/mono", "/src/mono/"));
    assert!(!starts_with_path("/src/monorepo", "/src/mono"));
    assert!(!starts_with_path("src/mono", "/src/mono"));
}

#[test]
fn relative_paths_below_a_root() {
    assert_eq!(relative_within("/src/mono/libs/core", "/src/mono"), "libs/core");
    assert_eq!(relative_within("/src/mono", "/src/mono"), "");
    assert_eq!(relative_within("/elsewhere/x", "/src/mono"), "");
}

#[test]
fn ancestors_run_from_the_path_up_to_the_root() {
    assert_eq!(ancestors_of("/a/b/c"), strings(&["/a/b/c", "/a/b", "/a", "/"]));
    assert_eq!(ancestors_of("a/b"), strings(&["a/b", "a", ""]));
    assert_eq!(ancestors_of("/"), strings(&["/"]));
}

#[test]
fn adding_an_entry_replaces_one_with_the_same_id() {
    let mut registry = MonorepoWorktreeRegistry::default();
    add_worktree_entry(&mut registry, entry("shadow-a", "/w/a"));
    add_worktree_entry(&mut registry, entry("shadow-b", "/w/b"));
    add_worktree_entry(&mut registry, entry("shadow-a", "/w/a2"));
    let ids: Vec<&str> = registry.worktrees.iter().map(|e| e.id.as_str()).collect();
    assert_eq!(ids, vec!["shadow-b", "shadow-a"]);
    assert_eq!(registry.worktrees[1].path, "/w/a2");
}

#[test]
fn removing_an_entry_by_id_or_path() {
    let mut registry = MonorepoWorktreeRegistry::default();
    add_worktree_entry(&mut registry, entry("shadow-a", "/w/a"));
    add_worktree_entry(&mut registry, entry("shadow-b", "/w/b"));
    let removed = remove_worktree_entry(&mut registry, "shadow-b", None).unwrap();
    assert_eq!(removed.path, "/w/b");
    assert_eq!(registry.worktrees.len(), 1);
    let removed = remove_worktree_entry(&mut registry, "./a", Some("/w/a")).unwrap();
    assert_eq!(removed.id, "shadow-a");
    assert!(registry.worktrees.is_empty());
    assert!(remove_worktree_entry(&mut registry, "shadow-a", None).is_none());
}

#[test]
fn the_shadow_worktree_holding_a_path() {
    let mut registry = MonorepoWorktreeRegistry::default();
    add_worktree_entry(&mut registry, entry("shadow-a", "/w/a"));
    add_worktree_entry(&mut registry, entry("shadow-b", "/w/b"));
    let paths = strings(&["/w/a", "/w/b"]);
    let found = find_shadow_worktree_for_path(registry.clone(), "/w/b/libs/core", &paths).unwrap();
    assert_eq!(found.id, "shadow-b");
    assert!(find_shadow_worktree_for_path(registry, "/w/c", &paths).is_none());
}

#[test]
fn pruning_picks_stale_entries_or_all_when_forced() {
    let mut registry = MonorepoWorktreeRegistry::default();
    add_worktree_entry(&mut registry, entry("shadow-a", "/w/a"));
    add_worktree_entry(&mut registry, entry("shadow-b", "/w/b"));
    add_worktree_entry(&mut registry, entry("shadow-c", "/w/c"));
    let primary = vec![true, false, true];
    let shadow = vec![true, true, false];
    assert_eq!(prune_monorepo_worktrees(&registry, &primary, &shadow, false), strings(&["shadow-b", "shadow-c"]));
    let all_there = vec![true, true, true];
    assert!(prune_monorepo_worktrees(&registry, &all_there, &all_there, false).is_empty());
    assert_eq!(
        prune_monorepo_worktrees(&registry, &all_there, &all_there, true),
        strings(&["shadow-a", "shadow-b", "shadow-c"])
    );
}

#[test]
fn bazelrc_imports_primary_settings_when_present() {
    assert_eq!(
        bazelrc_content(Some("/src/mono/.bazelrc"), "/cache/out", "/cache/repo"),
        "# Import primary workspace settings\ntry-import /src/mono/.bazelrc\n\n\
         # Isolate output base\nstartup --output_base=/cache/out\n\n\
         # Share repository cache\ncommon --repository_cache=/cache/repo\n"
    );
    assert_eq!(
        bazelrc_content(None, "/o", "/r"),
        "# Isolate output base\nstartup --output_base=/o\n\n# Share repository cache\ncommon --repository_cache=/r\n"
    );
}

#[test]
fn timestamps_are_utc_iso8601() {
    assert_eq!(iso8601_utc(0), "1970-01-01T00:00:00Z");
    assert_eq!(iso8601_utc(951782400), "2000-02-29T00:00:00Z");
    assert_eq!(iso8601_utc(1704067199), "2023-12-31T23:59:59Z");
    assert_eq!(iso8601_utc(1709210096), "2024-02-29T12:34:56Z");
}
