use git_staircase::collections::SortedMap;
use git_staircase::error::StaircaseError;
use git_staircase::model::{StaircaseLink, StaircaseMetadata, Step};
use git_staircase::staircase::archive::{branch_name, owned_branch_refs};
use git_staircase::staircase::local::{
    branch_move, expected_layout_names, validate_policy_key, with_override, without_override, DiscoveryOverride,
};
use git_staircase::staircase::manipulation::{check_order, join_pair, leading_in_place};
use git_staircase::staircase::materialize::{staging_args, MaterializeOptions};
use git_staircase::staircase::metadata::{canonical_labels, with_label, with_link, without_label};
use git_staircase::staircase::operation::mutation::{push_ref_command, ref_commands};
use git_staircase::staircase::resolution::{managed_selector, step_selector};
use git_staircase::staircase::resolved::{renumbered_steps, sequential_branch_name};
use git_staircase::staircase::unarchive::{check_restorable, restored_branch_name};

fn step(name: &str, cut: &str, branch: Option<&str>) -> Step {
    Step { id: format!("id-{}", name), name: name.to_string(), cut: cut.to_string(), branch: branch.map(String::from) }
}

fn metadata(layout: Option<&str>, base: Option<&str>, steps: Vec<Step>) -> StaircaseMetadata {
    StaircaseMetadata {
        landing_policy: None,
        id: "sc-1".to_string(),
        name: "feat".to_string(),
        target: "main".to_string(),
        steps,
        verification_policy: None,
        primary_branch_layout: layout.map(String::from),
        branch_layout_base: base.map(String::from),
        user_metadata: None,
        lifecycle: None,
    }
}

fn strings(v: &[&str]) -> Vec<String> {
    v.iter().map(|s| s.to_string()).collect()
}

fn message(e: StaircaseError) -> String {
    match e {
        StaircaseError::Other(m) | StaircaseError::InvalidStructure(m) => m,
        e => panic!("unexpected error {:?}", e),
    }
}

fn link(id: &str, url: &str) -> StaircaseLink {
    StaircaseLink {
        id: id.to_string(),
        relationship: "related".to_string(),
        url: url.to_string(),
        label: None,
        description: None,
    }
}

fn ov(id: &str, kind: &str, value: &str) -> DiscoveryOverride {
    DiscoveryOverride { id: id.to_string(), kind: kind.to_string(), value: value.to_string() }
}

#[test]
fn sequential_layout_names_end_with_the_base() {
    assert_eq!(sequential_branch_name(0, 3, "feat"), "feat-1");
    assert_eq!(sequential_branch_name(1, 3, "feat"), "feat-2");
    assert_eq!(sequential_branch_name(2, 3, "feat"), "feat");
    assert_eq!(sequential_branch_name(0, 1, "solo"), "solo");
}

#[test]
fn renumbering_gives_every_step_its_layout_branch() {
    let steps = vec![step("a", "c1", Some("x")), step("b", "c2", None), step("c", "c3", Some("feat"))];
    let renumbered = renumbered_steps(&steps, "feat");
    let branches: Vec<Option<&str>> = renumbered.iter().map(|s| s.branch.as_deref()).collect();
    assert_eq!(branches, vec![Some("feat-1"), Some("feat-2"), Some("feat")]);
    for (old, new) in steps.iter().zip(renumbered.iter()) {
        assert_eq!((&old.id, &old.name, &old.cut), (&new.id, &new.name, &new.cut));
    }
}

#[test]
fn layout_names_follow_the_profile() {
    let steps = vec![step("a", "c1", None), step("b", "c2", None)];
    assert_eq!(expected_layout_names(&metadata(None, None, steps.clone())).unwrap(), None);
    assert_eq!(
        expected_layout_names(&metadata(Some("sequential-v1"), Some("feat"), steps.clone())).unwrap(),
        Some(strings(&["feat-1", "feat"]))
    );
    assert_eq!(
        message(expected_layout_names(&metadata(Some("other"), Some("feat"), steps.clone())).unwrap_err()),
        "unsupported branch layout profile"
    );
    assert_eq!(
        message(expected_layout_names(&metadata(Some("sequential-v1"), None, steps)).unwrap_err()),
        "sequential-v1 layout is missing its base"
    );
}

#[test]
fn restored_branches_use_the_base_the_archived_branch_or_the_name() {
    assert_eq!(restored_branch_name(0, 2, &Some("feat".to_string()), &None, "n"), "feat-1");
    assert_eq!(restored_branch_name(0, 1, &Some("feat".to_string()), &None, "n"), "feat");
    assert_eq!(restored_branch_name(1, 2, &None, &Some("refs/heads/topic".to_string()), "n"), "topic");
    assert_eq!(restored_branch_name(1, 2, &None, &Some("topic".to_string()), "n"), "topic");
    assert_eq!(restored_branch_name(1, 2, &None, &None, "name"), "name-2");
}

#[test]
fn restoring_over_an_existing_branch() {
    assert!(check_restorable("refs/heads/a", &None, "c1", false).is_ok());
    assert!(check_restorable("refs/heads/a", &Some("c1".to_string()), "c1", true).is_ok());
    assert_eq!(
        message(check_restorable("refs/heads/a", &Some("c1".to_string()), "c1", false).unwrap_err()),
        "branch 'refs/heads/a' exists at step cut c1; adoption requires --adopt-existing-branches"
    );
    assert_eq!(
        message(check_restorable("refs/heads/a", &Some("c9".to_string()), "c1", true).unwrap_err()),
        "cannot restore refs/heads/a: branch exists at different OID (c9, expected c1)"
    );
}

#[test]
fn joining_needs_neighbouring_steps() {
    assert_eq!(join_pair(2, 1, 3).unwrap(), (1, 2));
    assert_eq!(join_pair(0, 1, 3).unwrap(), (0, 1));
    assert_eq!(message(join_pair(0, 2, 3).unwrap_err()), "Steps to join must be adjacent: 0 and 2");
    assert_eq!(message(join_pair(1, 1, 3).unwrap_err()), "Steps to join must be adjacent: 1 and 1");
    assert_eq!(message(join_pair(2, 3, 3).unwrap_err()), "Step index 3 out of bounds");
}

#[test]
fn new_orders_are_checked() {
    assert!(check_order(&[2, 0, 1], 3, true).is_ok());
    assert!(check_order(&[1, 0], 3, false).is_ok());
    assert_eq!(message(check_order(&[0, 0, 1], 3, true).unwrap_err()), "Invalid step indices in new order");
    assert_eq!(message(check_order(&[0, 3], 3, false).unwrap_err()), "Invalid step indices in new order");
    assert_eq!(
        message(check_order(&[1, 0], 3, true).unwrap_err()),
        "new order must be a complete permutation of all steps"
    );
    assert_eq!(leading_in_place(&[0, 1, 3, 2]), 2);
    assert_eq!(leading_in_place(&[1, 0]), 0);
    assert_eq!(leading_in_place(&[0, 1, 2]), 3);
}

#[test]
fn selectors_are_read_from_text() {
    assert_eq!(managed_selector("refs/staircases/feat"), "feat");
    assert_eq!(managed_selector("staircases/feat"), "feat");
    assert_eq!(managed_selector("feat"), "feat");
    assert_eq!(step_selector("feat:2"), Some(("feat".to_string(), 2)));
    assert_eq!(step_selector("a:b:10"), Some(("a:b".to_string(), 10)));
    assert_eq!(step_selector("feat:x"), None);
    assert_eq!(step_selector("feat"), None);
}

#[test]
fn staging_arguments_follow_the_options() {
    let mut options = MaterializeOptions::default();
    assert_eq!(staging_args(&options), None);
    options.paths = strings(&["a.rs", "b.rs"]);
    assert_eq!(staging_args(&options), Some(strings(&["add", "--", "a.rs", "b.rs"])));
    options.all_tracked = true;
    assert_eq!(staging_args(&options), Some(strings(&["add", "-u"])));
    options.include_untracked = true;
    assert_eq!(staging_args(&options), Some(strings(&["add", "-A"])));
    options.include_ignored = true;
    assert_eq!(staging_args(&options), Some(strings(&["add", "-f", "-A"])));
}

#[test]
fn stored_labels_are_sorted_and_unique() {
    let labels = canonical_labels(strings(&["b", "a", "c", "a", "b"]));
    assert_eq!(labels, strings(&["a", "b", "c"]));
    assert_eq!(with_label(strings(&["x"]), "x"), strings(&["x"]));
    assert_eq!(with_label(strings(&["x"]), "y"), strings(&["x", "y"]));
    assert_eq!(without_label(&strings(&["x", "y", "x"]), "x"), strings(&["y"]));
    let links = with_link(vec![link("1", "u1"), link("2", "u2")], link("1", "u3"));
    let ids: Vec<(&str, &str)> = links.iter().map(|l| (l.id.as_str(), l.url.as_str())).collect();
    assert_eq!(ids, vec![("2", "u2"), ("1", "u3")]);
}

#[test]
fn policy_keys_live_in_registered_namespaces() {
    assert!(validate_policy_key("landing.strategy").is_ok());
    assert!(validate_policy_key("github.repo").is_ok());
    assert_eq!(
        message(validate_policy_key("color").unwrap_err()),
        "policy key 'color' is not in a registered namespace"
    );
}

#[test]
fn discovery_overrides_are_kept_once() {
    let overrides = vec![ov("o1", "exclude-branch", "wip")];
    let same = with_override(overrides.clone(), "exclude-branch", "wip", "o2".to_string());
    assert_eq!(same, overrides);
    let more = with_override(overrides.clone(), "exclude-branch", "tmp", "o2".to_string());
    assert_eq!(more, vec![ov("o1", "exclude-branch", "wip"), ov("o2", "exclude-branch", "tmp")]);
    assert_eq!(without_override(&more, "o1"), Some(vec![ov("o2", "exclude-branch", "tmp")]));
    assert_eq!(without_override(&more, "o9"), None);
}

#[test]
fn branch_moves_and_collisions() {
    let c1 = "c1".to_string();
    let c2 = "c2".to_string();
    let wt = "/w".to_string();
    assert_eq!(
        branch_move("refs/heads/a", &Some(c1.clone()), Some(&c1), Some(&c2), None).unwrap(),
        Some((Some(c1.clone()), Some(c2.clone())))
    );
    assert_eq!(branch_move("refs/heads/a", &Some(c2.clone()), Some(&c1), Some(&c2), None).unwrap(), None);
    assert!(matches!(
        branch_move("refs/heads/a", &Some("c9".to_string()), Some(&c1), Some(&c2), None),
        Err(StaircaseError::RefCollision { .. })
    ));
    assert!(matches!(
        branch_move("refs/heads/a", &Some(c1.clone()), None, Some(&c2), None),
        Err(StaircaseError::RefCollision { .. })
    ));
    match branch_move("refs/heads/a", &Some(c1.clone()), Some(&c1), Some(&c2), Some(&wt)) {
        Err(StaircaseError::UnsupportedTopology { operation, reason }) => {
            assert_eq!(operation, "branch-layout");
            assert_eq!(reason, "branch refs/heads/a is checked out in worktree /w; move or detach that worktree first");
        },
        other => panic!("unexpected result {:?}", other),
    }
    assert_eq!(branch_move("refs/heads/a", &None, None, Some(&c2), None).unwrap(), Some((None, Some(c2))));
}

#[test]
fn ref_commands_move_each_planned_ref() {
    let mut commands = Vec::new();
    push_ref_command(&mut commands, "refs/x", None, Some("n1"));
    push_ref_command(&mut commands, "refs/y", Some("o1"), Some("n2"));
    push_ref_command(&mut commands, "refs/z", Some("o2"), None);
    push_ref_command(&mut commands, "refs/w", None, None);
    assert_eq!(commands, strings(&["create refs/x n1", "update refs/y n2 o1", "delete refs/z o2"]));

    let mut expected = SortedMap::new();
    expected.insert("refs/b".to_string(), Some("o1".to_string()));
    expected.insert("refs/a".to_string(), None);
    let mut planned = SortedMap::new();
    planned.insert("refs/b".to_string(), None);
    planned.insert("refs/a".to_string(), Some("n1".to_string()));
    assert_eq!(ref_commands(&expected, &planned), strings(&["create refs/a n1", "delete refs/b o1"]));
}

#[test]
fn the_undo_of_a_ref_command_is_the_reverse_command() {
    let mut forward = Vec::new();
    push_ref_command(&mut forward, "refs/x", Some("a"), Some("b"));
    let mut back = Vec::new();
    push_ref_command(&mut back, "refs/x", Some("b"), Some("a"));
    assert_eq!(forward, strings(&["update refs/x b a"]));
    assert_eq!(back, strings(&["update refs/x a b"]));
}

#[test]
fn owned_branches_and_their_short_names() {
    let steps = vec![step("a", "c1", Some("b1")), step("b", "c2", None), step("c", "c3", Some("refs/heads/b2"))];
    assert_eq!(owned_branch_refs(&steps), strings(&["refs/heads/b1", "refs/heads/b2"]));
    assert_eq!(branch_name("refs/heads/topic/x"), "topic/x");
    assert_eq!(branch_name("topic"), "topic");
}
