use git_staircase::collections::StringMap;
use git_staircase::json::JsonValue;
use git_staircase::model::{BranchInfo, IdentityKind, LandingPolicy, LifecycleState, VerificationPolicy};
use git_staircase::staircase::discovery::extract_all_linear_paths;
use git_staircase::staircase::local::{decode_overrides, encode_overrides, DiscoveryOverride};
use git_staircase::staircase::list::canonical_staircases;
use git_staircase::staircase::persistence::record::{record_ref_commands, step_ref_commands, OldRecord};
use git_staircase::staircase::resolved::ResolvedStaircase;
use git_staircase::staircase::persistence::structure::{
    landing_policy_json, landing_policy_of, verification_policy_json, verification_policy_of,
};
use git_staircase::staircase::persistence::verification::{colons_to_slashes, verification_ref};

fn strings(v: &[&str]) -> Vec<String> {
    v.iter().map(|s| s.to_string()).collect()
}

fn old_record(name: &str, state: LifecycleState) -> Option<OldRecord> {
    Some(OldRecord {
        id: "sc-1".to_string(),
        name: name.to_string(),
        state,
        record_oid: "r0".to_string(),
        steps: vec![],
    })
}

fn branch(name: &str, oid: &str) -> BranchInfo {
    BranchInfo { refname: format!("refs/heads/{}", name), oid: oid.to_string(), upstream: None }
}

#[test]
fn stored_overrides_read_back() {
    let overrides = vec![
        DiscoveryOverride { id: "o1".to_string(), kind: "exclude-branch".to_string(), value: "wip".to_string() },
        DiscoveryOverride { id: "o2".to_string(), kind: "include-branch".to_string(), value: "x".to_string() },
    ];
    let stored = encode_overrides(&overrides);
    assert_eq!(decode_overrides(&stored).unwrap(), overrides);
    assert!(decode_overrides(&JsonValue::Null).is_err());
    assert!(decode_overrides(&JsonValue::Array(vec![JsonValue::Null])).is_err());
    assert_eq!(decode_overrides(&JsonValue::Array(vec![])).unwrap(), vec![]);
}

#[test]
fn stored_policies_read_back() {
    for p in [LandingPolicy::AggregateOnly, LandingPolicy::Stepwise, LandingPolicy::Either] {
        assert_eq!(landing_policy_of(&landing_policy_json(p)), Some(p));
    }
    assert_eq!(landing_policy_json(LandingPolicy::AggregateOnly), JsonValue::String("aggregate-only".to_string()));
    let policy = VerificationPolicy {
        build_command: Some("make".to_string()),
        test_command: None,
        verify_each_prefix: true,
    };
    let stored = verification_policy_json(&policy);
    assert_eq!(verification_policy_of(&stored), Some(policy));
    assert_eq!(verification_policy_of(&JsonValue::Object(vec![])), None);
    let no_flag = JsonValue::Object(vec![("build_command".to_string(), JsonValue::Null)]);
    assert_eq!(verification_policy_of(&no_flag), None);
    let bad_command = JsonValue::Object(vec![
        ("verify_each_prefix".to_string(), JsonValue::Bool(false)),
        ("test_command".to_string(), JsonValue::Bool(true)),
    ]);
    assert_eq!(verification_policy_of(&bad_command), None);
}

#[test]
fn publication_commands_move_record_and_public_refs() {
    assert_eq!(
        record_ref_commands(&None, "sc-1", "feat", LifecycleState::Active, None, "r1"),
        strings(&["create refs/staircase-state/sc-1/record r1", "create refs/staircases/feat r1"])
    );
    assert_eq!(
        record_ref_commands(&old_record("feat", LifecycleState::Active), "sc-1", "feat", LifecycleState::Active, Some("r0"), "r1"),
        strings(&["update refs/staircase-state/sc-1/record r1 r0", "update refs/staircases/feat r1 r0"])
    );
    assert_eq!(
        record_ref_commands(&old_record("feat", LifecycleState::Active), "sc-1", "feat", LifecycleState::Archived, Some("r0"), "r1"),
        strings(&[
            "delete refs/staircase-state/sc-1/record r0",
            "create refs/staircase-archive/sc-1/record r1",
            "delete refs/staircases/feat r0",
        ])
    );
    assert_eq!(
        record_ref_commands(&old_record("old", LifecycleState::Active), "sc-1", "new", LifecycleState::Active, Some("r0"), "r1"),
        strings(&[
            "update refs/staircase-state/sc-1/record r1 r0",
            "delete refs/staircases/old r0",
            "create refs/staircases/new r1",
        ])
    );
    assert_eq!(
        record_ref_commands(&None, "sc-1", "", LifecycleState::Active, None, "r1"),
        strings(&["create refs/staircase-state/sc-1/record r1"])
    );
}

#[test]
fn linear_paths_follow_every_child() {
    let mut children: StringMap<Vec<String>> = StringMap::new();
    children.insert("refs/heads/a".to_string(), strings(&["refs/heads/b", "refs/heads/c"]));
    children.insert("refs/heads/b".to_string(), strings(&["refs/heads/d"]));
    let active = vec![branch("a", "1"), branch("b", "2"), branch("c", "3"), branch("d", "4")];
    let paths = extract_all_linear_paths("refs/heads/a", &children, &active);
    let names: Vec<Vec<(&str, &str)>> =
        paths.iter().map(|p| p.iter().map(|s| (s.name.as_str(), s.cut.as_str())).collect()).collect();
    assert_eq!(names, vec![vec![("a", "1"), ("b", "2"), ("d", "4")], vec![("a", "1"), ("c", "3")]]);
    assert!(paths.iter().flatten().all(|s| s.id.is_empty() && s.branch.as_deref() == Some(s.name.as_str())));
    let alone = extract_all_linear_paths("refs/heads/z", &children, &active);
    assert_eq!(alone.len(), 1);
    assert_eq!(alone[0][0].name, "z");
    assert_eq!(alone[0][0].cut, "");
}

#[test]
fn a_cycle_in_the_child_lists_ends() {
    let mut children: StringMap<Vec<String>> = StringMap::new();
    children.insert("refs/heads/a".to_string(), strings(&["refs/heads/b"]));
    children.insert("refs/heads/b".to_string(), strings(&["refs/heads/a"]));
    let paths = extract_all_linear_paths("refs/heads/a", &children, &[]);
    assert_eq!(paths.len(), 1);
    assert_eq!(paths[0].len(), 4);
}

#[test]
fn verification_refs_by_identity_kind() {
    assert_eq!(colons_to_slashes("a:b:c"), "a/b/c");
    assert_eq!(colons_to_slashes("plain"), "plain");
    assert_eq!(verification_ref("id1", IdentityKind::Lineage).unwrap(), "refs/staircases/id1/verification");
    assert_eq!(
        verification_ref("sha1:abc", IdentityKind::Revision).unwrap(),
        "refs/staircases/by-revision/sha1/abc/verification"
    );
    assert!(verification_ref("x", IdentityKind::Body).is_err());
}

fn metadata(id: &str, name: &str) -> git_staircase::model::StaircaseMetadata {
    git_staircase::model::StaircaseMetadata {
        landing_policy: None,
        id: id.to_string(),
        name: name.to_string(),
        target: "main".to_string(),
        steps: vec![],
        verification_policy: None,
        primary_branch_layout: None,
        branch_layout_base: None,
        user_metadata: None,
        lifecycle: None,
    }
}

#[test]
fn one_staircase_per_key_and_recorded_ones_win() {
    let items = vec![
        ("k2".to_string(), ResolvedStaircase::Implicit(metadata("i1", "found"))),
        ("k1".to_string(), ResolvedStaircase::Managed(metadata("m1", "first"))),
        ("k1".to_string(), ResolvedStaircase::Managed(metadata("m2", "second"))),
        ("k2".to_string(), ResolvedStaircase::Managed(metadata("m3", "recorded"))),
        ("k2".to_string(), ResolvedStaircase::Implicit(metadata("i2", "later"))),
    ];
    let canonical = canonical_staircases(items);
    let kept: Vec<(String, String)> = canonical
        .into_entries()
        .into_iter()
        .map(|(k, rs)| match rs {
            ResolvedStaircase::Managed(m) | ResolvedStaircase::Implicit(m) => (k, m.id),
            ResolvedStaircase::ImplicitFamily(f) => (k, f.id),
        })
        .collect();
    assert_eq!(kept, vec![("k1".to_string(), "m1".to_string()), ("k2".to_string(), "m3".to_string())]);
}

#[test]
fn step_refs_follow_the_published_steps() {
    let commands = step_ref_commands(
        "sc-1",
        &strings(&["a", "b"]),
        false,
        &vec![None, Some("old-b".to_string())],
        &vec![("a".to_string(), "cut-a".to_string()), ("c".to_string(), "cut-c".to_string())],
        false,
        &vec![Some("prev-a".to_string()), None],
    );
    assert_eq!(
        commands,
        strings(&[
            "delete refs/staircase-state/sc-1/steps/b old-b",
            "update refs/staircase-state/sc-1/steps/a cut-a prev-a",
            "create refs/staircase-state/sc-1/steps/c cut-c",
        ])
    );
    let archived = step_ref_commands(
        "sc-1",
        &strings(&["a"]),
        false,
        &vec![Some("cut-a".to_string())],
        &vec![("a".to_string(), "cut-a".to_string())],
        true,
        &vec![None],
    );
    assert_eq!(
        archived,
        strings(&["delete refs/staircase-state/sc-1/steps/a cut-a", "create refs/staircase-archive/sc-1/steps/a cut-a"])
    );
}
