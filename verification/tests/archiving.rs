use git_staircase::model::{
    LifecycleEvent, LifecycleState, StaircaseLifecycle, StaircaseMetadata, Step, BranchInfo,
};
use git_staircase::staircase::archive::{archive_manifest, archived_lifecycle};
use git_staircase::staircase::inference::upstream_of;
use git_staircase::staircase::materialize::{commit_tree_args, materialize_message};
use git_staircase::staircase::unarchive::unarchive_plan;

fn step(id: &str, name: &str, cut: &str, branch: Option<&str>) -> Step {
    Step { id: id.to_string(), name: name.to_string(), cut: cut.to_string(), branch: branch.map(String::from) }
}

fn meta() -> StaircaseMetadata {
    StaircaseMetadata {
        landing_policy: None,
        id: "sc-9".to_string(),
        name: "feat".to_string(),
        target: "main".to_string(),
        steps: vec![step("s1", "one", "c1", Some("feat-1")), step("", "two", "c2", None)],
        verification_policy: None,
        primary_branch_layout: Some("sequential-v1".to_string()),
        branch_layout_base: Some("feat".to_string()),
        user_metadata: None,
        lifecycle: None,
    }
}

#[test]
fn archive_manifest_keys_cuts_and_retention_refs_by_step() {
    let m = archive_manifest(&meta(), "rec0", "evt-archive-x", "2024-01-01T00:00:00Z", &Some("done".to_string()), vec![], vec![]);
    assert_eq!(m.archive_event_id, "evt-archive-x");
    assert_eq!(m.lineage_id, "sc-9");
    assert_eq!(m.previous_record_oid, "rec0");
    assert_eq!(m.canonical_name, "feat");
    assert_eq!(m.reason.as_deref(), Some("done"));
    assert_eq!(m.branch_layout_profile.as_deref(), Some("sequential-v1"));
    assert!(m.name_reservation);
    assert_eq!(m.expected_source_oids.get("s1").map(|s| s.as_str()), Some("c1"));
    assert_eq!(m.expected_source_oids.get("two").map(|s| s.as_str()), Some("c2"));
    assert_eq!(
        m.archive_retention_refs.get("s1").map(|s| s.as_str()),
        Some("refs/staircase-archive/sc-9/steps/s1")
    );
    assert_eq!(
        m.archive_retention_refs.get("two").map(|s| s.as_str()),
        Some("refs/staircase-archive/sc-9/steps/two")
    );
    assert!(m.worktree_attachments.is_empty());
}

#[test]
fn archived_lifecycle_appends_the_archived_event() {
    let mut old = StaircaseLifecycle::default();
    old.events.push(LifecycleEvent {
        event_id: "evt-0".to_string(),
        kind: "created".to_string(),
        timestamp: "t0".to_string(),
        actor: None,
        record_oid_before: None,
        record_oid_after: None,
        canonical_name: None,
        reason: None,
        details: "null".to_string(),
    });
    let l = archived_lifecycle(&old, "evt-1", "t1", "rec0", "feat", &None);
    assert_eq!(l.state, LifecycleState::Archived);
    assert!(l.name_reserved);
    assert_eq!(l.events.len(), 2);
    assert_eq!(l.events[0].event_id, "evt-0");
    let e = &l.events[1];
    assert_eq!(e.event_id, "evt-1");
    assert_eq!(e.kind, "archived");
    assert_eq!(e.record_oid_before.as_deref(), Some("rec0"));
    assert_eq!(e.canonical_name.as_deref(), Some("feat"));
    assert_eq!(e.details, "null");
}

#[test]
fn unarchive_plan_moves_record_steps_and_branches() {
    let m = meta();
    let dropped = vec![("refs/staircase-archive/sc-9/owned/owned-1".to_string(), "c1".to_string())];
    let branches = vec![("feat-1".to_string(), None, "c1".to_string())];
    let p = unarchive_plan("sc-9", "rec0", "rec1", "feat", &m.steps, &dropped, &branches);
    assert_eq!(p.kind, "unarchive");
    assert_eq!(p.expected_record_revision.as_deref(), Some("rec0"));
    let moves: Vec<(String, Option<String>, Option<String>)> =
        p.refs.iter().map(|r| (r.reference.clone(), r.expected.clone(), r.planned.clone())).collect();
    let s = |x: &str| Some(x.to_string());
    assert_eq!(
        moves,
        vec![
            ("refs/staircase-archive/sc-9/record".to_string(), s("rec0"), None),
            ("refs/staircase-state/sc-9/record".to_string(), None, s("rec1")),
            ("refs/staircases/feat".to_string(), None, s("rec1")),
            ("refs/staircase-archive/sc-9/steps/s1".to_string(), s("c1"), None),
            ("refs/staircase-state/sc-9/steps/s1".to_string(), None, s("c1")),
            ("refs/staircase-archive/sc-9/steps/two".to_string(), s("c2"), None),
            ("refs/staircase-state/sc-9/steps/two".to_string(), None, s("c2")),
            ("refs/staircase-archive/sc-9/owned/owned-1".to_string(), s("c1"), None),
            ("refs/heads/feat-1".to_string(), None, s("c1")),
        ]
    );
}

#[test]
fn commit_tree_args_commit_the_tree_on_the_basis() {
    assert_eq!(commit_tree_args("t1", "b1", "msg"), vec!["commit-tree", "t1", "-p", "b1", "-m", "msg"]);
}

#[test]
fn materialize_message_defaults_to_the_step() {
    assert_eq!(materialize_message(&None, "one"), "Materialize draft for step 'one'");
    assert_eq!(materialize_message(&Some("given".to_string()), "one"), "given");
}

#[test]
fn upstream_of_the_checked_out_branch() {
    let branches = vec![
        BranchInfo { refname: "a".to_string(), oid: "1".to_string(), upstream: None },
        BranchInfo { refname: "feat".to_string(), oid: "2".to_string(), upstream: Some("origin/main".to_string()) },
        BranchInfo { refname: "feat".to_string(), oid: "3".to_string(), upstream: Some("other".to_string()) },
    ];
    assert_eq!(upstream_of(&branches, "feat").as_deref(), Some("origin/main"));
    assert_eq!(upstream_of(&branches, "a"), None);
    assert_eq!(upstream_of(&branches, "zzz"), None);
}
