use git_staircase::model::Step;
use git_staircase::staircase::utils::{check_sequential_layout, common_prefix};

fn step(name: &str, branch: Option<&str>) -> Step {
    Step { id: String::new(), name: name.to_string(), cut: String::new(), branch: branch.map(|b| b.to_string()) }
}

#[test]
fn test_common_prefix() {
    assert_eq!(common_prefix(&["feat/a", "feat/b"]).as_deref(), Some("feat"));
    assert_eq!(common_prefix(&["step-1", "step-2", "step-3"]).as_deref(), Some("step"));
    assert_eq!(common_prefix(&["feature-x", "feature-y"]).as_deref(), Some("feature"));
    assert_eq!(common_prefix(&["alice", "bob"]), None);
    assert_eq!(common_prefix(&["/a", "/b"]), None);
    assert_eq!(common_prefix(&[]), None);
}

#[test]
fn test_check_sequential_layout() {
    assert_eq!(check_sequential_layout(&[step("s1", Some("feat"))]).as_deref(), Some("feat"));
    assert_eq!(
        check_sequential_layout(&[step("s1", Some("feat-1")), step("s2", Some("feat"))]).as_deref(),
        Some("feat")
    );
    assert_eq!(
        check_sequential_layout(&[step("s1", Some("feat-1")), step("s2", Some("feat-2")), step("s3", Some("feat"))])
            .as_deref(),
        Some("feat")
    );
    assert_eq!(
        check_sequential_layout(&[step("s1", Some("feat-1")), step("s2", Some("feat-3")), step("s3", Some("feat"))]),
        None
    );
    assert_eq!(check_sequential_layout(&[step("s1", Some("feat-1")), step("s2", Some("feat-2"))]), None);
    assert_eq!(check_sequential_layout(&[step("s1", Some("feat-1")), step("s2", None)]), None);
}
