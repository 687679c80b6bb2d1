use git_staircase::collections::StringMap;
use git_staircase::model::BranchInfo;
use git_staircase::staircase::graph::{collect_family, find_roots};

#[test]
fn test_find_roots() {
    let active_branches = vec![
        BranchInfo { refname: "b1".to_string(), oid: "1".to_string(), upstream: None },
        BranchInfo { refname: "b2".to_string(), oid: "2".to_string(), upstream: None },
    ];
    let mut parents = StringMap::new();
    parents.insert("b2".to_string(), "b1".to_string());
    let roots = find_roots(&active_branches, &parents);
    assert_eq!(roots, vec!["b1".to_string()]);
}

#[test]
fn test_collect_family() {
    let mut children = StringMap::new();
    children.insert("b1".to_string(), vec!["b2".to_string(), "b3".to_string()]);
    children.insert("b2".to_string(), vec!["b4".to_string()]);
    let family = collect_family("b1", &children);
    assert!(family.contains(&"b1".to_string()));
    assert!(family.contains(&"b2".to_string()));
    assert!(family.contains(&"b3".to_string()));
    assert!(family.contains(&"b4".to_string()));
    assert_eq!(family.len(), 4);
}

#[test]
fn family_of_a_leaf_is_itself() {
    let children: StringMap<Vec<String>> = StringMap::new();
    assert_eq!(collect_family("solo", &children), vec!["solo".to_string()]);
}

#[test]
fn every_branch_without_parent_is_a_root() {
    let active_branches = vec![
        BranchInfo { refname: "a".to_string(), oid: "1".to_string(), upstream: None },
        BranchInfo { refname: "b".to_string(), oid: "2".to_string(), upstream: None },
        BranchInfo { refname: "c".to_string(), oid: "3".to_string(), upstream: None },
    ];
    let mut parents = StringMap::new();
    parents.insert("c".to_string(), "a".to_string());
    assert_eq!(find_roots(&active_branches, &parents), vec!["a".to_string(), "b".to_string()]);
}
