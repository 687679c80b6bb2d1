use git_staircase::json::JsonValue;
use git_staircase::json_text::{quote_text, render_json};
use git_staircase::monorepo::registry::same_path_text;
use git_staircase::staircase::persistence::structure::parse_structure_value;
use git_staircase::staircase::persistence::{delete_commands, staircase_refs};

fn s(t: &str) -> JsonValue {
    JsonValue::String(t.to_string())
}

fn obj(members: Vec<(&str, JsonValue)>) -> JsonValue {
    JsonValue::Object(members.into_iter().map(|(k, v)| (k.to_string(), v)).collect())
}

fn sample_structure() -> JsonValue {
    obj(vec![
        ("schema", s("git-staircase/structure")),
        ("version", JsonValue::Number("1".to_string())),
        ("kind", s("linear")),
        ("object_format", s("sha1")),
        ("lineage_id", s("L1")),
        (
            "integration_context",
            obj(vec![
                ("anchors", JsonValue::Array(vec![obj(vec![("algorithm", s("sha1")), ("hex", s("aaa"))])])),
                ("symbolic_targets", JsonValue::Array(vec![s("refs/heads/main")])),
            ]),
        ),
        (
            "steps",
            JsonValue::Array(vec![obj(vec![
                ("id", s("s1")),
                ("name", s("one")),
                ("cut_oid", obj(vec![("algorithm", s("sha1")), ("hex", s("bbb"))])),
                ("materializing_refs", JsonValue::Array(vec![s("refs/heads/feat")])),
            ])]),
        ),
    ])
}

#[test]
fn structure_value_reads_target_steps_and_defaults() {
    let (m, ext) = parse_structure_value(&sample_structure()).unwrap();
    assert_eq!(m.id, "L1");
    assert_eq!(m.name, "");
    assert_eq!(m.target, "refs/heads/main");
    assert_eq!(m.steps.len(), 1);
    assert_eq!(m.steps[0].id, "s1");
    assert_eq!(m.steps[0].name, "one");
    assert_eq!(m.steps[0].cut, "bbb");
    assert_eq!(m.steps[0].branch.as_deref(), Some("feat"));
    assert!(m.primary_branch_layout.is_none());
    assert_eq!(ext.len(), 4);
    assert_eq!(ext.get("git-staircase.internal.integration-anchor"), Some(&s("aaa")));
    assert_eq!(ext.get("git-staircase.policies"), Some(&JsonValue::Object(vec![])));
    assert_eq!(ext.get("git-staircase.discovery-overrides"), Some(&JsonValue::Array(vec![])));
    assert_eq!(ext.get("git-staircase.internal.structural-state"), Some(&obj(vec![("kind", s("clean"))])));
}

#[test]
fn structure_value_without_symbolic_target_uses_anchor() {
    let mut v = sample_structure();
    if let JsonValue::Object(members) = &mut v {
        for (k, val) in members.iter_mut() {
            if k == "integration_context" {
                *val = obj(vec![("anchors", JsonValue::Array(vec![obj(vec![("hex", s("aaa"))])]))]);
            }
        }
    }
    let (m, _) = parse_structure_value(&v).unwrap();
    assert_eq!(m.target, "aaa");
}

#[test]
fn structure_value_without_anchor_is_refused() {
    let mut v = sample_structure();
    if let JsonValue::Object(members) = &mut v {
        members.retain(|(k, _)| k != "integration_context");
    }
    assert!(parse_structure_value(&v).is_err());
}

#[test]
fn json_text_is_compact_and_keeps_member_order() {
    let v = obj(vec![
        ("b", JsonValue::Number("1".to_string())),
        ("a", JsonValue::Array(vec![JsonValue::Null, JsonValue::Bool(true), s("x")])),
    ]);
    assert_eq!(render_json(&v), r#"{"b":1,"a":[null,true,"x"]}"#);
    assert_eq!(render_json(&JsonValue::Array(vec![])), "[]");
    assert_eq!(render_json(&JsonValue::Object(vec![])), "{}");
}

#[test]
fn json_text_escapes_strings() {
    assert_eq!(quote_text("a\"b\\c\nd\te\u{1}"), r#""a\"b\\c\nd\te\u0001""#);
    assert_eq!(quote_text("\u{8}\u{c}\r\u{1f}é"), "\"\\b\\f\\r\\u001fé\"");
}

#[test]
fn deleting_a_staircase_touches_its_four_refs() {
    let refs = staircase_refs("L1", "feat");
    assert_eq!(
        refs,
        vec![
            "refs/staircase-state/L1/record".to_string(),
            "refs/staircase-archive/L1/record".to_string(),
            "refs/staircases/L1/verification".to_string(),
            "refs/staircases/feat".to_string(),
        ]
    );
    assert_eq!(staircase_refs("L1", "").len(), 3);
    let current = vec![Some("o1".to_string()), None, None, Some("o4".to_string())];
    assert_eq!(
        delete_commands(&refs, &current),
        vec![
            "delete refs/staircase-state/L1/record o1".to_string(),
            "delete refs/staircases/feat o4".to_string(),
        ]
    );
}

#[test]
fn registry_paths_compare_by_components() {
    assert!(same_path_text("/a/b/", "/a/b"));
    assert!(same_path_text("/a//b", "/a/./b"));
    assert!(!same_path_text("a/b", "/a/b"));
    assert!(!same_path_text("./a", "a"));
    assert!(!same_path_text("/a/b", "/a/c"));
}
