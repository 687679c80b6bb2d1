use git_staircase::hex::{hex_decode, hex_encode};
use git_staircase::error::{ExitClass, StaircaseError};
use git_staircase::json::{canonicalize, JsonValue};
use git_staircase::model::DraftClassification;
use git_staircase::parse_step_spec;
use git_staircase::staircase::draft::{classify_draft, parse_porcelain_status, path_listing, StatusSummary};
use git_staircase::staircase::persistence::{split_versioned, trim_newlines_str};
use git_staircase::staircase::restack::{merged_tree, parse_commit_metadata};

fn other_message(e: StaircaseError) -> String {
    match e {
        StaircaseError::Other(m) => m,
        e => panic!("unexpected error {:?}", e),
    }
}

fn empty_summary() -> StatusSummary {
    StatusSummary {
        staged_paths: vec![],
        unstaged_paths: vec![],
        untracked_paths: vec![],
        ignored_paths: vec![],
        conflicted_paths: vec![],
        is_submodule_dirty: false,
    }
}

#[test]
fn step_specs_name_a_staircase_and_a_step_number() {
    let (name, n) = parse_step_spec("feature:3").unwrap();
    assert_eq!(name, "feature");
    assert_eq!(n, 3);
    assert_eq!(
        other_message(parse_step_spec("feature").unwrap_err()),
        "Invalid step spec 'feature'. Expected format: <staircase_name>:<step_number>"
    );
    assert_eq!(
        other_message(parse_step_spec("a:b:1").unwrap_err()),
        "Invalid step spec 'a:b:1'. Expected format: <staircase_name>:<step_number>"
    );
    assert_eq!(
        other_message(parse_step_spec("feature:x").unwrap_err()),
        "Failed to parse step number: invalid digit found in string"
    );
    assert_eq!(
        other_message(parse_step_spec("feature:").unwrap_err()),
        "Failed to parse step number: cannot parse integer from empty string"
    );
}

#[test]
fn porcelain_status_sorts_paths_by_kind() {
    let out = "# branch.oid abc\n\
               1 M. N... 100644 100644 100644 aaa bbb staged.txt\n\
               1 .M N... 100644 100644 100644 aaa bbb unstaged.txt\n\
               1 MM N... 100644 100644 100644 aaa bbb both.txt\n\
               1 .M SC.. 160000 160000 160000 aaa bbb sub\n\
               u UU N... 100644 100644 100644 100644 aaa bbb ccc conflict.txt\n\
               ? new file.txt\n\
               ! target\n";
    let s = parse_porcelain_status(out);
    assert_eq!(s.staged_paths, vec!["staged.txt", "both.txt"]);
    assert_eq!(s.unstaged_paths, vec!["unstaged.txt", "both.txt", "sub"]);
    assert_eq!(s.untracked_paths, vec!["new file.txt"]);
    assert_eq!(s.ignored_paths, vec!["target"]);
    assert_eq!(s.conflicted_paths, vec!["conflict.txt"]);
    assert!(s.is_submodule_dirty);
    let clean = parse_porcelain_status("");
    assert!(clean.staged_paths.is_empty() && !clean.is_submodule_dirty);
}

#[test]
fn drafts_are_classified_by_priority() {
    let mut s = empty_summary();
    assert_eq!(classify_draft(false, &s), DraftClassification::Clean);
    s.untracked_paths.push("u".to_string());
    assert_eq!(classify_draft(false, &s), DraftClassification::Untracked);
    s.unstaged_paths.push("a".to_string());
    assert_eq!(classify_draft(false, &s), DraftClassification::UnstagedOnly);
    s.staged_paths.push("b".to_string());
    assert_eq!(classify_draft(false, &s), DraftClassification::PartiallyStaged);
    s.unstaged_paths.clear();
    assert_eq!(classify_draft(false, &s), DraftClassification::StagedOnly);
    s.is_submodule_dirty = true;
    assert_eq!(classify_draft(false, &s), DraftClassification::SubmoduleDirty);
    s.conflicted_paths.push("c".to_string());
    assert_eq!(classify_draft(false, &s), DraftClassification::Conflicted);
    assert_eq!(classify_draft(true, &s), DraftClassification::TransientOperation);
}

#[test]
fn path_listings_name_each_path() {
    assert_eq!(path_listing("Untracked", &vec![], "No untracked files."), "No untracked files.");
    let listing = path_listing("Untracked", &vec!["a.txt".to_string(), "b.txt".to_string()], "none");
    assert_eq!(listing, "Untracked: a.txt\nUntracked: b.txt");
}

#[test]
fn versioned_blobs_carry_a_header_line() {
    assert_eq!(
        split_versioned("oid1", "git-staircase-metadata 1\n{\"a\":1}\n\n", "git-staircase-metadata 1").unwrap(),
        "{\"a\":1}"
    );
    assert_eq!(
        other_message(split_versioned("oid1", "other 1\n{}\n", "git-staircase-metadata 1").unwrap_err()),
        "blob oid1 has header 'other 1', expected 'git-staircase-metadata 1'"
    );
    assert_eq!(
        other_message(split_versioned("oid2", "no newline", "h").unwrap_err()),
        "versioned blob oid2 has no header"
    );
    assert_eq!(trim_newlines_str("abc\n\n"), "abc");
    assert_eq!(trim_newlines_str("a\nb"), "a\nb");
}

#[test]
fn commit_metadata_lines() {
    let md = parse_commit_metadata("c1", "Ann\nann@x\n100\nBob\nbob@x\n200\np1 p2\n").unwrap();
    assert_eq!(md.author_name, "Ann");
    assert_eq!(md.author_email, "ann@x");
    assert_eq!(md.author_date, "100");
    assert_eq!(md.committer_name, "Bob");
    assert_eq!(md.committer_email, "bob@x");
    assert_eq!(md.committer_date, "200");
    assert_eq!(md.parents, vec!["p1", "p2"]);
    assert_eq!(
        other_message(parse_commit_metadata("c2", "a\nb\nc").unwrap_err()),
        "Failed to parse metadata for commit c2"
    );
    assert_eq!(
        other_message(parse_commit_metadata("c3", "a\nb\nc\nd\ne\nf\n").unwrap_err()),
        "Commit c3 has no parents, cannot restack manually"
    );
}

#[test]
fn merge_tree_output_names_the_tree() {
    assert_eq!(merged_tree("c1", "  tree123  \nconflict info\n").unwrap(), "tree123");
    assert_eq!(
        other_message(merged_tree("c1", "").unwrap_err()),
        "Failed to get tree OID from merge-tree for commit c1"
    );
}

#[test]
fn errors_have_codes_classes_and_messages() {
    let e = StaircaseError::NotFound("x".to_string());
    assert_eq!(e.code(), "selector-not-found");
    assert_eq!(e.exit_class(), ExitClass::Selection);
    assert_eq!(e.exit_class().status(), 2);
    assert_eq!(e.message(), "Staircase not found: x");
    let e = StaircaseError::InvalidStructure("bad".to_string());
    assert_eq!(e.code(), "invalid-cut-chain");
    assert_eq!(e.exit_class().status(), 1);
    let e = StaircaseError::NoActiveOperation;
    assert_eq!(e.code(), "no-active-operation");
    assert_eq!(e.exit_class().status(), 4);
    assert_eq!(e.message(), "No Staircase operation is in progress");
    let e = StaircaseError::UnsupportedTopology { operation: "split".to_string(), reason: "merges".to_string() };
    assert_eq!(e.exit_class().status(), 6);
    assert_eq!(e.message(), "unsupported topology for split: merges");
    let e = StaircaseError::GitCommandFailed {
        command: "git x".to_string(),
        stdout: "o".to_string(),
        stderr: "e".to_string(),
    };
    assert_eq!(e.exit_class().status(), 7);
    assert_eq!(e.message(), "Git command failed: git x\nStdout: o\nStderr: e");
}

#[test]
fn error_details_list_members_in_name_order() {
    let e = StaircaseError::ConcurrentRecordUpdate {
        reference: "refs/x".to_string(),
        expected: "e1".to_string(),
        actual: "a1".to_string(),
    };
    assert_eq!(
        e.details(),
        JsonValue::Object(vec![
            ("actual_record_oid".to_string(), JsonValue::String("a1".to_string())),
            ("expected_record_oid".to_string(), JsonValue::String("e1".to_string())),
            ("ref".to_string(), JsonValue::String("refs/x".to_string())),
        ])
    );
    assert_eq!(StaircaseError::Other("x".to_string()).details(), JsonValue::Null);
    let paused = StaircaseError::OperationPaused { operation_id: "op1".to_string(), kind: "rebase".to_string() };
    match paused.details() {
        JsonValue::Object(m) => {
            let names: Vec<&str> = m.iter().map(|(k, _)| k.as_str()).collect();
            assert_eq!(names, vec!["abort", "continue", "operation_id", "operation_kind"]);
            assert_eq!(m[2].1, JsonValue::String("op1".to_string()));
        },
        other => panic!("unexpected details {:?}", other),
    }
}

#[test]
fn file_contents_round_trip_through_hex() {
    let bytes: Vec<u8> = vec![0, 1, 15, 16, 127, 128, 255];
    let text = hex_encode(&bytes);
    assert_eq!(text, "00010f107f80ff");
    assert_eq!(hex_decode(&text).unwrap(), bytes);
    assert_eq!(hex_decode("ABcd").unwrap(), vec![0xab, 0xcd]);
    assert_eq!(hex_encode(&[]), "");
    assert_eq!(other_message(hex_decode("abc").unwrap_err()), "invalid hexadecimal content");
    assert_eq!(other_message(hex_decode("zz").unwrap_err()), "invalid hexadecimal content");
}

#[test]
fn canonical_json_sorts_members_and_keeps_the_last_of_a_key() {
    let s = |t: &str| JsonValue::String(t.to_string());
    let v = JsonValue::Object(vec![
        ("b".to_string(), s("1")),
        ("a".to_string(), JsonValue::Array(vec![JsonValue::Object(vec![
            ("z".to_string(), JsonValue::Null),
            ("y".to_string(), JsonValue::Bool(true)),
        ])])),
        ("b".to_string(), s("2")),
    ]);
    assert_eq!(
        canonicalize(&v),
        JsonValue::Object(vec![
            ("a".to_string(), JsonValue::Array(vec![JsonValue::Object(vec![
                ("y".to_string(), JsonValue::Bool(true)),
                ("z".to_string(), JsonValue::Null),
            ])])),
            ("b".to_string(), s("2")),
        ])
    );
    assert_eq!(canonicalize(&JsonValue::Number("12".to_string())), JsonValue::Number("12".to_string()));
}
