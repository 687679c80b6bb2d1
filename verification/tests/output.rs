use git_staircase::error::{ExitClass, StaircaseError};
use git_staircase::json::JsonValue;
use git_staircase::output::{
    detect_format_from_args, determine_format, error_diagnostic, error_line, escape_machine_field,
    requires_clear_operation, CommandKind, OutputFormat,
};

fn args(v: &[&str]) -> Vec<String> {
    v.iter().map(|s| s.to_string()).collect()
}

#[test]
fn options_choose_the_output_format() {
    assert_eq!(determine_format(false, false, None), OutputFormat::Human);
    assert_eq!(determine_format(true, true, None), OutputFormat::Json);
    assert_eq!(determine_format(false, true, None), OutputFormat::Porcelain);
    assert_eq!(determine_format(false, false, Some(OutputFormat::Json)), OutputFormat::Json);
    assert_eq!(determine_format(false, true, Some(OutputFormat::Human)), OutputFormat::Porcelain);
}

#[test]
fn raw_arguments_choose_the_output_format() {
    assert_eq!(detect_format_from_args(&args(&["git-staircase", "list"])), OutputFormat::Human);
    assert_eq!(detect_format_from_args(&args(&["git-staircase", "--json", "bogus"])), OutputFormat::Json);
    assert_eq!(detect_format_from_args(&args(&["x", "--format", "json"])), OutputFormat::Json);
    assert_eq!(detect_format_from_args(&args(&["x", "--format=porcelain"])), OutputFormat::Porcelain);
    assert_eq!(detect_format_from_args(&args(&["x", "--porcelain", "--json"])), OutputFormat::Json);
    assert_eq!(detect_format_from_args(&args(&["x", "--format"])), OutputFormat::Human);
}

#[test]
fn machine_fields_are_escaped() {
    assert_eq!(escape_machine_field("plain"), "plain");
    assert_eq!(escape_machine_field("a\\b\nc\rd\te"), "a\\\\b\\nc\\rd\\te");
    assert_eq!(escape_machine_field(""), "");
}

#[test]
fn read_only_commands_run_during_operations() {
    for kind in [CommandKind::List, CommandKind::Show, CommandKind::Continue, CommandKind::Abort, CommandKind::RevParse] {
        assert!(!requires_clear_operation(kind), "{:?}", kind);
    }
    for kind in [CommandKind::Land, CommandKind::Split, CommandKind::Archive, CommandKind::Name, CommandKind::Fetch] {
        assert!(requires_clear_operation(kind), "{:?}", kind);
    }
}

#[test]
fn error_reports_in_each_format() {
    let e = StaircaseError::NotFound("feat".to_string());
    let message = e.message();
    assert_eq!(error_line(OutputFormat::Json, e.code(), message.as_str()), None);
    assert_eq!(
        error_line(OutputFormat::Human, e.code(), message.as_str()).unwrap(),
        "error [selector-not-found]: Staircase not found: feat"
    );
    assert_eq!(
        error_line(OutputFormat::Porcelain, "validation-failed", "two\nlines").unwrap(),
        "error\tvalidation-failed\ttwo\\nlines"
    );
    let diagnostic = error_diagnostic(e.code(), message.as_str(), e.exit_class(), e.details());
    assert_eq!(
        diagnostic,
        JsonValue::Object(vec![(
            "error".to_string(),
            JsonValue::Object(vec![
                ("code".to_string(), JsonValue::String("selector-not-found".to_string())),
                ("details".to_string(), JsonValue::Null),
                ("exit_status".to_string(), JsonValue::Number("2".to_string())),
                ("message".to_string(), JsonValue::String("Staircase not found: feat".to_string())),
            ])
        )])
    );
    match error_diagnostic("c", "m", ExitClass::Integrity, JsonValue::Null) {
        JsonValue::Object(outer) => match &outer[0].1 {
            JsonValue::Object(inner) => assert_eq!(inner[2].1, JsonValue::Number("7".to_string())),
            other => panic!("unexpected {:?}", other),
        },
        other => panic!("unexpected {:?}", other),
    }
}
