use git_staircase::staircase::operation::operation_owner;
use git_staircase::git::host::ShellOutcome;
use git_staircase::staircase::verification::commands_outcome;

fn ran(success: bool, out: &str, err: &str) -> Option<ShellOutcome> {
    Some(ShellOutcome { success, stdout: out.to_string(), stderr: err.to_string() })
}

#[test]
fn commands_outcome_succeeds_when_each_command_that_ran_succeeded() {
    let o = commands_outcome(&ran(true, "built\n", ""), &ran(true, "tested\n", "w\n"));
    assert!(o.success);
    assert_eq!(o.stdout, "built\ntested\n");
    assert_eq!(o.stderr, "w\n");
}

#[test]
fn commands_outcome_fails_with_a_failed_build_and_no_test() {
    let o = commands_outcome(&ran(false, "", "boom\n"), &None);
    assert!(!o.success);
    assert_eq!(o.stderr, "boom\n");
}

#[test]
fn commands_outcome_without_commands_succeeds() {
    let o = commands_outcome(&None, &None);
    assert!(o.success);
    assert!(o.stdout.is_empty() && o.stderr.is_empty());
}

#[test]
fn commands_outcome_fails_with_a_failed_test() {
    let o = commands_outcome(&None, &ran(false, "1 failed\n", ""));
    assert!(!o.success);
    assert_eq!(o.stdout, "1 failed\n");
}

#[test]
fn operation_owner_without_an_active_operation_is_git() {
    assert_eq!(operation_owner("rebase", &None), "git rebase --continue|--abort");
}
