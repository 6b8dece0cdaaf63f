use retry_cmd::executions::{Command, RetryErrors};

#[test]
fn parse_root_and_args_in_order() {
    let c = Command::from_string("echo hello world").unwrap();
    assert_eq!(c.root, "echo");
    assert_eq!(c.args, vec!["hello".to_string(), "world".to_string()]);
}

#[test]
fn parse_single_token() {
    let c = Command::from_string("true").unwrap();
    assert_eq!(c.root, "true");
    assert!(c.args.is_empty());
}

#[test]
fn parse_collapses_whitespace_runs() {
    let c = Command::from_string("a  b\t\tc \t d").unwrap();
    assert_eq!(c.root, "a");
    assert_eq!(
        c.args,
        vec!["b".to_string(), "c".to_string(), "d".to_string()]
    );
}

#[test]
fn parse_ignores_leading_and_trailing_whitespace() {
    let c = Command::from_string("  ls -l  ").unwrap();
    assert_eq!(c.root, "ls");
    assert_eq!(c.args, vec!["-l".to_string()]);
}

#[test]
fn parse_splits_on_newlines_and_tabs() {
    let c = Command::from_string("grep\t-r\nfoo").unwrap();
    assert_eq!(c.root, "grep");
    assert_eq!(c.args, vec!["-r".to_string(), "foo".to_string()]);
}

#[test]
fn parse_splits_on_unicode_whitespace() {
    let c = Command::from_string("a\u{3000}b\u{a0}c").unwrap();
    assert_eq!(c.root, "a");
    assert_eq!(c.args, vec!["b".to_string(), "c".to_string()]);
}

#[test]
fn parse_keeps_shell_metacharacters_verbatim() {
    let c = Command::from_string("echo $HOME | grep '*'").unwrap();
    assert_eq!(c.root, "echo");
    assert_eq!(
        c.args,
        vec![
            "$HOME".to_string(),
            "|".to_string(),
            "grep".to_string(),
            "'*'".to_string()
        ]
    );
}

#[test]
fn parse_empty_string_is_invalid() {
    let r = Command::from_string("");
    assert!(matches!(r, Err(RetryErrors::InvalidCommand)));
}

#[test]
fn parse_all_whitespace_is_invalid() {
    let r = Command::from_string(" \t\n\r \u{a0} ");
    assert!(matches!(r, Err(RetryErrors::InvalidCommand)));
}

#[test]
fn error_messages() {
    assert_eq!(
        RetryErrors::ReachedRetryLimit.message(),
        "Maximum retry attempts reached; operation aborted."
    );
    assert_eq!(RetryErrors::InvalidCommand.message(), "Invalid command provided.");
}
