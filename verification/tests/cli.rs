use actus::cli::watch::is_ignored_directory;
use actus::cli::{command_help_text, run_with_args, usage_text};

#[test]
fn top_level_help_returns_success() {
    assert_eq!(run_with_args(vec!["--help".to_owned()]).exit_code(), Some(0));
    assert_eq!(run_with_args(vec!["-h".to_owned()]).exit_code(), Some(0));
}

#[test]
fn every_command_has_help_text() {
    for command in ["new", "init", "check", "parse", "build", "run", "test", "fmt", "lsp", "publish"] {
        assert!(command_help_text(command).is_some(), "missing help for {command}");
    }
    assert!(usage_text().contains("build"));
}

#[test]
fn subcommand_help_returns_success() {
    assert_eq!(run_with_args(vec!["build".to_owned(), "--help".to_owned()]).exit_code(), Some(0));
}

#[test]
fn excludes_generated_and_fixture_directories() {
    assert!(is_ignored_directory("target"));
    assert!(is_ignored_directory("fixtures"));
    assert!(!is_ignored_directory("src"));
}
