use analyzer::analysis::command::{CommandBuilder, RunOptions};
use std::time::Duration;

#[test]
fn test_run_options_chain() {
    let opts = RunOptions::default().quiet().with_timeout(Duration::from_secs(60));
    assert!(!opts.verbose);
    assert_eq!(opts.timeout, Duration::from_secs(60));
}

#[test]
fn test_command_builder_chain() {
    let builder = CommandBuilder::new("cargo").arg("check").quiet().timeout(Duration::from_secs(120));
    assert!(!builder.options.verbose);
    assert_eq!(builder.args, vec!["check"]);
}

#[test]
fn test_from_exec_string() {
    let builder = CommandBuilder::from_exec_string("cargo check --all-targets");
    assert_eq!(builder.program, "cargo");
    assert_eq!(builder.args, vec!["check", "--all-targets"]);
}

#[test]
fn run_options_default_timeout_is_five_minutes_and_verbose() {
    let opts = RunOptions::default();
    assert!(opts.verbose);
    assert_eq!(opts.timeout, Duration::from_secs(300));
    assert!(opts.current_dir.is_none());
    assert!(opts.envs.is_empty());
}

#[test]
fn run_options_env_replaces_an_earlier_value() {
    let opts = RunOptions::default().with_env("A", "1").with_env("B", "2").with_env("A", "3");
    assert_eq!(opts.envs, vec![("A".to_string(), "3".to_string()), ("B".to_string(), "2".to_string())]);
}

#[test]
fn command_builder_command_string_joins_program_and_args() {
    let builder = CommandBuilder::new("cargo").arg("test").arg("--lib");
    assert_eq!(builder.command_string(), "cargo test --lib");
}
