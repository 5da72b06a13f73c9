use analyzer::analysis::options::AnalyzeOptions;
use analyzer::analysis::types::{SubCommand, Verbosity};
use analyzer::cli::{is_known_analyzer_flag, is_test_subcommand, parse_options_from_args};


#[test]
fn test_is_known_analyzer_flag_help() {
    assert!(is_known_analyzer_flag("--help"));
    assert!(is_known_analyzer_flag("-h"));
}

#[test]
fn test_is_known_analyzer_flag_version() {
    assert!(is_known_analyzer_flag("--version"));
    assert!(is_known_analyzer_flag("-v"));
}

#[test]
fn test_is_known_analyzer_flag_filter_warnings() {
    assert!(is_known_analyzer_flag("--filter-warnings"));
}

#[test]
fn test_is_known_analyzer_flag_verbose() {
    assert!(is_known_analyzer_flag("--verbose"));
}

#[test]
fn test_is_known_analyzer_flag_quiet() {
    assert!(is_known_analyzer_flag("--quiet"));
    assert!(is_known_analyzer_flag("-q"));
}

#[test]
fn test_is_known_analyzer_flag_stdout() {
    assert!(is_known_analyzer_flag("--stdout"));
}

#[test]
fn test_is_known_analyzer_flag_filter_paths() {
    assert!(is_known_analyzer_flag("--filter-paths"));
}

#[test]
fn test_is_known_analyzer_flag_output() {
    assert!(is_known_analyzer_flag("--output"));
    assert!(is_known_analyzer_flag("-o"));
}

#[test]
fn test_is_known_analyzer_flag_format() {
    assert!(is_known_analyzer_flag("--format"));
}

#[test]
fn test_is_known_analyzer_flag_workspace() {
    assert!(is_known_analyzer_flag("--workspace"));
}

#[test]
fn test_is_known_analyzer_flag_package() {
    assert!(is_known_analyzer_flag("--package"));
    assert!(is_known_analyzer_flag("-p"));
}

#[test]
fn test_is_known_analyzer_flag_exclude() {
    assert!(is_known_analyzer_flag("--exclude"));
}

#[test]
fn test_is_known_analyzer_flag_target_options() {
    assert!(is_known_analyzer_flag("--lib"));
    assert!(is_known_analyzer_flag("--bin"));
    assert!(is_known_analyzer_flag("--bins"));
    assert!(is_known_analyzer_flag("--test"));
    assert!(is_known_analyzer_flag("--tests"));
    assert!(is_known_analyzer_flag("--example"));
    assert!(is_known_analyzer_flag("--examples"));
    assert!(is_known_analyzer_flag("--bench"));
    assert!(is_known_analyzer_flag("--benches"));
    assert!(is_known_analyzer_flag("--all-targets"));
    assert!(is_known_analyzer_flag("--features"));
    assert!(is_known_analyzer_flag("--all-features"));
    assert!(is_known_analyzer_flag("--no-default-features"));
}

#[test]
fn test_is_known_analyzer_flag_cpp_options() {
    assert!(is_known_analyzer_flag("--source-dir"));
    assert!(is_known_analyzer_flag("--build-dir"));
    assert!(is_known_analyzer_flag("--cmake-generator"));
    assert!(is_known_analyzer_flag("--target"));
    assert!(is_known_analyzer_flag("--target-files"));
    assert!(is_known_analyzer_flag("-I"));
    assert!(is_known_analyzer_flag("--include-path"));
    assert!(is_known_analyzer_flag("-D"));
    assert!(is_known_analyzer_flag("--define"));
    assert!(is_known_analyzer_flag("--cpp-std"));
}

#[test]
fn test_is_known_analyzer_flag_other_known() {
    assert!(is_known_analyzer_flag("--no-short-circuit"));
    assert!(is_known_analyzer_flag("--max-issues"));
}

#[test]
fn test_is_known_analyzer_flag_not_known() {
    assert!(!is_known_analyzer_flag("cargo"));
    assert!(!is_known_analyzer_flag("check"));
    assert!(!is_known_analyzer_flag("src/main.rs"));
    assert!(!is_known_analyzer_flag("--unknown-flag"));
}

#[test]
fn test_is_test_subcommand_test() {
    assert!(is_test_subcommand(&Some(SubCommand::new("test"))));
}

#[test]
fn test_is_test_subcommand_test_with_args() {
    assert!(is_test_subcommand(&Some(SubCommand::new("test --features ci"))));
}

#[test]
fn test_is_test_subcommand_not_test() {
    assert!(!is_test_subcommand(&Some(SubCommand::new("check"))));
    assert!(!is_test_subcommand(&Some(SubCommand::new("build"))));
}

#[test]
fn test_is_test_subcommand_none() {
    assert!(!is_test_subcommand(&None));
}

#[test]
fn test_parse_options_from_args_filter_warnings() {
    let args = vec!["--filter-warnings".to_string(), "cargo".to_string()];
    let mut opts = AnalyzeOptions::default();
    parse_options_from_args(&args, 0, &mut opts);
    assert!(opts.filter_warnings);
}

#[test]
fn test_parse_options_from_args_verbose() {
    let args = vec!["--verbose".to_string()];
    let mut opts = AnalyzeOptions::default();
    parse_options_from_args(&args, 0, &mut opts);
    assert_eq!(opts.verbosity, Verbosity::Verbose);
}

#[test]
fn test_parse_options_from_args_quiet() {
    let args = vec!["--quiet".to_string()];
    let mut opts = AnalyzeOptions::default();
    parse_options_from_args(&args, 0, &mut opts);
    assert_eq!(opts.verbosity, Verbosity::Minimal);
}

#[test]
fn test_parse_options_from_args_stdout() {
    let args = vec!["--stdout".to_string()];
    let mut opts = AnalyzeOptions::default();
    parse_options_from_args(&args, 0, &mut opts);
    assert!(opts.stdout_only);
}

#[test]
fn test_parse_options_from_args_filter_paths() {
    let args = vec!["--filter-paths".to_string(), "src,tests".to_string()];
    let mut opts = AnalyzeOptions::default();
    parse_options_from_args(&args, 0, &mut opts);
    assert_eq!(opts.filter_paths.len(), 2);
    assert!(opts.filter_paths.contains(&"src".to_string()));
    assert!(opts.filter_paths.contains(&"tests".to_string()));
}

#[test]
fn test_parse_options_from_args_filter_paths_missing_arg() {
    // No next arg for --filter-paths → should not panic, just skip
    let args = vec!["--filter-paths".to_string()];
    let mut opts = AnalyzeOptions::default();
    parse_options_from_args(&args, 0, &mut opts);
    assert!(opts.filter_paths.is_empty());
}

#[test]
fn test_parse_options_from_args_max_issues() {
    let args = vec!["--max-issues".to_string(), "10".to_string()];
    let mut opts = AnalyzeOptions::default();
    parse_options_from_args(&args, 0, &mut opts);
    assert_eq!(opts.max_issues, Some(10));
}

#[test]
fn test_parse_options_from_args_no_short_circuit() {
    let args = vec!["--no-short-circuit".to_string()];
    let mut opts = AnalyzeOptions {
        success_short_circuit: true,
        ..Default::default()
    };
    parse_options_from_args(&args, 0, &mut opts);
    assert!(!opts.success_short_circuit);
}

#[test]
fn test_parse_options_from_args_unknown_flag() {
    let args = vec!["--unknown-flag".to_string()];
    let mut opts = AnalyzeOptions::default();
    // Should not panic, just skip unknown flags
    parse_options_from_args(&args, 0, &mut opts);
    // Options should remain default
    assert!(!opts.filter_warnings);
    assert_eq!(opts.verbosity, Verbosity::Normal);
}
