use analyzer::analysis::options::AnalyzeOptions;
use analyzer::analysis::result::AnalysisResult;
use analyzer::analysis::testing::{ParsedTestOutput, TestAnalysisResult, TestCase, TestOptions, TestStatus, TestSummary};
use analyzer::analysis::types::{Issue, IssueLevel, Location, SubCommand};

#[test]
fn test_test_options_from_analyze_options_with_subcommand() {
    let analyze_opts = AnalyzeOptions { subcommand: Some(SubCommand::new("test")), ..Default::default() };
    let test_opts = TestOptions::from(&analyze_opts);
    assert_eq!(test_opts.command, "test");
    // All other fields should be default
    assert!(test_opts.filter.is_none());
    assert!(!test_opts.lib_only);
    assert!(test_opts.bin.is_none());
    assert!(test_opts.test.is_none());
    assert!(!test_opts.doc_only);
    assert!(test_opts.package.is_none());
    assert!(test_opts.timeout.is_none());
    assert!(!test_opts.race);
    assert!(!test_opts.coverage);
    assert!(test_opts.extra_args.is_empty());
}

#[test]
fn test_test_options_from_analyze_options_no_subcommand() {
    let analyze_opts = AnalyzeOptions::default();
    let test_opts = TestOptions::from(&analyze_opts);
    assert_eq!(test_opts.command, "");
}

#[test]
fn test_test_options_from_analyze_options_with_complex_command() {
    let analyze_opts =
        AnalyzeOptions { subcommand: Some(SubCommand::new("test --features integration")), ..Default::default() };
    let test_opts = TestOptions::from(&analyze_opts);
    assert_eq!(test_opts.command, "test --features integration");
}

#[test]
fn test_parsed_test_output_empty() {
    let output = ParsedTestOutput::new();
    let result: TestAnalysisResult = output.into_result();
    assert_eq!(result.compile_result.total_issues, 0);
    assert!(result.has_test_output);
    assert!(result.test_summary.is_none());
    assert!(result.failed_tests.is_empty());
    assert!(result.passed_tests.is_empty());
    assert!(result.ignored_tests.is_empty());
    assert!(result.all_passed());
}

#[test]
fn compile_issues_alone_make_a_run_fail() {
    let result = TestAnalysisResult::from_compile_result(AnalysisResult::from_issues(vec![Issue::new(
        IssueLevel::Error,
        "e",
        Location::new("a.rs"),
    )]));
    assert!(!result.all_passed());
}
