use analyzer::analysis::options::AnalyzeOptions;
use analyzer::analysis::parser::{scan_lines, BaseParser, OutputParser, ParseResult};
use analyzer::analysis::pipeline::try_analyze_log_text;
use analyzer::analysis::types::Issue;
use analyzer::analysis::types::IssueLevel;
use analyzer::config::filter_registry::{FilterFile, FilterRegistry, TomlFilterConfig, TomlShortCircuitRule};

/// Minimal parser for `file:line:col: level: message` lines.
struct StdFormatParser;

impl OutputParser for StdFormatParser {
    fn parse(&self, output: &str) -> ParseResult<Vec<Issue>> {
        scan_lines(self, output)
    }

    fn parse_single_line(&self, line: &str) -> Option<Issue> {
        BaseParser::new().parse_standard_format(line)
    }
}

/// The built-in Turborepo filter, as a value.
fn turbo_filter_file() -> FilterFile {
    let turbo = TomlFilterConfig {
        description: Some("Strip Turborepo TUI decoration, keep task results".to_string()),
        match_command: r"^(pnpm exec |npx |yarn )?turbo\b".to_string(),
        strip_ansi: Some(true),
        strip_tui_frames: Some(true),
        strip_lines_matching: Some(vec![r"^\s*\d+ packages? in scope".to_string(), r"^\s*• Running".to_string()]),
        keep_lines_matching: None,
        replace: None,
        short_circuit: Some(vec![TomlShortCircuitRule {
            pattern: r"Tasks:\s+\d+ successful".to_string(),
            message: "turbo: all tasks succeeded".to_string(),
            unless: Some("error".to_string()),
        }]),
        max_lines: Some(100),
        truncate_lines_at: None,
        on_empty: None,
    };
    FilterFile { schema_version: Some(1), filters: vec![("turbo".to_string(), turbo)] }
}

fn options() -> AnalyzeOptions {
    AnalyzeOptions::default()
}

#[test]
fn test_analyze_log_text_empty() {
    let registry = FilterRegistry::with_builtin_only(FilterFile::empty());
    let result = try_analyze_log_text("", "cargo check", &registry, &StdFormatParser, &options()).unwrap().unwrap();
    assert_eq!(result.total_issues, 0);
}

#[test]
fn log_text_issues_are_parsed_and_never_marked_failed() {
    let registry = FilterRegistry::with_builtin_only(FilterFile::empty());
    let text = "2 packages in scope\nsrc/a.ts:3:1: error: 'x' is declared but its value is never read\n";
    let result = try_analyze_log_text(text, "turbo run build", &registry, &StdFormatParser, &options()).unwrap().unwrap();
    assert_eq!(result.total_issues, 1);
    assert_eq!(result.exit_code, None);
    assert!(!result.command_failed);
    let issues = result.file_issues("src/a.ts").unwrap();
    assert_eq!(issues[0].location.line_number, Some(3));
}

#[test]
fn test_analyze_log_text_turbo_filter_applied() {
    let registry = FilterRegistry::with_builtin_only(turbo_filter_file());
    let text = "2 packages in scope\nsrc/a.ts:3:1: error: 'x' is declared but its value is never read\n";
    let result = try_analyze_log_text(text, "turbo run build", &registry, &StdFormatParser, &options()).unwrap().unwrap();
    assert_eq!(result.total_issues, 1);
    let issue = &result.file_issues("src/a.ts").unwrap()[0];
    assert_eq!(issue.level, IssueLevel::Error);
    assert_eq!(issue.location.line_number, Some(3));
}

#[test]
fn log_text_with_a_bad_filter_pattern_is_refused() {
    let mut file = turbo_filter_file();
    file.filters[0].1.strip_lines_matching = Some(vec!["(".to_string()]);
    let registry = FilterRegistry::with_builtin_only(file);
    assert!(try_analyze_log_text("x", "turbo run build", &registry, &StdFormatParser, &options()).is_none());
}
