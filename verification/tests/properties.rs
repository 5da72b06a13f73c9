use analyzer::analysis::errors::ReporterError;
use analyzer::analysis::result::AnalysisResult;
use analyzer::analysis::tracking::{AnalysisRecord, Tracker, MAX_RECORDS};
use analyzer::analysis::types::{Issue, IssueLevel, Location, ReportFormat, Verbosity};
use analyzer::cli::{parse_arguments, ArgsError};
use analyzer::config::env_loader::{apply_env_vars, EnvVars};
use analyzer::config::filter_registry::{FilterFile, FilterRegistry};
use analyzer::config::tee_writer::{display_path, format_hint};
use analyzer::config::{AppConfig, TeeMode};
use analyzer::analysis::parser::BaseParser;
use analyzer::analysis::parser::ParseResult;
use analyzer::analysis::types::{project_fits, required_files, TechStack};
use analyzer::config::tee_writer::files_to_remove;
use analyzer::config::tee_writer::tee_dir_choice;
use analyzer::discover::registry::{classify_by_category, classify_command, has_matching_rule, Classification};
use analyzer::report::html::html_escape_str;
use analyzer::report::json::escape_json_str;
use analyzer::report::{HtmlReporter, JsonReporter, MarkdownReporter, RawReporter, ReportOptions, ReporterFactory};

fn one_error() -> AnalysisResult {
    let mut r = AnalysisResult::new();
    r.add_issue(Issue::new(
        IssueLevel::Error,
        "undefined reference to `foo`",
        Location::new("src/main.rs").with_line(10).with_column(5),
    ));
    r
}

fn no_env() -> EnvVars {
    EnvVars {
        format: None,
        verbosity: None,
        verbose: None,
        strip_ansi: None,
        max_lines: None,
        max_line_length: None,
        tee: None,
        tee_dir: None,
        tee_mode: None,
    }
}

fn args(v: &[&str]) -> Vec<String> {
    v.iter().map(|s| s.to_string()).collect()
}

#[test]
fn level_counts_add_up_to_the_total() {
    let mut r = AnalysisResult::new();
    let levels = [IssueLevel::Error, IssueLevel::Warning, IssueLevel::Info, IssueLevel::Hint, IssueLevel::Error];
    for (i, l) in levels.iter().enumerate() {
        r.add_issue(Issue::new(*l, &format!("m{}", i), Location::new("a.rs")));
    }
    let sum = r.level_count(IssueLevel::Error)
        + r.level_count(IssueLevel::Warning)
        + r.level_count(IssueLevel::Info)
        + r.level_count(IssueLevel::Hint);
    assert_eq!(sum, r.total_issues);
    assert_eq!(r.level_count(IssueLevel::Error), 2);
}

#[test]
fn markdown_report_of_one_error_is_exact() {
    let report = MarkdownReporter::new().generate(&one_error()).unwrap();
    let expected = "# Analysis Report\n\n## Issues Summary\n\n- **Total**: 1\n- **❌** error: 1\n- **Categories**: 1\n- **Files Affected**: 1\n\n## Breakdown by Category\n\n- **undefined reference to `foo`**: 1 occurrence(s)\n\n## Details by File\n\n### `src/main.rs` (1 item(s))\n\n- ❌ **error** at line 10:5: undefined reference to `foo`\n\n";
    assert_eq!(report, expected);
}

#[test]
fn markdown_minimal_report_lists_top_files_only() {
    let opts = ReportOptions { verbose: Verbosity::Minimal, ..Default::default() };
    let report = MarkdownReporter::new().generate_with_options(&one_error(), opts).unwrap();
    assert!(report.ends_with("**Top Files:**\n\n- `src/main.rs`: 1 issue(s)\n\n"));
    assert!(!report.contains("Details by File"));
}

#[test]
fn markdown_files_beyond_twenty_are_counted() {
    let mut r = AnalysisResult::new();
    for i in 0..22 {
        r.add_issue(Issue::new(IssueLevel::Warning, "w", Location::new(&format!("f{}.rs", i))));
    }
    let report = MarkdownReporter::new().generate(&r).unwrap();
    assert!(report.contains("*... and 2 more files (use --verbose to see all)*"));
    let verbose = ReportOptions { verbose: Verbosity::Verbose, ..Default::default() };
    let full = MarkdownReporter::new().generate_with_options(&r, verbose).unwrap();
    assert!(!full.contains("more files"));
    assert!(full.contains("### `f21.rs`"));
}

#[test]
fn markdown_title_follows_the_tech_stack_first() {
    let r = one_error();
    let (title, sub) = MarkdownReporter::new().detect_report_type(&r, Some("RUBOCOP"));
    assert_eq!(title, "RuboCop Report");
    assert_eq!(sub, "RuboCop Issues Summary");
    let (title, _) = MarkdownReporter::new().detect_report_type(&r, Some("rspec"));
    assert_eq!(title, "RSpec Report");
}

#[test]
fn html_title_uses_summary_as_generic_heading() {
    let (title, sub) = HtmlReporter::new().detect_report_type(&one_error(), None);
    assert_eq!(title, "Analysis Report");
    assert_eq!(sub, "Summary");
}

#[test]
fn json_report_of_nothing_is_exact() {
    let report = JsonReporter::new().generate(&AnalysisResult::new()).unwrap();
    let expected = "{\n  \"metadata\": {\n    \"total\": 0,\n    \"categories\": 0,\n    \"files_affected\": 0\n  },\n  \"summary_by_level\": {\n\n  },\n  \"items\": [\n  ]\n}";
    assert_eq!(report, expected);
}

#[test]
fn json_escape_encodes_control_characters() {
    assert_eq!(escape_json_str("a\"b\\c\nd\re\tf\u{1}g"), "a\\\"b\\\\c\\nd\\re\\tf\\u0001g");
    assert_eq!(escape_json_str("\u{1f}"), "\\u001f");
    let escaped = escape_json_str("x\u{0}\u{7}\u{1b}y");
    assert!(escaped.chars().all(|c| (c as u32) >= 0x20));
}

#[test]
fn html_escape_leaves_no_markup() {
    let escaped = html_escape_str("<a href=\"x\">&</a>");
    assert_eq!(escaped, "&lt;a href=&quot;x&quot;&gt;&amp;&lt;/a&gt;");
    assert!(!escaped.contains('<') && !escaped.contains('>') && !escaped.contains('"'));
}

#[test]
fn html_row_shows_position_and_escaped_text() {
    let mut r = AnalysisResult::new();
    r.add_issue(Issue::new(IssueLevel::Warning, "a < b", Location::new("x.rs").with_line(3)).with_code("W1"));
    let report = HtmlReporter::new().generate(&r).unwrap();
    assert!(report.contains("<tr><td class=\"warning\">warning [W1]</td><td>x.rs</td><td>line 3</td><td>a &lt; b</td></tr>"));
    assert!(report.ends_with("</table>\n</body>\n</html>"));
}

#[test]
fn raw_lines_are_exact() {
    let r = one_error();
    assert_eq!(RawReporter::new().generate(&r).unwrap(), "error|-|src/main.rs:10:5|undefined reference to `foo`\n");
    assert_eq!(
        RawReporter::new_json_lines().generate(&r).unwrap(),
        "{\"level\":\"error\",\"code\":null,\"file\":\"src/main.rs\",\"line\":10,\"column\":5,\"message\":\"undefined reference to `foo`\"}\n"
    );
}

#[test]
fn factory_raw_json_writes_json_lines() {
    let report = ReporterFactory::create(ReportFormat::RawJson).generate(&one_error()).unwrap();
    assert!(report.starts_with("{\"level\":\"error\""));
}

#[test]
fn reporter_error_from_io_names_the_cause() {
    let e: ReporterError = std::io::Error::new(std::io::ErrorKind::Other, "disk full").into();
    assert_eq!(e.to_string(), "IO error: disk full");
}

#[test]
fn tracker_keeps_the_last_hundred_runs() {
    let mut t = Tracker::new();
    for i in 0..(MAX_RECORDS + 5) {
        t.record(AnalysisRecord {
            tech_stack: "cargo".to_string(),
            command: format!("run {}", i),
            duration_ms: 1,
            exit_code: Some(0),
            issue_count: 1,
            output_bytes: 10,
            success: i % 2 == 0,
        });
    }
    assert_eq!(t.records().len(), MAX_RECORDS);
    let s = t.stats();
    assert_eq!(s.total_runs, MAX_RECORDS);
    assert_eq!(s.successful_runs + s.failed_runs, s.total_runs);
    assert_eq!(s.total_issues, MAX_RECORDS);
    assert_eq!(t.records()[0].command, "run 100");
}

#[test]
fn parse_arguments_reports_each_error() {
    let config = AppConfig::default();
    assert!(matches!(parse_arguments(&args(&["analyzer", "--help"]), &config), Err(ArgsError::Help)));
    assert!(matches!(parse_arguments(&args(&["analyzer", "--version"]), &config), Err(ArgsError::Version)));
    assert!(matches!(parse_arguments(&args(&["analyzer", "--verbose"]), &config), Err(ArgsError::NoTechStack)));
    assert!(matches!(parse_arguments(&args(&["analyzer", "cargo"]), &config), Err(ArgsError::NoCommand)));
    assert!(matches!(
        parse_arguments(&args(&["analyzer", "nosuchtool", "check"]), &config),
        Err(ArgsError::UnknownTechStack(_))
    ));
    assert!(matches!(
        parse_arguments(&args(&["analyzer", "cargo", "check", "--format", "pdf"]), &config),
        Err(ArgsError::InvalidOptions(_))
    ));
}

#[test]
fn parse_arguments_reads_stack_command_and_options() {
    let config = AppConfig::default();
    let parsed = parse_arguments(&args(&["analyzer", "cargo", "check", "--format", "json", "--quiet"]), &config).unwrap();
    assert_eq!(parsed.tech_stack.as_str(), "cargo");
    assert_eq!(parsed.options.subcommand.unwrap().as_str(), "check");
    assert_eq!(parsed.options.report_format, ReportFormat::Json);
    assert_eq!(parsed.options.verbosity, Verbosity::Minimal);
}

#[test]
fn env_overrides_ignore_unparsable_values() {
    let mut config = AppConfig::default();
    let before_lines = config.filter.max_lines;
    let mode = config.tee.mode;
    let enabled = config.tee.enabled;
    let env = EnvVars {
        max_lines: Some("many".to_string()),
        tee: Some("maybe".to_string()),
        tee_mode: Some("sometimes".to_string()),
        ..no_env()
    };
    apply_env_vars(&mut config, &env);
    assert_eq!(config.filter.max_lines, before_lines);
    assert_eq!(config.tee.mode, mode);
    assert_eq!(config.tee.enabled, enabled);
}

#[test]
fn env_verbose_wins_over_verbosity() {
    let mut config = AppConfig::default();
    let env = EnvVars { verbosity: Some("minimal".to_string()), verbose: Some("1".to_string()), ..no_env() };
    apply_env_vars(&mut config, &env);
    assert_eq!(config.report.verbosity, "verbose");
    assert_eq!(config.tee.mode, TeeMode::Failures);
}

#[test]
fn rule_table_matches_known_commands_only() {
    assert!(has_matching_rule("cargo check"));
    assert!(has_matching_rule("CARGO CHECK"));
    assert!(!has_matching_rule("echo hello"));
}

#[test]
fn newer_filter_schemas_are_reported() {
    let newer = FilterFile { schema_version: Some(7), filters: Vec::new() };
    let registry = FilterRegistry::new(FilterFile::empty(), newer, FilterFile::empty());
    assert_eq!(registry.newer_schemas(), vec![("user".to_string(), 7)]);
}

#[test]
fn hint_shows_home_relative_path() {
    assert_eq!(display_path("/home/u/.local/tee/x.log", Some("/home/u")), "~/.local/tee/x.log");
    assert_eq!(display_path("/var/tee/x.log", Some("/home/u")), "/var/tee/x.log");
    assert_eq!(format_hint("/var/tee/x.log", None), "[full output: /var/tee/x.log]");
}

#[test]
fn raw_json_lines_stay_one_object_per_line() {
    let mut r = AnalysisResult::new();
    r.add_issue(Issue::new(IssueLevel::Error, "line one\nline \"two\" \\ end", Location::new("dir\\file.rs").with_line(1)));
    let report = RawReporter::new_json_lines().generate(&r).unwrap();
    assert_eq!(report.lines().count(), 1);
    let v: serde_json::Value = serde_json::from_str(report.lines().next().unwrap()).unwrap();
    assert_eq!(v["message"], "line one\nline \"two\" \\ end");
    assert_eq!(v["file"], "dir\\file.rs");
}

#[test]
fn category_match_carries_its_index_in_the_whole_table() {
    let by_category = classify_by_category("go vet ./...", "Go");
    let by_table = classify_command("go vet ./...");
    match (by_category, by_table) {
        (Classification::Matched { rule_index: a, subcommand, .. }, Classification::Matched { rule_index: b, .. }) => {
            assert_eq!(a, b);
            assert_eq!(subcommand, "vet");
        }
        _ => panic!("both should match"),
    }
}

#[test]
fn empty_brackets_are_an_empty_error_code() {
    let p = BaseParser::new();
    assert_eq!(p.extract_error_code("x [] y"), Some("[]".to_string()));
    assert_eq!(p.extract_error_code("expected `String` [E0308]"), Some("[E0308]".to_string()));
    assert_eq!(p.extract_error_code("a [E-1] b"), None);
}

#[test]
fn level_lists_match_level_counts() {
    let mut r = one_error();
    r.add_issue(Issue::new(IssueLevel::Warning, "unused", Location::new("src/lib.rs").with_line(2)));
    r.add_issue(Issue::new(IssueLevel::Error, "mismatch", Location::new("src/lib.rs").with_line(3)));
    assert_eq!(r.errors().len(), r.error_count());
    assert_eq!(r.warnings().len(), r.warning_count());
    assert_eq!(r.error_count(), 2);
    assert_eq!(r.warning_count(), 1);
}

#[test]
fn adding_an_issue_moves_only_its_own_entries() {
    let mut r = one_error();
    let before_files = r.file_issues("src/main.rs").unwrap().len();
    r.add_issue(Issue::new(IssueLevel::Warning, "unused", Location::new("src/lib.rs").with_line(2)).with_code("W1"));
    assert_eq!(r.total_issues, 2);
    assert_eq!(r.file_issues("src/main.rs").unwrap().len(), before_files);
    assert_eq!(r.file_issues("src/lib.rs").unwrap().len(), 1);
    assert_eq!(r.warning_count(), 1);
    assert_eq!(r.error_count(), 1);
}

#[test]
fn tracker_keeps_exactly_the_most_recent_runs() {
    let mut t = Tracker::new();
    for i in 0..(MAX_RECORDS + 37) {
        t.record(AnalysisRecord {
            tech_stack: "cargo".to_string(),
            command: format!("run {}", i),
            duration_ms: 1,
            exit_code: Some(0),
            issue_count: 0,
            output_bytes: 0,
            success: true,
        });
    }
    let mut kept: Vec<String> = t.records().iter().map(|r| r.command.clone()).collect();
    kept.sort();
    let mut expected: Vec<String> = (37..(MAX_RECORDS + 37)).map(|i| format!("run {}", i)).collect();
    expected.sort();
    assert_eq!(kept, expected);
}

#[test]
fn every_stack_name_parses_back_to_its_stack() {
    let all = [
        TechStack::Cargo, TechStack::Nextest, TechStack::Maven, TechStack::Gradle, TechStack::Npm, TechStack::Pnpm,
        TechStack::Yarn, TechStack::Mypy, TechStack::Pytest, TechStack::GoBuild, TechStack::GolangciLint,
        TechStack::Dotnet, TechStack::Rubocop, TechStack::Rspec, TechStack::Ruff, TechStack::Black, TechStack::CMake,
        TechStack::Gcc, TechStack::Clang, TechStack::ClangFormat, TechStack::Msvc,
    ];
    for t in all {
        assert_eq!(t.as_str().parse::<TechStack>(), Ok(t));
        assert_eq!(t.as_str().to_uppercase().parse::<TechStack>(), Ok(t));
    }
}

#[test]
fn table_sums_match_the_total() {
    let mut r = one_error();
    r.add_issue(Issue::new(IssueLevel::Warning, "unused variable x", Location::new("src/lib.rs")).with_code("W1"));
    r.add_issue(Issue::new(IssueLevel::Error, "unused variable y", Location::new("src/lib.rs")));
    let level_sum: usize = r.issues_by_level.iter().map(|e| e.1).sum();
    let type_sum: usize = r.issues_by_type.iter().map(|e| e.1).sum();
    let file_sum: usize = r.issues_by_file.iter().map(|e| e.1.len()).sum();
    let package_sum: usize = r.issues_by_package.iter().map(|e| e.1.len()).sum();
    assert_eq!(level_sum, r.total_issues);
    assert_eq!(type_sum, r.total_issues);
    assert_eq!(file_sum, r.total_issues);
    assert_eq!(package_sum, r.total_issues);
    assert_eq!(r.unique_patterns.len(), r.issues_by_type.len());
    for (k, _) in &r.issues_by_type {
        assert!(r.unique_patterns.contains(k));
    }
}

#[test]
fn map_keeps_the_tier_and_warnings() {
    let p: ParseResult<u32> = ParseResult::Degraded(2, vec!["odd line".to_string()]);
    let m = p.map(|x| x * 10);
    assert_eq!(m.tier(), 2);
    assert_eq!(m.warnings(), vec!["odd line".to_string()]);
    assert_eq!(m.data(), Some(20));
    let q: ParseResult<u32> = ParseResult::Passthrough("raw".to_string());
    let n = q.map(|x| x * 10);
    assert_eq!(n.tier(), 3);
    assert_eq!(n.data(), None);
}

#[test]
fn tee_directory_takes_the_first_present_choice() {
    let s = |x: &str| Some(x.to_string());
    assert_eq!(tee_dir_choice(s("/env"), s("/cfg"), s("/default")), s("/env"));
    assert_eq!(tee_dir_choice(None, s("/cfg"), s("/default")), s("/cfg"));
    assert_eq!(tee_dir_choice(None, None, s("/default")), s("/default"));
    assert_eq!(tee_dir_choice(None, None, None), None);
}

#[test]
fn oldest_tee_files_are_removed_first() {
    let names: Vec<String> = ["1700000300_c.log", "1700000100_a.log", "1700000400_d.log", "1700000200_b.log"]
        .iter()
        .map(|s| s.to_string())
        .collect();
    assert_eq!(files_to_remove(&names, 2), vec!["1700000100_a.log".to_string(), "1700000200_b.log".to_string()]);
    assert!(files_to_remove(&names, 4).is_empty());
    assert!(files_to_remove(&names, 9).is_empty());
    assert_eq!(files_to_remove(&names, 0).len(), 4);
}

#[test]
fn required_project_files_by_stack() {
    assert_eq!(required_files(TechStack::Cargo), vec!["Cargo.toml"]);
    assert_eq!(required_files(TechStack::Gradle), vec!["build.gradle", "build.gradle.kts"]);
    assert_eq!(required_files(TechStack::Yarn), vec!["package.json"]);
    assert!(required_files(TechStack::Mypy).is_empty());
    assert!(project_fits(TechStack::Mypy, &vec![]));
    assert!(project_fits(TechStack::Gradle, &vec![false, true]));
    assert!(!project_fits(TechStack::Cargo, &vec![false]));
}
