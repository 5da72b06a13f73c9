use analyzer::analysis::result::AnalysisResult;
use analyzer::analysis::testing::{TestAnalysisResult, TestCase, TestStatus, TestSummary};
use analyzer::analysis::types::{Issue, IssueLevel, Location, ReportFormat, Verbosity};
use analyzer::report::{HtmlReporter, JsonReporter, MarkdownReporter, ReportOptions, ReporterFactory};


fn sample_result() -> AnalysisResult {
        let mut r = AnalysisResult::new();
        r.add_issue(Issue::new(
            IssueLevel::Error,
            "undefined reference to `foo`",
            Location::new("src/main.rs").with_line(10).with_column(5),
        ));
        r.add_issue(Issue::new(
            IssueLevel::Warning,
            "unused variable",
            Location::new("src/lib.rs").with_line(20),
        ));
        r
    }

#[test]
fn test_reporter_factory_create_markdown() {
    let reporter = ReporterFactory::create(ReportFormat::Markdown);
    let result = sample_result();
    let report = reporter.generate(&result).unwrap();
    assert!(report.contains("Analysis Report"));
    assert!(report.contains("undefined reference"));
}

#[test]
fn test_reporter_factory_create_json() {
    let reporter = ReporterFactory::create(ReportFormat::Json);
    let result = sample_result();
    let report = reporter.generate(&result).unwrap();
    assert!(report.contains("\"metadata\""));
    assert!(report.contains("\"total\": 2"));
}

#[test]
fn test_reporter_factory_create_html() {
    let reporter = ReporterFactory::create(ReportFormat::Html);
    let result = sample_result();
    let report = reporter.generate(&result).unwrap();
    assert!(report.contains("<!DOCTYPE html>"));
    assert!(report.contains("undefined reference"));
}

#[test]
fn test_reporter_factory_create_raw() {
    let reporter = ReporterFactory::create(ReportFormat::Raw);
    let result = sample_result();
    let report = reporter.generate(&result).unwrap();
    assert!(!report.is_empty());
}

#[test]
fn test_reporter_factory_create_raw_json() {
    let reporter = ReporterFactory::create(ReportFormat::RawJson);
    let result = sample_result();
    let report = reporter.generate(&result).unwrap();
    assert!(!report.is_empty());
}

#[test]
fn test_report_options_short_circuit_enabled() {
    let opts = ReportOptions {
        success_short_circuit: true,
        tech_stack: Some("cargo check".to_string()),
        ..Default::default()
    };
    assert_eq!(
        opts.short_circuit_message(),
        Some("cargo check: no issues found".to_string())
    );
}

#[test]
fn test_report_options_short_circuit_disabled() {
    let opts = ReportOptions {
        success_short_circuit: false,
        ..Default::default()
    };
    assert!(opts.short_circuit_message().is_none());
}

#[test]
fn test_report_options_short_circuit_default_tech_stack() {
    let opts = ReportOptions {
        success_short_circuit: true,
        tech_stack: None,
        ..Default::default()
    };
    assert_eq!(opts.short_circuit_message(), Some("analysis: no issues found".to_string()));
}

#[test]
fn test_generate_with_options_short_circuit() {
    let reporter = ReporterFactory::create(ReportFormat::Markdown);
    let empty = AnalysisResult::new();
    let opts = ReportOptions {
        success_short_circuit: true,
        tech_stack: Some("cargo check".to_string()),
        ..Default::default()
    };
    let report = reporter.generate_with_options(&empty, opts).unwrap();
    assert_eq!(report, "cargo check: no issues found");
}
