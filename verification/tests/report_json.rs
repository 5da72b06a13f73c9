use analyzer::analysis::result::AnalysisResult;
use analyzer::analysis::testing::{TestAnalysisResult, TestCase, TestStatus, TestSummary};
use analyzer::analysis::types::{Issue, IssueLevel, Location, ReportFormat, Verbosity};
use analyzer::report::{HtmlReporter, JsonReporter, MarkdownReporter, ReportOptions, ReporterFactory};


fn sample_result() -> AnalysisResult {
        let mut r = AnalysisResult::new();
        r.add_issue(Issue::new(
            IssueLevel::Error,
            "type mismatch",
            Location::new("src/main.rs").with_line(10).with_column(5),
        ));
        r.add_issue(Issue::new(
            IssueLevel::Warning,
            "unused variable",
            Location::new("src/lib.rs").with_line(20),
        ));
        r
    }

fn sample_test_result() -> TestAnalysisResult {
        let mut result = TestAnalysisResult::from_compile_result(AnalysisResult::new());
        result.test_summary = Some(TestSummary {
            total: 2,
            passed: 1,
            failed: 1,
            ignored: 0,
            measured: 0,
            filtered: 0,
            execution_time: Some("0.50s".to_string()),
        });
        result.passed_tests.push(TestCase::new("AppTest::testGreet", TestStatus::Passed));
        result.failed_tests.push(
            TestCase::new("AppTest::testFailingCase", TestStatus::Failed)
                .with_failure_details("expected:<Hello[ World]> but was:<Hello[]>")
                .with_execution_time("0.008"),
        );
        result
    }

#[test]
fn test_json_generate_empty() {
    let reporter = JsonReporter::new();
    let result = AnalysisResult::new();
    let report = reporter.generate(&result).unwrap();
    assert!(report.contains("\"metadata\""));
    assert!(report.contains("\"total\": 0"));
    assert!(report.contains("\"items\": ["));
}

#[test]
fn test_json_generate_with_issues() {
    let reporter = JsonReporter::new();
    let report = reporter.generate(&sample_result()).unwrap();
    assert!(report.contains("\"total\": 2"));
    assert!(report.contains("\"error\": 1"));
    assert!(report.contains("\"warning\": 1"));
    assert!(report.contains("type mismatch"));
    assert!(report.contains("unused variable"));
    assert!(report.contains("src/main.rs"));
    assert!(report.contains("src/lib.rs"));
}

#[test]
fn test_json_generate_valid_json() {
    let reporter = JsonReporter::new();
    let report = reporter.generate(&sample_result()).unwrap();
    // Verify it's valid JSON
    let parsed: serde_json::Value = serde_json::from_str(&report).unwrap();
    assert_eq!(parsed["metadata"]["total"], 2);
    assert_eq!(parsed["summary_by_level"]["error"], 1);
    assert_eq!(parsed["items"].as_array().unwrap().len(), 2);
}

#[test]
fn test_json_short_circuit() {
    let reporter = JsonReporter::new();
    let empty = AnalysisResult::new();
    let opts = ReportOptions {
        success_short_circuit: true,
        tech_stack: Some("cargo check".to_string()),
        ..Default::default()
    };
    let report = reporter.generate_with_options(&empty, opts).unwrap();
    assert_eq!(report, "cargo check: no issues found");
}

#[test]
fn test_json_test_report_includes_test_summary() {
    let reporter = JsonReporter::new();
    let result = sample_test_result();
    let report = reporter.generate_test_report(&result).unwrap();

    assert!(report.contains("\"test_summary\""));
    assert!(report.contains("\"total\": 2"));
    assert!(report.contains("\"passed\": 1"));
    assert!(report.contains("\"failed\": 1"));
    assert!(report.contains("\"failed_tests\""));
    assert!(report.contains("AppTest::testFailingCase"));
    assert!(report.contains("\"passed_tests\""));
    assert!(report.contains("AppTest::testGreet"));
}

#[test]
fn test_json_test_report_not_short_circuited_on_failures() {
    // A run with failing tests but zero compile issues must still emit a
    // full JSON report (not the "no issues found" short-circuit).
    let reporter = JsonReporter::new();
    let result = sample_test_result();
    assert_eq!(result.compile_result.total_issues, 0);
    assert!(!result.all_passed());

    let opts = ReportOptions {
        success_short_circuit: true,
        tech_stack: Some("gradle test".to_string()),
        ..Default::default()
    };
    let report = reporter
        .generate_test_report_with_options(&result, opts)
        .unwrap();
    assert!(!report.contains("no issues found"));
    assert!(report.contains("\"failed\": 1"));
}

#[test]
fn test_json_test_report_valid_json() {
    let reporter = JsonReporter::new();
    let result = sample_test_result();
    let report = reporter.generate_test_report(&result).unwrap();

    // The report must be a single valid JSON document.
    let parsed: serde_json::Value = serde_json::from_str(&report)
        .unwrap_or_else(|e| panic!("invalid JSON: {} in {:?}", e, report));
    assert_eq!(parsed["test_summary"]["total"], 2);
    assert_eq!(parsed["failed_tests"].as_array().unwrap().len(), 1);
    assert_eq!(parsed["passed_tests"].as_array().unwrap().len(), 1);
    assert_eq!(parsed["metadata"]["total_tests"], 2);
    assert_eq!(parsed["metadata"]["collected_tests"], 2);
}

#[test]
fn test_json_test_report_all_passed_no_compile_issues() {
    let reporter = JsonReporter::new();
    let mut result = TestAnalysisResult::from_compile_result(AnalysisResult::new());
    result.test_summary = Some(TestSummary {
        total: 1,
        passed: 1,
        failed: 0,
        ignored: 0,
        measured: 0,
        filtered: 0,
        execution_time: None,
    });
    result.passed_tests.push(TestCase::new("AppTest::testGreet", TestStatus::Passed));

    let report = reporter.generate_test_report(&result).unwrap();
    let parsed: serde_json::Value = serde_json::from_str(&report).unwrap();
    assert_eq!(parsed["test_summary"]["passed"], 1);
    assert_eq!(parsed["failed_tests"].as_array().unwrap().len(), 0);
    assert_eq!(parsed["metadata"]["compile_errors"], 0);
}

#[test]
fn test_json_escapes_control_characters() {
    let reporter = JsonReporter::new();
    let mut result = TestAnalysisResult::from_compile_result(AnalysisResult::new());
    result.failed_tests.push(
        TestCase::new("AppTest::testFailingCase", TestStatus::Failed)
            .with_failure_details(
                "org.junit.ComparisonFailure: expected:<[x]> but was:<[]>\n\tat com.example.AppTest.testFailingCase(AppTest.java:21)",
            ),
    );

    let report = reporter.generate_test_report(&result).unwrap();
    let parsed: serde_json::Value = serde_json::from_str(&report)
        .unwrap_or_else(|e| panic!("invalid JSON: {} in {:?}", e, report));
    let details = parsed["failed_tests"][0]["failure_details"]
        .as_str()
        .expect("failure_details must be a string");
    assert!(details.contains('\t'), "tab must survive round-trip");
    assert!(details.contains("AppTest.java:21"));
}

#[test]
fn json_test_report_with_ignored_tests_is_valid_json() {
    let mut result = sample_test_result();
    result.ignored_tests.push(TestCase::new("AppTest::testSkipped", TestStatus::Ignored(Some("slow".to_string()))));
    result.ignored_tests.push(TestCase::new("AppTest::testOther", TestStatus::Ignored(None)));
    let report = JsonReporter::new().generate_test_report(&result).unwrap();
    let parsed: serde_json::Value = serde_json::from_str(&report).unwrap();
    let ignored = parsed["ignored_tests"].as_array().unwrap();
    assert_eq!(ignored.len(), 2);
    assert_eq!(ignored[0]["name"], "AppTest::testSkipped");
    assert_eq!(ignored[0]["reason"], "slow");
}
