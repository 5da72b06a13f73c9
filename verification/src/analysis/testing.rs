//! Test runs: test cases, the runner's summary, and results combining both
//! with compile issues.
//!
//! Durations are floating-point values where they are measured; here they
//! are carried as the text that reports print.

use vstd::prelude::*;
use crate::analysis::options::AnalyzeOptions;
use crate::analysis::result::AnalysisResult;
use crate::analysis::types::{copy_opt, Issue, Location};

verus! {

/// The outcome of one test.
#[derive(Debug, Clone, PartialEq, Eq)]
pub enum TestStatus {
    Passed,
    Failed,
    /// Ignored, with the reason when the runner gave one.
    Ignored(Option<String>),
}

/// One test case.
#[derive(Debug, Clone)]
pub struct TestCase {
    pub name: String,
    pub status: TestStatus,
    pub location: Option<Location>,
    pub failure_details: Option<String>,
    /// Execution time in seconds, as the number displays.
    pub execution_time: Option<String>,
}

impl TestCase {
    pub fn new(name: &str, status: TestStatus) -> (r: TestCase)
        ensures
            r.name@ == name@,
            r.status == status,
            r.location is None,
            r.failure_details is None,
            r.execution_time is None,
    {
        TestCase { name: String::from_str(name), status, location: None, failure_details: None, execution_time: None }
    }

    pub fn with_location(self, location: Location) -> (r: TestCase)
        ensures
            r == (TestCase { location: Some(location), ..self }),
    {
        TestCase { location: Some(location), ..self }
    }

    pub fn with_failure_details(self, details: &str) -> (r: TestCase)
        ensures
            r.failure_details is Some && r.failure_details->0@ == details@,
            r == (TestCase { failure_details: r.failure_details, ..self }),
    {
        TestCase { failure_details: Some(String::from_str(details)), ..self }
    }

    /// Sets the execution time (seconds, as the number displays).
    pub fn with_execution_time(self, time: &str) -> (r: TestCase)
        ensures
            r.execution_time is Some && r.execution_time->0@ == time@,
            r == (TestCase { execution_time: r.execution_time, ..self }),
    {
        TestCase { execution_time: Some(String::from_str(time)), ..self }
    }
}

/// The statistics a test runner declares at the end of a run.
#[derive(Debug, Clone)]
pub struct TestSummary {
    pub total: usize,
    pub passed: usize,
    pub failed: usize,
    pub ignored: usize,
    /// Number of measured tests.
    pub measured: usize,
    /// Number of tests filtered out.
    pub filtered: usize,
    /// Duration of the run as reports show it (seconds with two decimals and
    /// an `s`).
    pub execution_time: Option<String>,
}

impl Default for TestSummary {
    fn default() -> (r: TestSummary)
        ensures
            r.total == 0 && r.passed == 0 && r.failed == 0 && r.ignored == 0,
            r.measured == 0 && r.filtered == 0,
            r.execution_time is None,
    {
        TestSummary { total: 0, passed: 0, failed: 0, ignored: 0, measured: 0, filtered: 0, execution_time: None }
    }
}

impl TestSummary {
    /// The run's duration text, or `N/A` when the runner reported none.
    pub fn execution_time_formatted(&self) -> (r: String)
        ensures
            r@ == match self.execution_time {
                Some(t) => t@,
                None => "N/A"@,
            },
    {
        match &self.execution_time {
            Some(t) => t.clone(),
            None => String::from_str("N/A"),
        }
    }
}

/// A test run: compile issues, the runner's summary (the authoritative
/// statistics) and the per-case details (whose granularity varies by runner
/// and which therefore are never counted as statistics).
pub struct TestAnalysisResult {
    pub compile_result: AnalysisResult,
    pub test_summary: Option<TestSummary>,
    pub failed_tests: Vec<TestCase>,
    pub passed_tests: Vec<TestCase>,
    pub ignored_tests: Vec<TestCase>,
    /// Whether test output was captured.
    pub has_test_output: bool,
}

impl TestAnalysisResult {
    /// A result holding only compile issues.
    pub fn from_compile_result(compile_result: AnalysisResult) -> (r: TestAnalysisResult)
        ensures
            r.compile_result == compile_result,
            r.test_summary is None,
            r.failed_tests@.len() == 0,
            r.passed_tests@.len() == 0,
            r.ignored_tests@.len() == 0,
            !r.has_test_output,
    {
        TestAnalysisResult {
            compile_result,
            test_summary: None,
            failed_tests: Vec::new(),
            passed_tests: Vec::new(),
            ignored_tests: Vec::new(),
            has_test_output: false,
        }
    }

    /// Whether the run is green: no failed case, no failure in the runner's
    /// summary (runners that print only counts when piped have no cases),
    /// and no compile issue.
    pub fn all_passed(&self) -> (r: bool)
        ensures
            r == (self.failed_tests@.len() == 0
                && !(self.test_summary is Some && self.test_summary->0.failed > 0)
                && self.compile_result.total_issues == 0),
    {
        let summary_reports_failure = match &self.test_summary {
            Some(s) => s.failed > 0,
            None => false,
        };
        self.failed_tests.len() == 0 && !summary_reports_failure && self.compile_result.total_issues == 0
    }

    /// Number of cases collected into the detail lists (a completeness
    /// measure, not a statistic).
    pub fn collected_tests(&self) -> (r: usize)
        requires
            self.passed_tests@.len() + self.failed_tests@.len() + self.ignored_tests@.len() <= usize::MAX,
        ensures
            r == self.passed_tests@.len() + self.failed_tests@.len() + self.ignored_tests@.len(),
    {
        self.passed_tests.len() + self.failed_tests.len() + self.ignored_tests.len()
    }

    /// The number of tests: the runner's declared total, or the number of
    /// collected cases when the runner printed no summary.
    pub fn total_tests(&self) -> (r: usize)
        requires
            self.passed_tests@.len() + self.failed_tests@.len() + self.ignored_tests@.len() <= usize::MAX,
        ensures
            r == match self.test_summary {
                Some(s) => s.total as int,
                None => (self.passed_tests@.len() + self.failed_tests@.len() + self.ignored_tests@.len()) as int,
            },
    {
        match &self.test_summary {
            Some(s) => s.total,
            None => self.collected_tests(),
        }
    }
}

/// What a test parser reads from a runner's output.
#[derive(Debug)]
pub struct ParsedTestOutput {
    pub compile_issues: Vec<Issue>,
    pub test_summary: Option<TestSummary>,
    pub failed_tests: Vec<TestCase>,
    pub passed_tests: Vec<TestCase>,
    pub ignored_tests: Vec<TestCase>,
}

impl ParsedTestOutput {
    pub fn new() -> (r: ParsedTestOutput)
        ensures
            r.compile_issues@.len() == 0,
            r.test_summary is None,
            r.failed_tests@.len() == 0,
            r.passed_tests@.len() == 0,
            r.ignored_tests@.len() == 0,
    {
        ParsedTestOutput {
            compile_issues: Vec::new(),
            test_summary: None,
            failed_tests: Vec::new(),
            passed_tests: Vec::new(),
            ignored_tests: Vec::new(),
        }
    }

    /// The test result of parsed output: the compile issues aggregated, the
    /// summary and cases kept, and the output marked as captured.
    pub fn into_result(self) -> (r: TestAnalysisResult)
        requires
            self.compile_issues@.len() < usize::MAX,
        ensures
            r.compile_result.wf(),
            r.compile_result.issues() == self.compile_issues@,
            r.compile_result.exit_code is None,
            !r.compile_result.command_failed,
            r.test_summary == self.test_summary,
            r.failed_tests == self.failed_tests,
            r.passed_tests == self.passed_tests,
            r.ignored_tests == self.ignored_tests,
            r.has_test_output,
    {
        let compile_result = AnalysisResult::from_issues(self.compile_issues);
        let mut result = TestAnalysisResult::from_compile_result(compile_result);
        result.test_summary = self.test_summary;
        result.failed_tests = self.failed_tests;
        result.passed_tests = self.passed_tests;
        result.ignored_tests = self.ignored_tests;
        result.has_test_output = true;
        result
    }
}

/// Options of a test run.
#[derive(Debug, Clone)]
pub struct TestOptions {
    /// The command to run (`test`, `run test:unit`).
    pub command: String,
    /// A test name filter.
    pub filter: Option<String>,
    pub lib_only: bool,
    pub bin: Option<String>,
    pub test: Option<String>,
    pub doc_only: bool,
    /// Package path (Go: `./...`).
    pub package: Option<String>,
    /// Timeout in seconds.
    pub timeout: Option<u64>,
    pub race: bool,
    pub coverage: bool,
    pub extra_args: Vec<String>,
}

impl TestOptions {
    /// Test options from analysis options: the subcommand (empty when there
    /// is none) as the command, everything else unset.
    pub fn from(options: &AnalyzeOptions) -> (r: TestOptions)
        ensures
            r.command@ == match options.subcommand {
                Some(s) => s.0@,
                None => Seq::<char>::empty(),
            },
            r.filter is None && !r.lib_only && r.bin is None && r.test is None && !r.doc_only,
            r.package is None && r.timeout is None && !r.race && !r.coverage && r.extra_args@.len() == 0,
    {
        let command = match &options.subcommand {
            Some(s) => String::from_str(s.as_str()),
            None => String::new(),
        };
        TestOptions {
            command,
            filter: None,
            lib_only: false,
            bin: None,
            test: None,
            doc_only: false,
            package: None,
            timeout: None,
            race: false,
            coverage: false,
            extra_args: Vec::new(),
        }
    }
}

} // verus!
