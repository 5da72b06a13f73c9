//! The raw reporter: one line per issue, pipe-delimited
//! (`LEVEL|CODE|FILE:LINE:COL|MESSAGE`) or as JSON lines.

use vstd::prelude::*;
use crate::analysis::errors::ReporterError;
use crate::analysis::result::{flat_issues, AnalysisResult};
use crate::analysis::testing::{TestAnalysisResult, TestCase, TestSummary};
use crate::analysis::types::{level_name, Issue};
use crate::report::common::{num, num_string};
use crate::report::json::{escape_json_str, json_escape, CaseList};
use crate::text::{replace_all_literal, replace_lit};

verus! {

/// `|` preceded by a backslash.
pub open spec fn pipe_escaped(s: Seq<char>) -> Seq<char> {
    replace_lit(s, "|"@, "\\|"@)
}

/// Newlines written as `\n`.
pub open spec fn newline_escaped(s: Seq<char>) -> Seq<char> {
    replace_lit(s, "\n"@, "\\n"@)
}

/// An optional number, or `absent`.
pub open spec fn opt_num(n: Option<u32>, absent: Seq<char>) -> Seq<char> {
    match n {
        Some(n) => num(n as nat),
        None => absent,
    }
}

/// One issue as a pipe-delimited line.
pub open spec fn pipe_line(i: Issue) -> Seq<char> {
    level_name(i.level) + "|"@ + (match i.code {
        Some(c) => c@,
        None => "-"@,
    }) + "|"@ + i.location.file_path@ + ":"@ + opt_num(i.location.line_number, seq![]) + ":"@ + opt_num(
        i.location.column_number,
        seq![],
    ) + "|"@ + i.message@ + "\n"@
}

/// One issue as a JSON line.
pub open spec fn json_line(i: Issue) -> Seq<char> {
    "{\"level\":\""@ + level_name(i.level) + "\",\"code\":"@ + (match i.code {
        Some(c) => "\""@ + json_escape(c@) + "\""@,
        None => "null"@,
    }) + ",\"file\":\""@ + json_escape(i.location.file_path@) + "\",\"line\":"@ + opt_num(
        i.location.line_number,
        "null"@,
    ) + ",\"column\":"@ + opt_num(i.location.column_number, "null"@) + ",\"message\":\""@ + json_escape(i.message@)
        + "\"}"@ + "\n"@
}

/// The lines of the issues, in order.
pub open spec fn issue_lines(s: Seq<Issue>, json: bool) -> Seq<char>
    decreases s.len(),
{
    if s.len() == 0 {
        seq![]
    } else {
        issue_lines(s.drop_last(), json) + if json {
            json_line(s.last())
        } else {
            pipe_line(s.last())
        }
    }
}

/// The raw report of `r`: a line per issue, file after file.
pub open spec fn raw_report(r: AnalysisResult, json: bool) -> Seq<char> {
    issue_lines(flat_issues(r.issues_by_file@), json)
}

/// The summary line of a raw test report.
pub open spec fn summary_line(s: TestSummary, json: bool) -> Seq<char> {
    if json {
        "{\"type\":\"test_summary\",\"total\":"@ + num(s.total as nat) + ",\"passed\":"@ + num(s.passed as nat)
            + ",\"failed\":"@ + num(s.failed as nat) + ",\"ignored\":"@ + num(s.ignored as nat) + ",\"measured\":"@
            + num(s.measured as nat) + ",\"filtered\":"@ + num(s.filtered as nat) + "}"@ + "\n"@
    } else {
        "TEST_SUMMARY|total="@ + num(s.total as nat) + "|passed="@ + num(s.passed as nat) + "|failed="@ + num(
            s.failed as nat,
        ) + "|ignored="@ + num(s.ignored as nat) + "\n"@
    }
}

/// The failure details of a test (empty when none).
pub open spec fn details_of(t: TestCase) -> Seq<char> {
    match t.failure_details {
        Some(d) => d@,
        None => seq![],
    }
}

/// One test case as a line of a raw test report.
pub open spec fn case_line(k: CaseList, t: TestCase, json: bool) -> Seq<char> {
    if json {
        match k {
            CaseList::Failed => "{\"type\":\"test\",\"status\":\"failed\",\"name\":\""@ + json_escape(t.name@)
                + "\",\"details\":\""@ + json_escape(details_of(t)) + "\"}"@ + "\n"@,
            CaseList::Passed => "{\"type\":\"test\",\"status\":\"passed\",\"name\":\""@ + json_escape(t.name@) + "\"}"@
                + "\n"@,
            CaseList::Ignored => "{\"type\":\"test\",\"status\":\"skipped\",\"name\":\""@ + json_escape(t.name@)
                + "\"}"@ + "\n"@,
        }
    } else {
        match k {
            CaseList::Failed => "TEST|FAILED|"@ + pipe_escaped(t.name@) + "|"@ + pipe_escaped(newline_escaped(details_of(t)))
                + "\n"@,
            CaseList::Passed => "TEST|PASSED|"@ + pipe_escaped(t.name@) + "\n"@,
            CaseList::Ignored => "TEST|SKIPPED|"@ + pipe_escaped(t.name@) + "\n"@,
        }
    }
}

/// The lines of a list of test cases, in order.
pub open spec fn case_lines(k: CaseList, s: Seq<TestCase>, json: bool) -> Seq<char>
    decreases s.len(),
{
    if s.len() == 0 {
        seq![]
    } else {
        case_lines(k, s.drop_last(), json) + case_line(k, s.last(), json)
    }
}

/// The raw test report of `r`: the summary line, the failed, passed and
/// skipped cases, then the compile issues.
pub open spec fn raw_test_report(r: TestAnalysisResult, json: bool) -> Seq<char> {
    (match r.test_summary {
        Some(s) => summary_line(s, json),
        None => seq![],
    }) + case_lines(CaseList::Failed, r.failed_tests@, json) + case_lines(CaseList::Passed, r.passed_tests@, json)
        + case_lines(CaseList::Ignored, r.ignored_tests@, json) + raw_report(r.compile_result, json)
}

fn pipe_escaped_string(s: &str) -> (r: String)
    ensures
        r@ == pipe_escaped(s@),
{
    proof {
        reveal_strlit("|");
    }
    replace_all_literal(s, "|", "\\|")
}

fn newline_escaped_string(s: &str) -> (r: String)
    ensures
        r@ == newline_escaped(s@),
{
    proof {
        reveal_strlit("\n");
    }
    replace_all_literal(s, "\n", "\\n")
}

fn opt_num_string(n: Option<u32>, absent: &str) -> (r: String)
    ensures
        r@ == opt_num(n, absent@),
{
    match n {
        Some(n) => num_string(n as usize),
        None => String::from_str(absent),
    }
}

fn pipe_line_string(i: &Issue) -> (r: String)
    ensures
        r@ == pipe_line(*i),
{
    let mut s = String::from_str(i.level.as_str());
    s.append("|");
    match &i.code {
        Some(c) => s.append(c.as_str()),
        None => s.append("-"),
    }
    s.append("|");
    s.append(i.location.file_path.as_str());
    s.append(":");
    let l = opt_num_string(i.location.line_number, "");
    s.append(l.as_str());
    s.append(":");
    let c = opt_num_string(i.location.column_number, "");
    s.append(c.as_str());
    s.append("|");
    s.append(i.message.as_str());
    s.append("\n");
    proof {
        reveal_strlit("");
    }
    s
}

fn json_line_string(i: &Issue) -> (r: String)
    ensures
        r@ == json_line(*i),
{
    let mut s = String::from_str("{\"level\":\"");
    s.append(i.level.as_str());
    s.append("\",\"code\":");
    match &i.code {
        Some(c) => {
            s.append("\"");
            let ce = escape_json_str(c.as_str());
            s.append(ce.as_str());
            s.append("\"");
        },
        None => s.append("null"),
    }
    s.append(",\"file\":\"");
    let f = escape_json_str(i.location.file_path.as_str());
    s.append(f.as_str());
    s.append("\",\"line\":");
    let l = opt_num_string(i.location.line_number, "null");
    s.append(l.as_str());
    s.append(",\"column\":");
    let c = opt_num_string(i.location.column_number, "null");
    s.append(c.as_str());
    s.append(",\"message\":\"");
    let m = escape_json_str(i.message.as_str());
    s.append(m.as_str());
    s.append("\"}");
    s.append("\n");
    s
}

fn push_issue_lines(out: &mut String, s: &Vec<Issue>, json: bool)
    ensures
        final(out)@ == old(out)@ + issue_lines(s@, json),
{
    let ghost o0 = out@;
    let mut i: usize = 0;
    assert(s@.take(0) =~= Seq::<Issue>::empty());
    while i < s.len()
        invariant
            i <= s@.len(),
            out@ == o0 + issue_lines(s@.take(i as int), json),
        decreases s@.len() - i,
    {
        let line = if json {
            json_line_string(&s[i])
        } else {
            pipe_line_string(&s[i])
        };
        out.append(line.as_str());
        assert(s@.take(i + 1).drop_last() =~= s@.take(i as int));
        assert(s@.take(i + 1).last() == s@[i as int]);
        assert(out@ =~= o0 + issue_lines(s@.take(i + 1), json));
        i += 1;
    }
    assert(s@.take(s@.len() as int) =~= s@);
}

fn summary_line_string(s: &TestSummary, json: bool) -> (r: String)
    ensures
        r@ == summary_line(*s, json),
{
    if json {
        let mut o = String::from_str("{\"type\":\"test_summary\",\"total\":");
        let a = num_string(s.total);
        o.append(a.as_str());
        o.append(",\"passed\":");
        let b = num_string(s.passed);
        o.append(b.as_str());
        o.append(",\"failed\":");
        let c = num_string(s.failed);
        o.append(c.as_str());
        o.append(",\"ignored\":");
        let d = num_string(s.ignored);
        o.append(d.as_str());
        o.append(",\"measured\":");
        let e = num_string(s.measured);
        o.append(e.as_str());
        o.append(",\"filtered\":");
        let f = num_string(s.filtered);
        o.append(f.as_str());
        o.append("}");
        o.append("\n");
        o
    } else {
        let mut o = String::from_str("TEST_SUMMARY|total=");
        let a = num_string(s.total);
        o.append(a.as_str());
        o.append("|passed=");
        let b = num_string(s.passed);
        o.append(b.as_str());
        o.append("|failed=");
        let c = num_string(s.failed);
        o.append(c.as_str());
        o.append("|ignored=");
        let d = num_string(s.ignored);
        o.append(d.as_str());
        o.append("\n");
        o
    }
}

fn details_string(t: &TestCase) -> (r: String)
    ensures
        r@ == details_of(*t),
{
    match &t.failure_details {
        Some(d) => d.clone(),
        None => String::new(),
    }
}

fn case_line_json(k: &CaseList, t: &TestCase) -> (r: String)
    ensures
        r@ == case_line(*k, *t, true),
{
    let n = escape_json_str(t.name.as_str());
    match k {
        CaseList::Failed => {
            let d = details_string(t);
            let dn = escape_json_str(d.as_str());
            let mut s = String::from_str("{\"type\":\"test\",\"status\":\"failed\",\"name\":\"");
            s.append(n.as_str());
            s.append("\",\"details\":\"");
            s.append(dn.as_str());
            s.append("\"}");
            s.append("\n");
            s
        },
        CaseList::Passed => {
            let mut s = String::from_str("{\"type\":\"test\",\"status\":\"passed\",\"name\":\"");
            s.append(n.as_str());
            s.append("\"}");
            s.append("\n");
            s
        },
        CaseList::Ignored => {
            let mut s = String::from_str("{\"type\":\"test\",\"status\":\"skipped\",\"name\":\"");
            s.append(n.as_str());
            s.append("\"}");
            s.append("\n");
            s
        },
    }
}

fn case_line_pipe(k: &CaseList, t: &TestCase) -> (r: String)
    ensures
        r@ == case_line(*k, *t, false),
{
    let n = pipe_escaped_string(t.name.as_str());
    match k {
        CaseList::Failed => {
            let d = details_string(t);
            let dn = newline_escaped_string(d.as_str());
            let dp = pipe_escaped_string(dn.as_str());
            let mut s = String::from_str("TEST|FAILED|");
            s.append(n.as_str());
            s.append("|");
            s.append(dp.as_str());
            s.append("\n");
            s
        },
        CaseList::Passed => {
            let mut s = String::from_str("TEST|PASSED|");
            s.append(n.as_str());
            s.append("\n");
            s
        },
        CaseList::Ignored => {
            let mut s = String::from_str("TEST|SKIPPED|");
            s.append(n.as_str());
            s.append("\n");
            s
        },
    }
}

fn push_case_lines(out: &mut String, k: &CaseList, s: &Vec<TestCase>, json: bool)
    ensures
        final(out)@ == old(out)@ + case_lines(*k, s@, json),
{
    let ghost o0 = out@;
    let mut i: usize = 0;
    assert(s@.take(0) =~= Seq::<TestCase>::empty());
    while i < s.len()
        invariant
            i <= s@.len(),
            out@ == o0 + case_lines(*k, s@.take(i as int), json),
        decreases s@.len() - i,
    {
        let line = if json {
            case_line_json(k, &s[i])
        } else {
            case_line_pipe(k, &s[i])
        };
        out.append(line.as_str());
        assert(s@.take(i + 1).drop_last() =~= s@.take(i as int));
        assert(s@.take(i + 1).last() == s@[i as int]);
        assert(out@ =~= o0 + case_lines(*k, s@.take(i + 1), json));
        i += 1;
    }
    assert(s@.take(s@.len() as int) =~= s@);
}

/// Generates raw output.
#[derive(Debug, Clone, Copy)]
pub struct RawReporter {
    json_lines: bool,
}

impl RawReporter {
    /// Whether the reporter writes JSON lines (else pipe-delimited lines).
    pub closed spec fn writes_json(&self) -> bool {
        self.json_lines
    }

    /// A reporter of pipe-delimited lines.
    pub fn new() -> (r: RawReporter)
        ensures
            !r.writes_json(),
    {
        RawReporter { json_lines: false }
    }

    /// A reporter of JSON lines.
    pub fn new_json_lines() -> (r: RawReporter)
        ensures
            r.writes_json(),
    {
        RawReporter { json_lines: true }
    }

    /// `LEVEL|CODE|FILE:LINE:COL|MESSAGE` per issue.
    fn generate_pipe_delimited(&self, result: &AnalysisResult) -> (r: Result<String, ReporterError>)
        ensures
            r matches Ok(s) && s@ == raw_report(*result, false),
    {
        let all = result.all_issues();
        let mut s = String::new();
        push_issue_lines(&mut s, &all, false);
        Ok(s)
    }

    /// A JSON object per issue, one per line.
    fn generate_json_lines(&self, result: &AnalysisResult) -> (r: Result<String, ReporterError>)
        ensures
            r matches Ok(s) && s@ == raw_report(*result, true),
    {
        let all = result.all_issues();
        let mut s = String::new();
        push_issue_lines(&mut s, &all, true);
        Ok(s)
    }

    /// A line per issue of `result`, file after file.
    pub fn generate(&self, result: &AnalysisResult) -> (r: Result<String, ReporterError>)
        ensures
            r matches Ok(s) && s@ == raw_report(*result, self.writes_json()),
    {
        if self.json_lines {
            self.generate_json_lines(result)
        } else {
            self.generate_pipe_delimited(result)
        }
    }

    /// The raw report; the options do not apply.
    pub fn generate_with_options(&self, result: &AnalysisResult, options: crate::report::options::ReportOptions) -> (r:
        Result<String, ReporterError>)
        ensures
            r matches Ok(s) && s@ == raw_report(*result, self.writes_json()),
    {
        self.generate(result)
    }

    fn generate_test_lines(&self, result: &TestAnalysisResult, json: bool) -> (r: Result<String, ReporterError>)
        ensures
            r matches Ok(s) && s@ == raw_test_report(*result, json),
    {
        let mut s = match &result.test_summary {
            Some(summary) => summary_line_string(summary, json),
            None => String::new(),
        };
        push_case_lines(&mut s, &CaseList::Failed, &result.failed_tests, json);
        push_case_lines(&mut s, &CaseList::Passed, &result.passed_tests, json);
        push_case_lines(&mut s, &CaseList::Ignored, &result.ignored_tests, json);
        let all = result.compile_result.all_issues();
        push_issue_lines(&mut s, &all, json);
        Ok(s)
    }

    /// `TEST_SUMMARY|…`, `TEST|FAILED|name|details`, `TEST|PASSED|name`,
    /// `TEST|SKIPPED|name`, then the compile issues.
    fn generate_test_pipe_delimited(&self, result: &TestAnalysisResult) -> (r: Result<String, ReporterError>)
        ensures
            r matches Ok(s) && s@ == raw_test_report(*result, false),
    {
        self.generate_test_lines(result, false)
    }

    /// A JSON object for the summary and for each case, then the compile
    /// issues, one per line.
    fn generate_test_json_lines(&self, result: &TestAnalysisResult) -> (r: Result<String, ReporterError>)
        ensures
            r matches Ok(s) && s@ == raw_test_report(*result, true),
    {
        self.generate_test_lines(result, true)
    }

    /// The raw test report of `result` (see `raw_test_report`).
    pub fn generate_test_report(&self, result: &TestAnalysisResult) -> (r: Result<String, ReporterError>)
        ensures
            r matches Ok(s) && s@ == raw_test_report(*result, self.writes_json()),
    {
        if self.json_lines {
            self.generate_test_json_lines(result)
        } else {
            self.generate_test_pipe_delimited(result)
        }
    }

    /// The raw test report; the options do not apply.
    pub fn generate_test_report_with_options(
        &self,
        result: &TestAnalysisResult,
        options: crate::report::options::ReportOptions,
    ) -> (r: Result<String, ReporterError>)
        ensures
            r matches Ok(s) && s@ == raw_test_report(*result, self.writes_json()),
    {
        self.generate_test_report(result)
    }
}

impl Default for RawReporter {
    fn default() -> (r: RawReporter)
        ensures
            !r.writes_json(),
    {
        RawReporter { json_lines: false }
    }
}

} // verus!
