//! The HTML reporter.

use vstd::prelude::*;
use crate::analysis::errors::ReporterError;
use crate::analysis::result::{flat_issues, level_index, AnalysisResult};
use crate::analysis::testing::{TestAnalysisResult, TestCase, TestStatus, TestSummary};
use crate::analysis::types::{level_name, Issue, IssueLevel, Location};
use crate::report::common::{num, num_string};
use crate::report::markdown::{collected, detect_titles, run_passed, str_opt, titles_for};
use crate::report::options::{short_circuit_line, ReportOptions};
use crate::text::{chars_of, push_char};

verus! {

// ───────────────────────────── escaping ─────────────────────────────

/// One character as it stands in HTML text: `&`, `<`, `>` and `"` as
/// entities.
pub open spec fn html_char(c: char) -> Seq<char> {
    if c == '&' {
        seq!['&', 'a', 'm', 'p', ';']
    } else if c == '<' {
        seq!['&', 'l', 't', ';']
    } else if c == '>' {
        seq!['&', 'g', 't', ';']
    } else if c == '"' {
        seq!['&', 'q', 'u', 'o', 't', ';']
    } else {
        seq![c]
    }
}

/// A text as it stands in HTML.
pub open spec fn html_escape(s: Seq<char>) -> Seq<char>
    decreases s.len(),
{
    if s.len() == 0 {
        seq![]
    } else {
        html_escape(s.drop_last()) + html_char(s.last())
    }
}

/// An escaped text holds no `<`, `>` or `"`, so it cannot open or close a
/// tag or an attribute value.
pub proof fn lemma_html_escape_no_markup(s: Seq<char>)
    ensures
        forall|i: int|
            0 <= i < html_escape(s).len() ==> #[trigger] html_escape(s)[i] != '<' && html_escape(s)[i] != '>'
                && html_escape(s)[i] != '"',
    decreases s.len(),
{
    if s.len() > 0 {
        lemma_html_escape_no_markup(s.drop_last());
        let p = html_escape(s.drop_last());
        let e = html_char(s.last());
        assert forall|i: int| 0 <= i < html_escape(s).len() implies #[trigger] html_escape(s)[i] != '<'
            && html_escape(s)[i] != '>' && html_escape(s)[i] != '"' by {
            if i < p.len() {
                assert(html_escape(s)[i] == p[i]);
            } else {
                assert(html_escape(s)[i] == e[i - p.len()]);
            }
        }
    }
}

fn push_html_char(out: &mut String, c: char)
    ensures
        final(out)@ == old(out)@ + html_char(c),
{
    let ghost o0 = out@;
    if c == '&' {
        push_char(out, '&');
        push_char(out, 'a');
        push_char(out, 'm');
        push_char(out, 'p');
        push_char(out, ';');
    } else if c == '<' {
        push_char(out, '&');
        push_char(out, 'l');
        push_char(out, 't');
        push_char(out, ';');
    } else if c == '>' {
        push_char(out, '&');
        push_char(out, 'g');
        push_char(out, 't');
        push_char(out, ';');
    } else if c == '"' {
        push_char(out, '&');
        push_char(out, 'q');
        push_char(out, 'u');
        push_char(out, 'o');
        push_char(out, 't');
        push_char(out, ';');
    } else {
        push_char(out, c);
    }
    assert(out@ =~= o0 + html_char(c));
}

/// Escapes `&`, `<`, `>` and `"` so that issue and test texts cannot break
/// the markup.
pub fn html_escape_str(s: &str) -> (r: String)
    ensures
        r@ == html_escape(s@),
{
    let cs = chars_of(s);
    let mut out = String::new();
    let mut i: usize = 0;
    assert(cs@.take(0) =~= Seq::<char>::empty());
    while i < cs.len()
        invariant
            i <= cs@.len(),
            cs@ == s@,
            out@ == html_escape(cs@.take(i as int)),
        decreases cs@.len() - i,
    {
        push_html_char(&mut out, cs[i]);
        assert(cs@.take(i + 1).drop_last() =~= cs@.take(i as int));
        i += 1;
    }
    assert(cs@.take(cs@.len() as int) =~= cs@);
    out
}

// ───────────────────────────── the compile report ─────────────────────────────

/// The document head (with the style sheet) of a compile report.
pub open spec fn html_head(title: Seq<char>) -> Seq<char> {
    "<!DOCTYPE html>\n"@ + "<html>\n<head>\n"@ + "<meta charset=\"UTF-8\">\n"@ + "<title>"@ + title + "</title>\n"@
        + "<style>\n"@ + "body { font-family: Arial, sans-serif; margin: 40px; }\n"@ + "h1 { color: #333; }\n"@
        + ".error { color: #d32f2f; }\n"@ + ".warning { color: #f57c00; }\n"@ + ".info { color: #1976d2; }\n"@
        + "table { border-collapse: collapse; width: 100%; margin: 20px 0; }\n"@
        + "th, td { border: 1px solid #ddd; padding: 12px; text-align: left; }\n"@
        + "th { background-color: #f5f5f5; }\n"@ + "</style>\n"@ + "</head>\n<body>\n"@
}

/// The class and icon of a level's summary item.
pub open spec fn level_style(l: IssueLevel) -> (Seq<char>, Seq<char>) {
    match l {
        IssueLevel::Error => ("error"@, "&#x274C;"@),
        IssueLevel::Warning => ("warning"@, "&#x26A0;"@),
        IssueLevel::Info => ("info"@, "&#x2139;"@),
        IssueLevel::Hint => ("info"@, "&#x1F4A1;"@),
    }
}

/// The summary item of one level, when the level table has an entry for it.
pub open spec fn level_item(t: Seq<(IssueLevel, usize)>, l: IssueLevel) -> Seq<char> {
    if level_index(t, l) < t.len() {
        "<li class=\""@ + level_style(l).0 + "\"><strong>"@ + level_style(l).1 + " "@ + level_name(l) + ":</strong> "@
            + num(t[level_index(t, l) as int].1 as nat) + "</li>\n"@
    } else {
        seq![]
    }
}

/// The class of an issue's row.
pub open spec fn row_class(l: IssueLevel) -> Seq<char> {
    match l {
        IssueLevel::Error => "error"@,
        IssueLevel::Warning => "warning"@,
        _ => "info"@,
    }
}

/// Where an issue is, as the table shows it.
pub open spec fn position_text(l: Location) -> Seq<char> {
    match (l.line_number, l.column_number) {
        (Some(line), Some(col)) => "line "@ + num(line as nat) + ", col "@ + num(col as nat),
        (Some(line), None) => "line "@ + num(line as nat),
        _ => "-"@,
    }
}

/// One issue as a table row.
pub open spec fn issue_row(i: Issue) -> Seq<char> {
    "<tr><td class=\""@ + row_class(i.level) + "\">"@ + level_name(i.level) + (match i.code {
        Some(c) => " ["@ + c@ + "]"@,
        None => seq![],
    }) + "</td><td>"@ + html_escape(i.location.file_path@) + "</td><td>"@ + position_text(i.location) + "</td><td>"@
        + html_escape(i.message@) + "</td></tr>\n"@
}

/// The issues as table rows, in order.
pub open spec fn issue_rows(s: Seq<Issue>) -> Seq<char>
    decreases s.len(),
{
    if s.len() == 0 {
        seq![]
    } else {
        issue_rows(s.drop_last()) + issue_row(s.last())
    }
}

/// The summary list and the table of issues of a result with issues.
pub open spec fn html_details(r: AnalysisResult) -> Seq<char> {
    let t = r.issues_by_level@;
    "<ul>\n"@ + "<li><strong>Total:</strong> "@ + num(r.total_issues as nat) + "</li>\n"@ + level_item(t, IssueLevel::Error)
        + level_item(t, IssueLevel::Warning) + level_item(t, IssueLevel::Info) + level_item(t, IssueLevel::Hint)
        + "<li><strong>Categories:</strong> "@ + num(r.unique_patterns@.len()) + "</li>\n"@
        + "<li><strong>Files Affected:</strong> "@ + num(r.issues_by_file@.len()) + "</li>\n"@ + "</ul>\n"@
        + "<h2>Details</h2>\n"@ + "<table>\n"@
        + "<tr><th>Severity</th><th>File</th><th>Position</th><th>Description</th></tr>\n"@ + issue_rows(
        flat_issues(r.issues_by_file@),
    ) + "</table>\n"@
}

/// The titles of an HTML report on `r` (the generic summary heading is
/// `Summary`).
pub open spec fn html_titles(r: AnalysisResult, o: ReportOptions) -> (Seq<char>, Seq<char>) {
    titles_for(flat_issues(r.issues_by_file@), crate::pattern::opt_view(o.tech_stack), "Summary"@)
}

/// What stands inside `<body>` of a compile report.
pub open spec fn html_content(r: AnalysisResult, o: ReportOptions) -> Seq<char> {
    "<h1>"@ + html_titles(r, o).0 + "</h1>\n"@ + "<h2>"@ + html_titles(r, o).1 + "</h2>\n"@ + if r.total_issues == 0 {
        "<p>&#x2705; No issues found.</p>\n"@
    } else {
        html_details(r)
    }
}

/// The HTML report of `r` under `o`: the confirmation line when nothing was
/// found and the short-circuit is on, else the document.
pub open spec fn html_report(r: AnalysisResult, o: ReportOptions) -> Seq<char> {
    if o.success_short_circuit && r.total_issues == 0 {
        short_circuit_line(o).unwrap()
    } else {
        html_head(html_titles(r, o).0) + html_content(r, o) + "</body>\n</html>"@
    }
}

fn level_item_string(r: &AnalysisResult, l: IssueLevel) -> (s: String)
    ensures
        s@ == level_item(r.issues_by_level@, l),
{
    let k = r.find_level(l);
    if k < r.issues_by_level.len() {
        let (class, icon): (&str, &str) = match l {
            IssueLevel::Error => ("error", "&#x274C;"),
            IssueLevel::Warning => ("warning", "&#x26A0;"),
            IssueLevel::Info => ("info", "&#x2139;"),
            IssueLevel::Hint => ("info", "&#x1F4A1;"),
        };
        let mut s = String::from_str("<li class=\"");
        s.append(class);
        s.append("\"><strong>");
        s.append(icon);
        s.append(" ");
        s.append(l.as_str());
        s.append(":</strong> ");
        let c = num_string(r.issues_by_level[k].1);
        s.append(c.as_str());
        s.append("</li>\n");
        s
    } else {
        String::new()
    }
}

fn position_string(l: &Location) -> (s: String)
    ensures
        s@ == position_text(*l),
{
    match (l.line_number, l.column_number) {
        (Some(line), Some(col)) => {
            let mut s = String::from_str("line ");
            let a = num_string(line as usize);
            s.append(a.as_str());
            s.append(", col ");
            let b = num_string(col as usize);
            s.append(b.as_str());
            s
        },
        (Some(line), None) => {
            let mut s = String::from_str("line ");
            let a = num_string(line as usize);
            s.append(a.as_str());
            s
        },
        _ => String::from_str("-"),
    }
}

fn issue_row_string(i: &Issue) -> (s: String)
    ensures
        s@ == issue_row(*i),
{
    let class: &str = match i.level {
        IssueLevel::Error => "error",
        IssueLevel::Warning => "warning",
        _ => "info",
    };
    let mut s = String::from_str("<tr><td class=\"");
    s.append(class);
    s.append("\">");
    s.append(i.level.as_str());
    match &i.code {
        Some(c) => {
            s.append(" [");
            s.append(c.as_str());
            s.append("]");
        },
        None => {},
    }
    s.append("</td><td>");
    let f = html_escape_str(i.location.file_path.as_str());
    s.append(f.as_str());
    s.append("</td><td>");
    let p = position_string(&i.location);
    s.append(p.as_str());
    s.append("</td><td>");
    let m = html_escape_str(i.message.as_str());
    s.append(m.as_str());
    s.append("</td></tr>\n");
    s
}

fn push_issue_rows(out: &mut String, s: &Vec<Issue>)
    ensures
        final(out)@ == old(out)@ + issue_rows(s@),
{
    let ghost o0 = out@;
    let mut i: usize = 0;
    assert(s@.take(0) =~= Seq::<Issue>::empty());
    while i < s.len()
        invariant
            i <= s@.len(),
            out@ == o0 + issue_rows(s@.take(i as int)),
        decreases s@.len() - i,
    {
        let row = issue_row_string(&s[i]);
        out.append(row.as_str());
        assert(s@.take(i + 1).drop_last() =~= s@.take(i as int));
        assert(s@.take(i + 1).last() == s@[i as int]);
        assert(out@ =~= o0 + issue_rows(s@.take(i + 1)));
        i += 1;
    }
    assert(s@.take(s@.len() as int) =~= s@);
}

fn details_string(r: &AnalysisResult) -> (s: String)
    ensures
        s@ == html_details(*r),
{
    let mut s = String::from_str("<ul>\n");
    s.append("<li><strong>Total:</strong> ");
    let t = num_string(r.total_issues);
    s.append(t.as_str());
    s.append("</li>\n");
    let e = level_item_string(r, IssueLevel::Error);
    s.append(e.as_str());
    let w = level_item_string(r, IssueLevel::Warning);
    s.append(w.as_str());
    let i = level_item_string(r, IssueLevel::Info);
    s.append(i.as_str());
    let h = level_item_string(r, IssueLevel::Hint);
    s.append(h.as_str());
    s.append("<li><strong>Categories:</strong> ");
    let c = num_string(r.unique_patterns.len());
    s.append(c.as_str());
    s.append("</li>\n");
    s.append("<li><strong>Files Affected:</strong> ");
    let f = num_string(r.issues_by_file.len());
    s.append(f.as_str());
    s.append("</li>\n");
    s.append("</ul>\n");
    s.append("<h2>Details</h2>\n");
    s.append("<table>\n");
    s.append("<tr><th>Severity</th><th>File</th><th>Position</th><th>Description</th></tr>\n");
    let all = r.all_issues();
    push_issue_rows(&mut s, &all);
    s.append("</table>\n");
    s
}

fn head_string(title: &str) -> (s: String)
    ensures
        s@ == html_head(title@),
{
    let mut s = String::from_str("<!DOCTYPE html>\n");
    s.append("<html>\n<head>\n");
    s.append("<meta charset=\"UTF-8\">\n");
    s.append("<title>");
    s.append(title);
    s.append("</title>\n");
    s.append("<style>\n");
    s.append("body { font-family: Arial, sans-serif; margin: 40px; }\n");
    s.append("h1 { color: #333; }\n");
    s.append(".error { color: #d32f2f; }\n");
    s.append(".warning { color: #f57c00; }\n");
    s.append(".info { color: #1976d2; }\n");
    s.append("table { border-collapse: collapse; width: 100%; margin: 20px 0; }\n");
    s.append("th, td { border: 1px solid #ddd; padding: 12px; text-align: left; }\n");
    s.append("th { background-color: #f5f5f5; }\n");
    s.append("</style>\n");
    s.append("</head>\n<body>\n");
    s
}

fn content_string(r: &AnalysisResult, o: &ReportOptions, title: &String, summary_title: &String) -> (s: String)
    requires
        (title@, summary_title@) == html_titles(*r, *o),
    ensures
        s@ == html_content(*r, *o),
{
    let mut s = String::from_str("<h1>");
    s.append(title.as_str());
    s.append("</h1>\n");
    s.append("<h2>");
    s.append(summary_title.as_str());
    s.append("</h2>\n");
    if r.total_issues == 0 {
        s.append("<p>&#x2705; No issues found.</p>\n");
    } else {
        let d = details_string(r);
        s.append(d.as_str());
    }
    s
}

fn titles_of(r: &AnalysisResult, o: &ReportOptions) -> (t: (String, String))
    ensures
        (t.0@, t.1@) == html_titles(*r, *o),
{
    let tech: Option<&str> = match &o.tech_stack {
        Some(t) => Some(t.as_str()),
        None => None,
    };
    detect_titles(r, tech, "Summary")
}

// ───────────────────────────── the test report ─────────────────────────────

/// The document head (with the style sheet) of a test report.
pub open spec fn test_head(title: Seq<char>) -> Seq<char> {
    "<!DOCTYPE html>\n"@ + "<html>\n<head>\n"@ + "<meta charset=\"UTF-8\">\n"@ + "<title>"@ + html_escape(title)
        + "</title>\n"@ + "<style>\n"@ + "body { font-family: Arial, sans-serif; margin: 40px; }\n"@
        + "h1 { color: #333; }\n"@ + "h2 { color: #444; margin-top: 30px; }\n"@ + ".error { color: #d32f2f; }\n"@
        + ".warning { color: #f57c00; }\n"@ + ".info { color: #1976d2; }\n"@
        + "table { border-collapse: collapse; width: 100%; margin: 20px 0; }\n"@
        + "th, td { border: 1px solid #ddd; padding: 12px; text-align: left; }\n"@
        + "th { background-color: #f5f5f5; }\n"@ + "pre { background: #f8f8f8; padding: 10px; overflow-x: auto; }\n"@
        + "</style>\n"@ + "</head>\n<body>\n"@ + "<h1>"@ + html_escape(title) + "</h1>\n"@
}

/// The title of a test report.
pub open spec fn test_title(r: TestAnalysisResult) -> Seq<char> {
    if run_passed(r) {
        "Test Report - All Passed"@
    } else {
        "Test Report - Issues Found"@
    }
}

/// The summary list of a test report.
pub open spec fn test_summary_list(s: TestSummary, collected: nat) -> Seq<char> {
    "<h2>Summary</h2>\n"@ + "<ul>\n"@ + "<li><strong>Total:</strong> "@ + num(s.total as nat) + " (calculated: "@ + num(
        collected,
    ) + ")</li>\n"@ + "<li><strong>Passed:</strong> &#x2705; "@ + num(s.passed as nat) + "</li>\n"@
        + "<li><strong>Failed:</strong> &#x274C; "@ + num(s.failed as nat) + "</li>\n"@ + "<li><strong>Ignored:</strong> "@
        + num(s.ignored as nat) + "</li>\n"@ + (match s.execution_time {
        Some(t) => "<li><strong>Duration:</strong> "@ + t@ + "</li>\n"@,
        None => seq![],
    }) + "</ul>\n"@
}

/// A failed test as a table row.
pub open spec fn failed_row(t: TestCase) -> Seq<char> {
    "<tr class=\"error\"><td>"@ + html_escape(t.name@) + "</td><td><pre>"@ + html_escape(
        match t.failure_details {
            Some(d) => d@,
            None => seq![],
        },
    ) + "</pre></td></tr>\n"@
}

/// The reason of an ignored test, as listed.
pub open spec fn reason_text(st: TestStatus) -> Seq<char> {
    match st {
        TestStatus::Ignored(Some(r)) => " - "@ + r@,
        _ => seq![],
    }
}

/// One item per test case: failed rows, ignored items or passed items.
pub open spec fn case_item(k: crate::report::json::CaseList, t: TestCase) -> Seq<char> {
    match k {
        crate::report::json::CaseList::Failed => failed_row(t),
        crate::report::json::CaseList::Ignored => "<li>&#x1F515; "@ + html_escape(t.name@) + html_escape(
            reason_text(t.status),
        ) + "</li>\n"@,
        crate::report::json::CaseList::Passed => "<li>&#x2705; "@ + html_escape(t.name@) + "</li>\n"@,
    }
}

/// The items of a list of test cases, in order.
pub open spec fn case_items(k: crate::report::json::CaseList, s: Seq<TestCase>) -> Seq<char>
    decreases s.len(),
{
    if s.len() == 0 {
        seq![]
    } else {
        case_items(k, s.drop_last()) + case_item(k, s.last())
    }
}

/// The table of failed tests.
pub open spec fn failed_part(f: Seq<TestCase>) -> Seq<char> {
    if f.len() > 0 {
        "<h2>Failed Tests ("@ + num(f.len()) + " item(s))</h2>\n"@ + "<table>\n"@ + "<tr><th>Test</th><th>Details</th></tr>\n"@
            + case_items(crate::report::json::CaseList::Failed, f) + "</table>\n"@
    } else {
        seq![]
    }
}

/// Whether a text holds none of `<`, `>` and `"`.
pub open spec fn free_of_markup(s: Seq<char>) -> bool {
    forall|i: int| 0 <= i < s.len() ==> s[i] != '<' && s[i] != '>' && s[i] != '"'
}

/// Text with none of `&`, `<`, `>`, `"` stands in HTML as it is.
pub proof fn lemma_html_escape_plain(s: Seq<char>)
    requires
        forall|i: int| 0 <= i < s.len() ==> s[i] != '&' && s[i] != '<' && s[i] != '>' && s[i] != '"',
    ensures
        html_escape(s) == s,
    decreases s.len(),
{
    if s.len() > 0 {
        lemma_html_escape_plain(s.drop_last());
        assert(s.drop_last().push(s.last()) =~= s);
        assert(html_char(s.last()) =~= seq![s.last()]);
    }
}

/// The user text of a test (its name, failure details and ignore reason)
/// stands in the HTML test report only escaped: a failed test's row is the
/// fixed row markup around the escaped name and the escaped details, an
/// ignored test's item the fixed item markup around the escaped name and
/// reason, a passed test's item the markup around the escaped name; and an
/// escaped text holds no `<`, `>` or `"`.
pub proof fn lemma_test_items_escape_user_text(t: TestCase)
    ensures
        failed_row(t) == "<tr class=\"error\"><td>"@ + html_escape(t.name@) + "</td><td><pre>"@
            + html_escape(crate::report::raw::details_of(t)) + "</pre></td></tr>\n"@,
        case_item(crate::report::json::CaseList::Failed, t) == failed_row(t),
        case_item(crate::report::json::CaseList::Ignored, t) == "<li>&#x1F515; "@ + html_escape(t.name@)
            + html_escape(reason_text(t.status)) + "</li>\n"@,
        case_item(crate::report::json::CaseList::Passed, t) == "<li>&#x2705; "@ + html_escape(t.name@) + "</li>\n"@,
        free_of_markup(html_escape(t.name@)),
        free_of_markup(html_escape(crate::report::raw::details_of(t))),
        free_of_markup(html_escape(reason_text(t.status))),
{
    lemma_html_escape_no_markup(t.name@);
    lemma_html_escape_no_markup(crate::report::raw::details_of(t));
    lemma_html_escape_no_markup(reason_text(t.status));
    let n = html_escape(t.name@);
    let d = html_escape(crate::report::raw::details_of(t));
    let r = html_escape(reason_text(t.status));
    assert(free_of_markup(n)) by {
        assert forall|i: int| 0 <= i < n.len() implies n[i] != '<' && n[i] != '>' && n[i] != '"' by {
            assert(html_escape(t.name@)[i] == n[i]);
        }
    }
    assert(free_of_markup(d)) by {
        assert forall|i: int| 0 <= i < d.len() implies d[i] != '<' && d[i] != '>' && d[i] != '"' by {
            assert(html_escape(crate::report::raw::details_of(t))[i] == d[i]);
        }
    }
    assert(free_of_markup(r)) by {
        assert forall|i: int| 0 <= i < r.len() implies r[i] != '<' && r[i] != '>' && r[i] != '"' by {
            assert(html_escape(reason_text(t.status))[i] == r[i]);
        }
    }
}

/// The list of ignored tests.
pub open spec fn ignored_part(i: Seq<TestCase>) -> Seq<char> {
    if i.len() > 0 {
        "<h2>Ignored Tests ("@ + num(i.len()) + " item(s))</h2>\n"@ + "<ul>\n"@ + case_items(
            crate::report::json::CaseList::Ignored,
            i,
        ) + "</ul>\n"@
    } else {
        seq![]
    }
}

/// The list of passed tests (their count when there are more than ten).
pub open spec fn passed_part(p: Seq<TestCase>) -> Seq<char> {
    if p.len() > 0 {
        "<h2>Passed Tests ("@ + num(p.len()) + " item(s))</h2>\n"@ + "<ul>\n"@ + (if p.len() <= 10 {
            case_items(crate::report::json::CaseList::Passed, p)
        } else {
            "<li>&#x2705; "@ + num(p.len()) + " tests passed</li>\n"@
        }) + "</ul>\n"@
    } else {
        seq![]
    }
}

/// The sections on failed, ignored and passed tests.
pub open spec fn test_sections(r: TestAnalysisResult) -> Seq<char> {
    failed_part(r.failed_tests@) + ignored_part(r.ignored_tests@) + passed_part(r.passed_tests@)
}

/// The HTML test report of `r` under `o`: never short-circuited; the
/// compile issues, when there are any, are the content of the compile
/// report (under the same tech stack) without its final newline.
pub open spec fn html_test_report(r: TestAnalysisResult, o: ReportOptions) -> Seq<char> {
    test_head(test_title(r)) + (match r.test_summary {
        Some(s) => test_summary_list(s, collected(r)),
        None => seq![],
    }) + test_sections(r) + compile_part(r.compile_result, o) + "</body>\n</html>"@
}

/// The compile issues of a test report: the content of the compile report
/// (under the same tech stack) without its final newline.
pub open spec fn compile_part(r: AnalysisResult, o: ReportOptions) -> Seq<char> {
    let c = html_content(r, o);
    if r.total_issues > 0 {
        "<h2>Compile Issues</h2>\n"@ + c.take(c.len() - 1) + "\n"@
    } else {
        seq![]
    }
}

fn test_head_string(title: &str) -> (s: String)
    ensures
        s@ == test_head(title@),
{
    let t = html_escape_str(title);
    let mut s = String::from_str("<!DOCTYPE html>\n");
    s.append("<html>\n<head>\n");
    s.append("<meta charset=\"UTF-8\">\n");
    s.append("<title>");
    s.append(t.as_str());
    s.append("</title>\n");
    s.append("<style>\n");
    s.append("body { font-family: Arial, sans-serif; margin: 40px; }\n");
    s.append("h1 { color: #333; }\n");
    s.append("h2 { color: #444; margin-top: 30px; }\n");
    s.append(".error { color: #d32f2f; }\n");
    s.append(".warning { color: #f57c00; }\n");
    s.append(".info { color: #1976d2; }\n");
    s.append("table { border-collapse: collapse; width: 100%; margin: 20px 0; }\n");
    s.append("th, td { border: 1px solid #ddd; padding: 12px; text-align: left; }\n");
    s.append("th { background-color: #f5f5f5; }\n");
    s.append("pre { background: #f8f8f8; padding: 10px; overflow-x: auto; }\n");
    s.append("</style>\n");
    s.append("</head>\n<body>\n");
    s.append("<h1>");
    s.append(t.as_str());
    s.append("</h1>\n");
    s
}

fn test_summary_string(s: &TestSummary, collected: usize) -> (r: String)
    ensures
        r@ == test_summary_list(*s, collected as nat),
{
    let mut o = String::from_str("<h2>Summary</h2>\n");
    o.append("<ul>\n");
    o.append("<li><strong>Total:</strong> ");
    let a = num_string(s.total);
    o.append(a.as_str());
    o.append(" (calculated: ");
    let b = num_string(collected);
    o.append(b.as_str());
    o.append(")</li>\n");
    o.append("<li><strong>Passed:</strong> &#x2705; ");
    let c = num_string(s.passed);
    o.append(c.as_str());
    o.append("</li>\n");
    o.append("<li><strong>Failed:</strong> &#x274C; ");
    let d = num_string(s.failed);
    o.append(d.as_str());
    o.append("</li>\n");
    o.append("<li><strong>Ignored:</strong> ");
    let e = num_string(s.ignored);
    o.append(e.as_str());
    o.append("</li>\n");
    match &s.execution_time {
        Some(_) => {
            o.append("<li><strong>Duration:</strong> ");
            let t = s.execution_time_formatted();
            o.append(t.as_str());
            o.append("</li>\n");
        },
        None => {},
    }
    o.append("</ul>\n");
    o
}

fn case_item_string(k: &crate::report::json::CaseList, t: &TestCase) -> (s: String)
    ensures
        s@ == case_item(*k, *t),
{
    match k {
        crate::report::json::CaseList::Failed => {
            let mut s = String::from_str("<tr class=\"error\"><td>");
            let n = html_escape_str(t.name.as_str());
            s.append(n.as_str());
            s.append("</td><td><pre>");
            let d = match &t.failure_details {
                Some(d) => html_escape_str(d.as_str()),
                None => String::new(),
            };
            s.append(d.as_str());
            s.append("</pre></td></tr>\n");
            s
        },
        crate::report::json::CaseList::Ignored => {
            let mut s = String::from_str("<li>&#x1F515; ");
            let n = html_escape_str(t.name.as_str());
            s.append(n.as_str());
            let reason = match &t.status {
                TestStatus::Ignored(Some(r)) => {
                    let mut x = String::from_str(" - ");
                    x.append(r.as_str());
                    x
                },
                _ => String::new(),
            };
            let e = html_escape_str(reason.as_str());
            s.append(e.as_str());
            s.append("</li>\n");
            s
        },
        crate::report::json::CaseList::Passed => {
            let mut s = String::from_str("<li>&#x2705; ");
            let n = html_escape_str(t.name.as_str());
            s.append(n.as_str());
            s.append("</li>\n");
            s
        },
    }
}

fn push_case_items(out: &mut String, k: &crate::report::json::CaseList, s: &Vec<TestCase>)
    ensures
        final(out)@ == old(out)@ + case_items(*k, s@),
{
    let ghost o0 = out@;
    let mut i: usize = 0;
    assert(s@.take(0) =~= Seq::<TestCase>::empty());
    while i < s.len()
        invariant
            i <= s@.len(),
            out@ == o0 + case_items(*k, s@.take(i as int)),
        decreases s@.len() - i,
    {
        let c = case_item_string(k, &s[i]);
        out.append(c.as_str());
        assert(s@.take(i + 1).drop_last() =~= s@.take(i as int));
        assert(s@.take(i + 1).last() == s@[i as int]);
        assert(out@ =~= o0 + case_items(*k, s@.take(i + 1)));
        i += 1;
    }
    assert(s@.take(s@.len() as int) =~= s@);
}

fn failed_part_string(t: &Vec<TestCase>) -> (s: String)
    ensures
        s@ == failed_part(t@),
{
    let mut s = String::new();
    if t.len() > 0 {
        s.append("<h2>Failed Tests (");
        let c = num_string(t.len());
        s.append(c.as_str());
        s.append(" item(s))</h2>\n");
        s.append("<table>\n");
        s.append("<tr><th>Test</th><th>Details</th></tr>\n");
        push_case_items(&mut s, &crate::report::json::CaseList::Failed, t);
        s.append("</table>\n");
    }
    s
}

fn ignored_part_string(t: &Vec<TestCase>) -> (s: String)
    ensures
        s@ == ignored_part(t@),
{
    let mut s = String::new();
    if t.len() > 0 {
        s.append("<h2>Ignored Tests (");
        let c = num_string(t.len());
        s.append(c.as_str());
        s.append(" item(s))</h2>\n");
        s.append("<ul>\n");
        push_case_items(&mut s, &crate::report::json::CaseList::Ignored, t);
        s.append("</ul>\n");
    }
    s
}

fn passed_part_string(t: &Vec<TestCase>) -> (s: String)
    ensures
        s@ == passed_part(t@),
{
    let mut s = String::new();
    if t.len() > 0 {
        s.append("<h2>Passed Tests (");
        let c = num_string(t.len());
        s.append(c.as_str());
        s.append(" item(s))</h2>\n");
        s.append("<ul>\n");
        if t.len() <= 10 {
            push_case_items(&mut s, &crate::report::json::CaseList::Passed, t);
        } else {
            s.append("<li>&#x2705; ");
            s.append(c.as_str());
            s.append(" tests passed</li>\n");
        }
        s.append("</ul>\n");
    }
    s
}

fn sections_string(r: &TestAnalysisResult) -> (s: String)
    ensures
        s@ == test_sections(*r),
{
    let mut s = failed_part_string(&r.failed_tests);
    let i = ignored_part_string(&r.ignored_tests);
    s.append(i.as_str());
    let p = passed_part_string(&r.passed_tests);
    s.append(p.as_str());
    s
}

/// Generates HTML reports.
#[derive(Debug, Clone, Copy)]
pub struct HtmlReporter;

impl HtmlReporter {
    pub fn new() -> (r: HtmlReporter) {
        HtmlReporter
    }

    /// The title and summary heading for a report on `result` (as for
    /// Markdown, with `Summary` as the generic heading).
    pub fn detect_report_type(&self, result: &AnalysisResult, tech_stack: Option<&str>) -> (r: (String, String))
        ensures
            (r.0@, r.1@) == titles_for(flat_issues(result.issues_by_file@), str_opt(tech_stack), "Summary"@),
    {
        detect_titles(result, tech_stack, "Summary")
    }

    /// The report of `result` with the default options.
    pub fn generate(&self, result: &AnalysisResult) -> (r: Result<String, ReporterError>)
        ensures
            r matches Ok(s) && s@ == html_report(*result, ReportOptions::default_value()),
    {
        self.generate_with_options(result, ReportOptions::default())
    }

    /// The report of `result` under `options` (see `html_report`).
    pub fn generate_with_options(&self, result: &AnalysisResult, options: ReportOptions) -> (r: Result<String, ReporterError>)
        ensures
            r matches Ok(s) && s@ == html_report(*result, options),
    {
        if options.success_short_circuit && result.total_issues == 0 {
            match options.short_circuit_message() {
                Some(m) => return Ok(m),
                None => {},
            }
        }
        let (title, summary_title) = titles_of(result, &options);
        let mut s = head_string(title.as_str());
        let c = content_string(result, &options, &title, &summary_title);
        s.append(c.as_str());
        s.append("</body>\n</html>");
        Ok(s)
    }

    /// The test report without options: the compile report of the run.
    pub fn generate_test_report(&self, result: &TestAnalysisResult) -> (r: Result<String, ReporterError>)
        ensures
            r matches Ok(s) && s@ == html_report(result.compile_result, ReportOptions::default_value()),
    {
        self.generate(&result.compile_result)
    }

    /// The test report of `result` under `options` (see `html_test_report`).
    pub fn generate_test_report_with_options(&self, result: &TestAnalysisResult, options: ReportOptions) -> (r: Result<
        String,
        ReporterError,
    >)
        requires
            collected(*result) <= usize::MAX,
        ensures
            r matches Ok(s) && s@ == html_test_report(*result, options),
    {
        let title: &str = if result.all_passed() {
            "Test Report - All Passed"
        } else {
            "Test Report - Issues Found"
        };
        let mut s = test_head_string(title);
        match &result.test_summary {
            Some(summary) => {
                let n = result.collected_tests();
                let t = test_summary_string(summary, n);
                s.append(t.as_str());
            },
            None => {},
        }
        let sec = sections_string(result);
        s.append(sec.as_str());
        let c = compile_part_string(&result.compile_result, &options);
        s.append(c.as_str());
        s.append("</body>\n</html>");
        Ok(s)
    }
}

fn compile_part_string(r: &AnalysisResult, o: &ReportOptions) -> (s: String)
    ensures
        s@ == compile_part(*r, *o),
{
    let mut s = String::new();
    if r.total_issues > 0 {
        s.append("<h2>Compile Issues</h2>\n");
        let (title, summary_title) = titles_of(r, o);
        let c = content_string(r, o, &title, &summary_title);
        let inner = without_last_char(&c);
        s.append(inner.as_str());
        s.append("\n");
    }
    s
}

/// `s` without its last character (unchanged when empty).
fn without_last_char(s: &String) -> (r: String)
    ensures
        s@.len() > 0 ==> r@ == s@.take(s@.len() - 1),
        s@.len() == 0 ==> r@ == s@,
{
    let cs = chars_of(s.as_str());
    if cs.len() == 0 {
        return String::new();
    }
    let r = crate::text::string_from(&cs, 0, cs.len() - 1);
    assert(cs@.subrange(0, cs@.len() - 1) =~= s@.take(s@.len() - 1));
    r
}

impl Default for HtmlReporter {
    fn default() -> (r: HtmlReporter) {
        HtmlReporter
    }
}

} // verus!
