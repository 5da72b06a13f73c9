//! The JSON reporter.

use vstd::prelude::*;
use crate::analysis::errors::ReporterError;
use crate::analysis::result::{entry_views, flat_issues, level_entry, level_index, top_counts, top_of, AnalysisResult};
use crate::analysis::testing::{TestAnalysisResult, TestCase, TestStatus, TestSummary};
use crate::analysis::types::{level_name, Issue, IssueLevel, Verbosity};
use crate::report::common::{num, num_string};
use crate::report::options::{short_circuit_line, ReportOptions};
use crate::text::{chars_of, digit_char, join, join_strings, push_char, views};

verus! {

// ───────────────────────────── escaping ─────────────────────────────

/// A hexadecimal digit (lower case) of `d < 16`.
pub open spec fn hex_digit(d: nat) -> char {
    if d < 10 {
        digit_char(d)
    } else if d == 10 {
        'a'
    } else if d == 11 {
        'b'
    } else if d == 12 {
        'c'
    } else if d == 13 {
        'd'
    } else if d == 14 {
        'e'
    } else {
        'f'
    }
}

/// One character as it stands inside a JSON string literal: quotes,
/// backslashes and control characters escaped.
pub open spec fn escape_char(c: char) -> Seq<char> {
    if c == '"' {
        seq!['\\', '"']
    } else if c == '\\' {
        seq!['\\', '\\']
    } else if c == '\n' {
        seq!['\\', 'n']
    } else if c == '\r' {
        seq!['\\', 'r']
    } else if c == '\t' {
        seq!['\\', 't']
    } else if (c as u32) < 0x20 {
        seq!['\\', 'u', '0', '0', hex_digit((c as u32) as nat / 16), hex_digit((c as u32) as nat % 16)]
    } else {
        seq![c]
    }
}

/// A text as it stands inside a JSON string literal.
pub open spec fn json_escape(s: Seq<char>) -> Seq<char>
    decreases s.len(),
{
    if s.len() == 0 {
        seq![]
    } else {
        json_escape(s.drop_last()) + escape_char(s.last())
    }
}

/// An escaped text holds no control character, so a JSON string literal
/// made of it always parses.
pub proof fn lemma_json_escape_no_control(s: Seq<char>)
    ensures
        forall|i: int| 0 <= i < json_escape(s).len() ==> (#[trigger] json_escape(s)[i] as u32) >= 0x20,
    decreases s.len(),
{
    if s.len() > 0 {
        lemma_json_escape_no_control(s.drop_last());
        let c = s.last();
        let e = escape_char(c);
        assert forall|i: int| 0 <= i < e.len() implies (#[trigger] e[i] as u32) >= 0x20 by {
            if (c as u32) < 0x20 && c != '\n' && c != '\r' && c != '\t' {
                let v = (c as u32) as nat;
                assert(v / 16 < 16 && v % 16 < 16);
            }
        }
        let p = json_escape(s.drop_last());
        assert forall|i: int| 0 <= i < json_escape(s).len() implies (#[trigger] json_escape(s)[i] as u32) >= 0x20 by {
            if i < p.len() {
                assert(json_escape(s)[i] == p[i]);
            } else {
                assert(json_escape(s)[i] == e[i - p.len()]);
            }
        }
    }
}

fn hex(d: u32) -> (c: char)
    requires
        d < 16,
    ensures
        c == hex_digit(d as nat),
{
    if d < 10 {
        crate::text::digit(d as u64)
    } else if d == 10 {
        'a'
    } else if d == 11 {
        'b'
    } else if d == 12 {
        'c'
    } else if d == 13 {
        'd'
    } else if d == 14 {
        'e'
    } else {
        'f'
    }
}

fn push_escaped_char(out: &mut String, c: char)
    ensures
        final(out)@ == old(out)@ + escape_char(c),
{
    let ghost o0 = out@;
    if c == '"' {
        push_char(out, '\\');
        push_char(out, '"');
    } else if c == '\\' {
        push_char(out, '\\');
        push_char(out, '\\');
    } else if c == '\n' {
        push_char(out, '\\');
        push_char(out, 'n');
    } else if c == '\r' {
        push_char(out, '\\');
        push_char(out, 'r');
    } else if c == '\t' {
        push_char(out, '\\');
        push_char(out, 't');
    } else if (c as u32) < 0x20 {
        let v = c as u32;
        push_char(out, '\\');
        push_char(out, 'u');
        push_char(out, '0');
        push_char(out, '0');
        push_char(out, hex(v / 16));
        push_char(out, hex(v % 16));
    } else {
        push_char(out, c);
    }
    assert(out@ =~= o0 + escape_char(c));
}

/// Escapes a text for a JSON string literal: quotes, backslashes,
/// newlines, carriage returns and tabs by their short escapes, every other
/// control character as `\u00XX`.
pub fn escape_json_str(s: &str) -> (r: String)
    ensures
        r@ == json_escape(s@),
{
    let cs = chars_of(s);
    let mut out = String::new();
    let mut i: usize = 0;
    assert(cs@.take(0) =~= Seq::<char>::empty());
    while i < cs.len()
        invariant
            i <= cs@.len(),
            cs@ == s@,
            out@ == json_escape(cs@.take(i as int)),
        decreases cs@.len() - i,
    {
        push_escaped_char(&mut out, cs[i]);
        assert(cs@.take(i + 1).drop_last() =~= cs@.take(i as int));
        i += 1;
    }
    assert(cs@.take(cs@.len() as int) =~= cs@);
    out
}

// ───────────────────────────── the compile report ─────────────────────────────

/// `,` after every entry but the last.
pub open spec fn comma(more: bool) -> Seq<char> {
    if more {
        ","@
    } else {
        seq![]
    }
}

/// The entry of one level under `summary_by_level`, when the level table has one.
pub open spec fn level_part(t: Seq<(IssueLevel, usize)>, l: IssueLevel) -> Seq<Seq<char>> {
    if level_index(t, l) < t.len() {
        seq!["    \""@ + level_name(l) + "\": "@ + num(t[level_index(t, l) as int].1 as nat)]
    } else {
        seq![]
    }
}

/// The level entries, from the most to the least severe.
pub open spec fn level_parts(t: Seq<(IssueLevel, usize)>) -> Seq<Seq<char>> {
    level_part(t, IssueLevel::Error) + level_part(t, IssueLevel::Warning) + level_part(t, IssueLevel::Info) + level_part(
        t,
        IssueLevel::Hint,
    )
}

/// The lines of an object from names to counts (`total` entries in all).
pub open spec fn category_lines(s: Seq<(Seq<char>, usize)>, total: nat) -> Seq<char>
    decreases s.len(),
{
    if s.len() == 0 {
        seq![]
    } else {
        category_lines(s.drop_last(), total) + "    \""@ + json_escape(s.last().0) + "\": "@ + num(s.last().1 as nat)
            + comma(s.len() < total) + "\n"@
    }
}

/// The lines of the array of top error codes (`total` entries in all).
pub open spec fn code_lines(s: Seq<(Seq<char>, usize)>, total: nat) -> Seq<char>
    decreases s.len(),
{
    if s.len() == 0 {
        seq![]
    } else {
        code_lines(s.drop_last(), total) + "    {\"code\": \""@ + json_escape(s.last().0) + "\", \"count\": "@ + num(
            s.last().1 as nat,
        ) + "}"@ + comma(s.len() < total) + "\n"@
    }
}

/// The severity, code and message members of an item.
pub open spec fn item_head(i: Issue) -> Seq<char> {
    "    {\n"@ + "      \"severity\": \""@ + level_name(i.level) + "\",\n"@ + (match i.code {
        Some(c) => "      \"code\": \""@ + c@ + "\",\n"@,
        None => seq![],
    }) + "      \"message\": \""@ + json_escape(i.message@) + "\",\n"@
}

/// The location member of an item.
pub open spec fn location_json(l: crate::analysis::types::Location) -> Seq<char> {
    "      \"location\": {\n"@ + "        \"file\": \""@ + json_escape(l.file_path@) + "\""@ + (match l.line_number {
        Some(n) => ",\n        \"line\": "@ + num(n as nat),
        None => seq![],
    }) + (match l.column_number {
        Some(c) => ",\n        \"column\": "@ + num(c as nat),
        None => seq![],
    }) + "\n      }\n"@
}

/// One issue as an object of the `items` array.
pub open spec fn item_json(i: Issue, more: bool) -> Seq<char> {
    item_head(i) + location_json(i.location) + "    }"@ + comma(more) + "\n"@
}

/// The objects of the `items` array (`total` in all).
pub open spec fn item_lines(s: Seq<Issue>, total: nat) -> Seq<char>
    decreases s.len(),
{
    if s.len() == 0 {
        seq![]
    } else {
        item_lines(s.drop_last(), total) + item_json(s.last(), s.len() < total)
    }
}

/// The JSON document of a compile report.
pub open spec fn json_body(r: AnalysisResult) -> Seq<char> {
    let types = r.issues_by_type@;
    let top = top_of(r.issues_by_code@, 5);
    let items = flat_issues(r.issues_by_file@);
    "{\n"@ + "  \"metadata\": {\n"@ + "    \"total\": "@ + num(r.total_issues as nat) + ",\n"@ + "    \"categories\": "@
        + num(r.unique_patterns@.len()) + ",\n"@ + "    \"files_affected\": "@ + num(r.issues_by_file@.len()) + "\n"@
        + "  },\n"@ + "  \"summary_by_level\": {\n"@ + join(level_parts(r.issues_by_level@), ",\n"@) + "\n  },\n"@
        + (if types.len() == 0 {
        seq![]
    } else {
        "  \"summary_by_category\": {\n"@ + category_lines(top_of(types, types.len()), types.len()) + "  },\n"@
    }) + (if top.len() == 0 {
        seq![]
    } else {
        "  \"top_error_codes\": [\n"@ + code_lines(top, top.len()) + "  ],\n"@
    }) + "  \"items\": [\n"@ + item_lines(items, items.len()) + "  ]\n"@ + "}"@
}

/// The JSON report of `r` under `o`: the confirmation line when nothing
/// was found and the short-circuit is on, else the document.
pub open spec fn json_report(r: AnalysisResult, o: ReportOptions) -> Seq<char> {
    if o.success_short_circuit && r.total_issues == 0 {
        short_circuit_line(o).unwrap()
    } else {
        json_body(r)
    }
}

fn level_strings(r: &AnalysisResult) -> (v: Vec<String>)
    ensures
        views(v@) == level_parts(r.issues_by_level@),
{
    let mut v: Vec<String> = Vec::new();
    let levels = [IssueLevel::Error, IssueLevel::Warning, IssueLevel::Info, IssueLevel::Hint];
    let ghost t = r.issues_by_level@;
    let mut i: usize = 0;
    while i < 4
        invariant
            i <= 4,
            t == r.issues_by_level@,
            levels@ == seq![IssueLevel::Error, IssueLevel::Warning, IssueLevel::Info, IssueLevel::Hint],
            views(v@) == (if i == 0 {
                Seq::<Seq<char>>::empty()
            } else if i == 1 {
                level_part(t, IssueLevel::Error)
            } else if i == 2 {
                level_part(t, IssueLevel::Error) + level_part(t, IssueLevel::Warning)
            } else if i == 3 {
                level_part(t, IssueLevel::Error) + level_part(t, IssueLevel::Warning) + level_part(t, IssueLevel::Info)
            } else {
                level_parts(t)
            }),
        decreases 4 - i,
    {
        let l = levels[i];
        let k = r.find_level(l);
        let ghost v0 = v@;
        if k < r.issues_by_level.len() {
            let mut s = String::from_str("    \"");
            s.append(l.as_str());
            s.append("\": ");
            let c = num_string(r.issues_by_level[k].1);
            s.append(c.as_str());
            v.push(s);
            assert(views(v@) =~= views(v0) + level_part(t, l));
        } else {
            assert(views(v@) =~= views(v0) + level_part(t, l));
        }
        i += 1;
    }
    v
}

fn push_category_lines(out: &mut String, t: &Vec<(String, usize)>)
    ensures
        final(out)@ == old(out)@ + category_lines(entry_views(t@), t@.len()),
{
    let ghost o0 = out@;
    let ghost ev = entry_views(t@);
    let mut i: usize = 0;
    assert(ev.take(0) =~= Seq::<(Seq<char>, usize)>::empty());
    while i < t.len()
        invariant
            i <= t@.len(),
            ev == entry_views(t@),
            out@ == o0 + category_lines(ev.take(i as int), t@.len()),
        decreases t@.len() - i,
    {
        let e = &t[i];
        out.append("    \"");
        let k = escape_json_str(e.0.as_str());
        out.append(k.as_str());
        out.append("\": ");
        let c = num_string(e.1);
        out.append(c.as_str());
        if i + 1 < t.len() {
            out.append(",");
        }
        out.append("\n");
        assert(ev.take(i + 1).drop_last() =~= ev.take(i as int));
        assert(ev.take(i + 1).last() == (e.0@, e.1));
        assert(out@ =~= o0 + category_lines(ev.take(i + 1), t@.len()));
        i += 1;
    }
    assert(ev.take(t@.len() as int) =~= ev);
}

fn push_code_lines(out: &mut String, t: &Vec<(String, usize)>)
    ensures
        final(out)@ == old(out)@ + code_lines(entry_views(t@), t@.len()),
{
    let ghost o0 = out@;
    let ghost ev = entry_views(t@);
    let mut i: usize = 0;
    assert(ev.take(0) =~= Seq::<(Seq<char>, usize)>::empty());
    while i < t.len()
        invariant
            i <= t@.len(),
            ev == entry_views(t@),
            out@ == o0 + code_lines(ev.take(i as int), t@.len()),
        decreases t@.len() - i,
    {
        let e = &t[i];
        out.append("    {\"code\": \"");
        let k = escape_json_str(e.0.as_str());
        out.append(k.as_str());
        out.append("\", \"count\": ");
        let c = num_string(e.1);
        out.append(c.as_str());
        out.append("}");
        if i + 1 < t.len() {
            out.append(",");
        }
        out.append("\n");
        assert(ev.take(i + 1).drop_last() =~= ev.take(i as int));
        assert(ev.take(i + 1).last() == (e.0@, e.1));
        assert(out@ =~= o0 + code_lines(ev.take(i + 1), t@.len()));
        i += 1;
    }
    assert(ev.take(t@.len() as int) =~= ev);
}

fn item_head_string(i: &Issue) -> (r: String)
    ensures
        r@ == item_head(*i),
{
    let mut s = String::from_str("    {\n");
    s.append("      \"severity\": \"");
    s.append(i.level.as_str());
    s.append("\",\n");
    match &i.code {
        Some(c) => {
            s.append("      \"code\": \"");
            s.append(c.as_str());
            s.append("\",\n");
        },
        None => {},
    }
    s.append("      \"message\": \"");
    let m = escape_json_str(i.message.as_str());
    s.append(m.as_str());
    s.append("\",\n");
    s
}

fn location_json_string(l: &crate::analysis::types::Location) -> (r: String)
    ensures
        r@ == location_json(*l),
{
    let mut s = String::from_str("      \"location\": {\n");
    s.append("        \"file\": \"");
    let f = escape_json_str(l.file_path.as_str());
    s.append(f.as_str());
    s.append("\"");
    match l.line_number {
        Some(n) => {
            s.append(",\n        \"line\": ");
            let t = num_string(n as usize);
            s.append(t.as_str());
        },
        None => {},
    }
    match l.column_number {
        Some(c) => {
            s.append(",\n        \"column\": ");
            let t = num_string(c as usize);
            s.append(t.as_str());
        },
        None => {},
    }
    s.append("\n      }\n");
    s
}

fn item_string(i: &Issue, more: bool) -> (r: String)
    ensures
        r@ == item_json(*i, more),
{
    let mut s = item_head_string(i);
    let l = location_json_string(&i.location);
    s.append(l.as_str());
    s.append("    }");
    if more {
        s.append(",");
    }
    s.append("\n");
    s
}

fn push_item_lines(out: &mut String, s: &Vec<Issue>)
    ensures
        final(out)@ == old(out)@ + item_lines(s@, s@.len()),
{
    let ghost o0 = out@;
    let mut i: usize = 0;
    assert(s@.take(0) =~= Seq::<Issue>::empty());
    while i < s.len()
        invariant
            i <= s@.len(),
            out@ == o0 + item_lines(s@.take(i as int), s@.len()),
        decreases s@.len() - i,
    {
        let it = item_string(&s[i], i + 1 < s.len());
        out.append(it.as_str());
        assert(s@.take(i + 1).drop_last() =~= s@.take(i as int));
        assert(s@.take(i + 1).last() == s@[i as int]);
        assert(out@ =~= o0 + item_lines(s@.take(i + 1), s@.len()));
        i += 1;
    }
    assert(s@.take(s@.len() as int) =~= s@);
}

fn body_string(r: &AnalysisResult) -> (s: String)
    ensures
        s@ == json_body(*r),
{
    let mut s = String::from_str("{\n");
    s.append("  \"metadata\": {\n");
    s.append("    \"total\": ");
    let t = num_string(r.total_issues);
    s.append(t.as_str());
    s.append(",\n");
    s.append("    \"categories\": ");
    let c = num_string(r.unique_patterns.len());
    s.append(c.as_str());
    s.append(",\n");
    s.append("    \"files_affected\": ");
    let f = num_string(r.issues_by_file.len());
    s.append(f.as_str());
    s.append("\n");
    s.append("  },\n");
    s.append("  \"summary_by_level\": {\n");
    let parts = level_strings(r);
    let lv = join_strings(&parts, ",\n");
    s.append(lv.as_str());
    s.append("\n  },\n");
    if r.issues_by_type.len() > 0 {
        s.append("  \"summary_by_category\": {\n");
        let types = top_counts(&r.issues_by_type, r.issues_by_type.len());
        push_category_lines(&mut s, &types);
        s.append("  },\n");
    }
    let top = r.top_error_codes(5);
    if top.len() > 0 {
        s.append("  \"top_error_codes\": [\n");
        push_code_lines(&mut s, &top);
        s.append("  ],\n");
    }
    s.append("  \"items\": [\n");
    let items = r.all_issues();
    push_item_lines(&mut s, &items);
    s.append("  ]\n");
    s.append("}");
    s
}

// ───────────────────────────── the test report ─────────────────────────────

/// `"execution_time": <time or null>` line of a test case.
pub open spec fn time_line(t: Option<String>) -> Seq<char> {
    "      \"execution_time\": "@ + (match t {
        Some(t) => t@,
        None => "null"@,
    }) + "\n"@
}

/// `"name": "<escaped name>",` line of a test case.
pub open spec fn name_line(t: TestCase) -> Seq<char> {
    "      \"name\": \""@ + json_escape(t.name@) + "\",\n"@
}

/// A failed test as an object.
pub open spec fn failed_json(t: TestCase, more: bool) -> Seq<char> {
    "    {\n"@ + name_line(t) + (match t.failure_details {
        Some(d) => "      \"failure_details\": \""@ + json_escape(d@) + "\",\n"@,
        None => seq![],
    }) + time_line(t.execution_time) + "    }"@ + comma(more) + "\n"@
}

/// A passed test as an object.
pub open spec fn passed_json(t: TestCase, more: bool) -> Seq<char> {
    "    {\n"@ + name_line(t) + time_line(t.execution_time) + "    }"@ + comma(more) + "\n"@
}

/// The reason an ignored test was skipped (empty when none was given).
pub open spec fn ignore_reason(st: TestStatus) -> Seq<char> {
    match st {
        TestStatus::Ignored(Some(r)) => r@,
        _ => seq![],
    }
}

/// An ignored test as an object.
pub open spec fn ignored_json(t: TestCase, more: bool) -> Seq<char> {
    "    {\n"@ + name_line(t) + (if ignore_reason(t.status).len() > 0 {
        "      \"reason\": \""@ + json_escape(ignore_reason(t.status)) + "\",\n"@
    } else {
        seq![]
    }) + time_line(t.execution_time) + "    }"@ + comma(more) + "\n"@
}

/// Which list a test case belongs to, for rendering.
pub enum CaseList {
    Failed,
    Passed,
    Ignored,
}

/// One test case rendered for its list.
pub open spec fn case_json(k: CaseList, t: TestCase, more: bool) -> Seq<char> {
    match k {
        CaseList::Failed => failed_json(t, more),
        CaseList::Passed => passed_json(t, more),
        CaseList::Ignored => ignored_json(t, more),
    }
}

/// The entries of a list of test cases (`total` in all).
pub open spec fn case_lines(k: CaseList, s: Seq<TestCase>, total: nat) -> Seq<char>
    decreases s.len(),
{
    if s.len() == 0 {
        seq![]
    } else {
        case_lines(k, s.drop_last(), total) + case_json(k, s.last(), s.len() < total)
    }
}

/// The `test_summary` member.
pub open spec fn summary_json(s: Option<TestSummary>) -> Seq<char> {
    match s {
        Some(s) => "  \"test_summary\": {\n"@ + "    \"total\": "@ + num(s.total as nat) + ",\n"@ + "    \"passed\": "@ + num(
            s.passed as nat,
        ) + ",\n"@ + "    \"failed\": "@ + num(s.failed as nat) + ",\n"@ + "    \"ignored\": "@ + num(s.ignored as nat)
            + ",\n"@ + "    \"measured\": "@ + num(s.measured as nat) + ",\n"@ + "    \"filtered\": "@ + num(
            s.filtered as nat,
        ) + "\n"@ + "  },\n"@,
        None => "  \"test_summary\": null,\n"@,
    }
}

/// The number of tests: the runner's total, else the collected cases.
pub open spec fn total_tests_of(r: TestAnalysisResult) -> nat {
    match r.test_summary {
        Some(s) => s.total as nat,
        None => r.passed_tests@.len() + r.failed_tests@.len() + r.ignored_tests@.len(),
    }
}

/// The `metadata` member of a test report.
pub open spec fn test_metadata(r: TestAnalysisResult) -> Seq<char> {
    "  \"metadata\": {\n"@ + "    \"total_issues\": "@ + num(r.compile_result.total_issues as nat) + ",\n"@
        + "    \"compile_errors\": "@ + num(level_entry(r.compile_result.issues_by_level@, IssueLevel::Error)) + ",\n"@
        + "    \"compile_warnings\": "@ + num(level_entry(r.compile_result.issues_by_level@, IssueLevel::Warning))
        + ",\n"@ + "    \"total_tests\": "@ + num(total_tests_of(r)) + ",\n"@ + "    \"collected_tests\": "@ + num(
        r.passed_tests@.len() + r.failed_tests@.len() + r.ignored_tests@.len(),
    ) + "\n"@ + "  },\n"@
}

/// The JSON test report of `r`: metadata, the runner's summary, the failed,
/// passed and ignored cases, and the compile report (never short-circuited).
pub open spec fn json_test_report(r: TestAnalysisResult) -> Seq<char> {
    "{\n"@ + test_metadata(r) + summary_json(r.test_summary) + "  \"failed_tests\": [\n"@ + case_lines(
        CaseList::Failed,
        r.failed_tests@,
        r.failed_tests@.len(),
    ) + "  ],\n"@ + "  \"passed_tests\": [\n"@ + case_lines(CaseList::Passed, r.passed_tests@, r.passed_tests@.len())
        + "  ],\n"@ + "  \"ignored_tests\": [\n"@ + case_lines(
        CaseList::Ignored,
        r.ignored_tests@,
        r.ignored_tests@.len(),
    ) + "  ],\n"@ + "  \"compile_issues\": "@ + json_body(r.compile_result) + "\n"@ + "}"@
}

fn time_line_string(t: &Option<String>) -> (r: String)
    ensures
        r@ == time_line(*t),
{
    let mut s = String::from_str("      \"execution_time\": ");
    match t {
        Some(x) => s.append(x.as_str()),
        None => s.append("null"),
    }
    s.append("\n");
    s
}

fn name_line_string(t: &TestCase) -> (r: String)
    ensures
        r@ == name_line(*t),
{
    let mut s = String::from_str("      \"name\": \"");
    let n = escape_json_str(t.name.as_str());
    s.append(n.as_str());
    s.append("\",\n");
    s
}

fn failed_string(t: &TestCase, more: bool) -> (r: String)
    ensures
        r@ == failed_json(*t, more),
{
    let mut s = String::from_str("    {\n");
    let n = name_line_string(t);
    s.append(n.as_str());
    match &t.failure_details {
        Some(d) => {
            s.append("      \"failure_details\": \"");
            let e = escape_json_str(d.as_str());
            s.append(e.as_str());
            s.append("\",\n");
        },
        None => {},
    }
    let tl = time_line_string(&t.execution_time);
    s.append(tl.as_str());
    s.append("    }");
    if more {
        s.append(",");
    }
    s.append("\n");
    s
}

fn passed_string(t: &TestCase, more: bool) -> (r: String)
    ensures
        r@ == passed_json(*t, more),
{
    let mut s = String::from_str("    {\n");
    let n = name_line_string(t);
    s.append(n.as_str());
    let tl = time_line_string(&t.execution_time);
    s.append(tl.as_str());
    s.append("    }");
    if more {
        s.append(",");
    }
    s.append("\n");
    s
}

fn reason_of(st: &TestStatus) -> (r: String)
    ensures
        r@ == ignore_reason(*st),
{
    match st {
        TestStatus::Ignored(Some(r)) => r.clone(),
        _ => String::new(),
    }
}

fn ignored_string(t: &TestCase, more: bool) -> (r: String)
    ensures
        r@ == ignored_json(*t, more),
{
    let mut s = String::from_str("    {\n");
    let nl = name_line_string(t);
    s.append(nl.as_str());
    let reason = reason_of(&t.status);
    if !reason.as_str().is_empty() {
        s.append("      \"reason\": \"");
        let e = escape_json_str(reason.as_str());
        s.append(e.as_str());
        s.append("\",\n");
    }
    let tl = time_line_string(&t.execution_time);
    s.append(tl.as_str());
    s.append("    }");
    if more {
        s.append(",");
    }
    s.append("\n");
    s
}

fn case_string(k: &CaseList, t: &TestCase, more: bool) -> (r: String)
    ensures
        r@ == case_json(*k, *t, more),
{
    match k {
        CaseList::Failed => failed_string(t, more),
        CaseList::Passed => passed_string(t, more),
        CaseList::Ignored => ignored_string(t, more),
    }
}

fn push_case_lines(out: &mut String, k: &CaseList, s: &Vec<TestCase>)
    ensures
        final(out)@ == old(out)@ + case_lines(*k, s@, s@.len()),
{
    let ghost o0 = out@;
    let mut i: usize = 0;
    assert(s@.take(0) =~= Seq::<TestCase>::empty());
    while i < s.len()
        invariant
            i <= s@.len(),
            out@ == o0 + case_lines(*k, s@.take(i as int), s@.len()),
        decreases s@.len() - i,
    {
        let c = case_string(k, &s[i], i + 1 < s.len());
        out.append(c.as_str());
        assert(s@.take(i + 1).drop_last() =~= s@.take(i as int));
        assert(s@.take(i + 1).last() == s@[i as int]);
        assert(out@ =~= o0 + case_lines(*k, s@.take(i + 1), s@.len()));
        i += 1;
    }
    assert(s@.take(s@.len() as int) =~= s@);
}

fn summary_json_string(s: &Option<TestSummary>) -> (r: String)
    ensures
        r@ == summary_json(*s),
{
    match s {
        Some(s) => {
            let mut o = String::from_str("  \"test_summary\": {\n");
            o.append("    \"total\": ");
            let a = num_string(s.total);
            o.append(a.as_str());
            o.append(",\n");
            o.append("    \"passed\": ");
            let b = num_string(s.passed);
            o.append(b.as_str());
            o.append(",\n");
            o.append("    \"failed\": ");
            let c = num_string(s.failed);
            o.append(c.as_str());
            o.append(",\n");
            o.append("    \"ignored\": ");
            let d = num_string(s.ignored);
            o.append(d.as_str());
            o.append(",\n");
            o.append("    \"measured\": ");
            let e = num_string(s.measured);
            o.append(e.as_str());
            o.append(",\n");
            o.append("    \"filtered\": ");
            let f = num_string(s.filtered);
            o.append(f.as_str());
            o.append("\n");
            o.append("  },\n");
            o
        },
        None => String::from_str("  \"test_summary\": null,\n"),
    }
}

fn test_metadata_string(r: &TestAnalysisResult) -> (s: String)
    requires
        r.passed_tests@.len() + r.failed_tests@.len() + r.ignored_tests@.len() <= usize::MAX,
    ensures
        s@ == test_metadata(*r),
{
    let mut s = String::from_str("  \"metadata\": {\n");
    s.append("    \"total_issues\": ");
    let a = num_string(r.compile_result.total_issues);
    s.append(a.as_str());
    s.append(",\n");
    s.append("    \"compile_errors\": ");
    let b = num_string(r.compile_result.level_count(IssueLevel::Error));
    s.append(b.as_str());
    s.append(",\n");
    s.append("    \"compile_warnings\": ");
    let c = num_string(r.compile_result.level_count(IssueLevel::Warning));
    s.append(c.as_str());
    s.append(",\n");
    s.append("    \"total_tests\": ");
    let d = num_string(r.total_tests());
    s.append(d.as_str());
    s.append(",\n");
    s.append("    \"collected_tests\": ");
    let e = num_string(r.collected_tests());
    s.append(e.as_str());
    s.append("\n");
    s.append("  },\n");
    s
}

/// Generates JSON reports.
#[derive(Debug, Clone, Copy)]
pub struct JsonReporter;

impl JsonReporter {
    pub fn new() -> (r: JsonReporter) {
        JsonReporter
    }

    /// The report of `result` with the default options.
    pub fn generate(&self, result: &AnalysisResult) -> (r: Result<String, ReporterError>)
        ensures
            r matches Ok(s) && s@ == json_report(*result, ReportOptions::default_value()),
    {
        self.generate_with_options(result, ReportOptions::default())
    }

    /// The report of `result` under `options` (see `json_report`).
    pub fn generate_with_options(&self, result: &AnalysisResult, options: ReportOptions) -> (r: Result<String, ReporterError>)
        ensures
            r matches Ok(s) && s@ == json_report(*result, options),
    {
        if options.success_short_circuit && result.total_issues == 0 {
            match options.short_circuit_message() {
                Some(m) => return Ok(m),
                None => {},
            }
        }
        Ok(body_string(result))
    }

    /// The test report of `result` (see `json_test_report`).
    pub fn generate_test_report(&self, result: &TestAnalysisResult) -> (r: Result<String, ReporterError>)
        requires
            result.passed_tests@.len() + result.failed_tests@.len() + result.ignored_tests@.len() <= usize::MAX,
        ensures
            r matches Ok(s) && s@ == json_test_report(*result),
    {
        self.generate_test_report_with_options(result, ReportOptions::default())
    }

    /// The test report of `result`; the options do not apply (a test report
    /// is never short-circuited).
    pub fn generate_test_report_with_options(&self, result: &TestAnalysisResult, options: ReportOptions) -> (r: Result<
        String,
        ReporterError,
    >)
        requires
            result.passed_tests@.len() + result.failed_tests@.len() + result.ignored_tests@.len() <= usize::MAX,
        ensures
            r matches Ok(s) && s@ == json_test_report(*result),
    {
        let mut s = String::from_str("{\n");
        let m = test_metadata_string(result);
        s.append(m.as_str());
        let sm = summary_json_string(&result.test_summary);
        s.append(sm.as_str());
        s.append("  \"failed_tests\": [\n");
        push_case_lines(&mut s, &CaseList::Failed, &result.failed_tests);
        s.append("  ],\n");
        s.append("  \"passed_tests\": [\n");
        push_case_lines(&mut s, &CaseList::Passed, &result.passed_tests);
        s.append("  ],\n");
        s.append("  \"ignored_tests\": [\n");
        push_case_lines(&mut s, &CaseList::Ignored, &result.ignored_tests);
        s.append("  ],\n");
        s.append("  \"compile_issues\": ");
        let c = body_string(&result.compile_result);
        s.append(c.as_str());
        s.append("\n");
        s.append("}");
        Ok(s)
    }
}

impl Default for JsonReporter {
    fn default() -> (r: JsonReporter) {
        JsonReporter
    }
}

} // verus!
