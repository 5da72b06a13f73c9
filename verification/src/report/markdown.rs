//! The Markdown reporter.

use vstd::prelude::*;
use crate::analysis::errors::ReporterError;
use crate::analysis::result::{entry_views, flat_issues, group_by_file, group_views, level_index, top_counts, top_of, AnalysisResult};
use crate::analysis::testing::{TestAnalysisResult, TestCase, TestStatus, TestSummary};
use crate::analysis::types::{level_name, Issue, IssueLevel, Location, Verbosity};
use crate::report::common::{
    group_issues_by_file, group_rank, icon_of, level_icon, location_string,
    location_text, num, num_string, rank_groups,
};
use crate::report::options::{short_circuit_line, ReportOptions};
use crate::text::{contains, lowercase, str_contains, str_eq, to_lowercase};

verus! {

// ───────────────────────────── titles ─────────────────────────────

/// Words in a (lower-cased) message that mark a security audit.
pub open spec fn security_message(m: Seq<char>) -> bool {
    contains(m, "security vulnerability"@) || contains(m, "severity: high"@) || contains(m, "severity: critical"@)
        || contains(m, "npm audit"@)
}

/// Words in a (lower-cased) message that mark a type check.
pub open spec fn type_message(m: Seq<char>) -> bool {
    contains(m, "type"@) || contains(m, "typescript"@) || contains(m, "type mismatch"@) || contains(m, "expected"@)
        || contains(m, "mypy"@)
}

/// Words in a (lower-cased) message that mark a lint run.
pub open spec fn lint_message(m: Seq<char>) -> bool {
    contains(m, "eslint"@) || contains(m, "clippy"@) || contains(m, "lint"@) || contains(m, "style"@)
}

/// Some issue's lower-cased message is a security message.
pub open spec fn any_security(s: Seq<Issue>) -> bool {
    exists|i: int| 0 <= i < s.len() && security_message(lowercase(#[trigger] s[i].message@))
}

/// Some issue's lower-cased message is a type-check message.
pub open spec fn any_type(s: Seq<Issue>) -> bool {
    exists|i: int| 0 <= i < s.len() && type_message(lowercase(#[trigger] s[i].message@))
}

/// Some issue's lower-cased message is a lint message.
pub open spec fn any_lint(s: Seq<Issue>) -> bool {
    exists|i: int| 0 <= i < s.len() && lint_message(lowercase(#[trigger] s[i].message@))
}

/// The title and summary heading of a report on `issues`: the tech stack
/// decides first (RuboCop, RSpec), then the messages (security audit, type
/// check, lint), else a generic analysis report whose summary heading is
/// `fallback`.
pub open spec fn titles_for(issues: Seq<Issue>, tech: Option<Seq<char>>, fallback: Seq<char>) -> (Seq<char>, Seq<char>) {
    let ts = match tech {
        Some(t) => lowercase(t),
        None => seq![],
    };
    if tech is Some && (contains(ts, "rubocop"@) || contains(ts, "ruby"@) || contains(ts, "rails"@)) {
        ("RuboCop Report"@, "RuboCop Issues Summary"@)
    } else if tech is Some && contains(ts, "rspec"@) {
        ("RSpec Report"@, "Test Issues Summary"@)
    } else if any_security(issues) {
        ("Security Audit Report"@, "Vulnerability Summary"@)
    } else if any_type(issues) {
        ("Type Check Report"@, "Type Issues Summary"@)
    } else if any_lint(issues) {
        ("Lint Report"@, "Lint Issues Summary"@)
    } else {
        ("Analysis Report"@, fallback)
    }
}

/// Words of type checking mark a type-check report: when some issue's
/// lower-cased message contains `type`, `expected` or `mypy`, no message
/// speaks of a security vulnerability, high or critical severity or
/// `npm audit`, and the tech stack names neither RuboCop, Ruby, Rails nor
/// RSpec, the title is "Type Check Report" and the summary heading "Type
/// Issues Summary", whatever the fallback heading.
pub proof fn lemma_type_words_make_type_check(issues: Seq<Issue>, tech: Option<Seq<char>>, fallback: Seq<char>, k: int, word: Seq<char>)
    requires
        0 <= k < issues.len(),
        word == "type"@ || word == "expected"@ || word == "mypy"@,
        contains(lowercase(issues[k].message@), word),
        forall|i: int| 0 <= i < issues.len() ==> {
            let m = #[trigger] lowercase(issues[i].message@);
            !contains(m, "security vulnerability"@) && !contains(m, "severity: high"@)
                && !contains(m, "severity: critical"@) && !contains(m, "npm audit"@)
        },
        tech matches Some(t) ==> !contains(lowercase(t), "rubocop"@) && !contains(lowercase(t), "ruby"@)
            && !contains(lowercase(t), "rails"@) && !contains(lowercase(t), "rspec"@),
    ensures
        titles_for(issues, tech, fallback) == ("Type Check Report"@, "Type Issues Summary"@),
{
    assert(type_message(lowercase(issues[k].message@)));
    assert(any_type(issues));
    if any_security(issues) {
        let i = choose|i: int| 0 <= i < issues.len() && security_message(lowercase(#[trigger] issues[i].message@));
        assert(!security_message(lowercase(issues[i].message@)));
    }
}

/// Security words come first: when some issue's lower-cased message speaks
/// of a security vulnerability, high or critical severity or `npm audit`,
/// and the tech stack names neither RuboCop, Ruby, Rails nor RSpec, the
/// report is a security audit ("Vulnerability Summary"), whatever else the
/// messages say.
pub proof fn lemma_security_words_make_audit(issues: Seq<Issue>, tech: Option<Seq<char>>, fallback: Seq<char>, k: int, word: Seq<char>)
    requires
        0 <= k < issues.len(),
        word == "security vulnerability"@ || word == "severity: high"@ || word == "severity: critical"@
            || word == "npm audit"@,
        contains(lowercase(issues[k].message@), word),
        tech matches Some(t) ==> !contains(lowercase(t), "rubocop"@) && !contains(lowercase(t), "ruby"@)
            && !contains(lowercase(t), "rails"@) && !contains(lowercase(t), "rspec"@),
    ensures
        titles_for(issues, tech, fallback) == ("Security Audit Report"@, "Vulnerability Summary"@),
{
    assert(security_message(lowercase(issues[k].message@)));
    assert(any_security(issues));
}

/// Lint words make a lint report when nothing speaks of security or types:
/// when some issue's lower-cased message contains `eslint`, `clippy`,
/// `lint` or `style`, no message contains a security word or `type`,
/// `expected` or `mypy`, and the tech stack names neither RuboCop, Ruby,
/// Rails nor RSpec, the report is a lint report ("Lint Issues Summary").
pub proof fn lemma_lint_words_make_lint_report(issues: Seq<Issue>, tech: Option<Seq<char>>, fallback: Seq<char>, k: int, word: Seq<char>)
    requires
        0 <= k < issues.len(),
        word == "eslint"@ || word == "clippy"@ || word == "lint"@ || word == "style"@,
        contains(lowercase(issues[k].message@), word),
        forall|i: int| 0 <= i < issues.len() ==> {
            let m = #[trigger] lowercase(issues[i].message@);
            !contains(m, "security vulnerability"@) && !contains(m, "severity: high"@)
                && !contains(m, "severity: critical"@) && !contains(m, "npm audit"@)
                && !contains(m, "type"@) && !contains(m, "expected"@) && !contains(m, "mypy"@)
                && !contains(m, "typescript"@) && !contains(m, "type mismatch"@)
        },
        tech matches Some(t) ==> !contains(lowercase(t), "rubocop"@) && !contains(lowercase(t), "ruby"@)
            && !contains(lowercase(t), "rails"@) && !contains(lowercase(t), "rspec"@),
    ensures
        titles_for(issues, tech, fallback) == ("Lint Report"@, "Lint Issues Summary"@),
{
    assert(lint_message(lowercase(issues[k].message@)));
    assert(any_lint(issues));
    if any_security(issues) {
        let i = choose|i: int| 0 <= i < issues.len() && security_message(lowercase(#[trigger] issues[i].message@));
        assert(!security_message(lowercase(issues[i].message@)));
    }
    if any_type(issues) {
        let i = choose|i: int| 0 <= i < issues.len() && type_message(lowercase(#[trigger] issues[i].message@));
        assert(!type_message(lowercase(issues[i].message@)));
    }
}

/// The title and summary heading of a Markdown report on `issues`.
pub open spec fn report_titles(issues: Seq<Issue>, tech: Option<Seq<char>>) -> (Seq<char>, Seq<char>) {
    titles_for(issues, tech, "Issues Summary"@)
}

/// The view of an optional string slice.
pub open spec fn str_opt(o: Option<&str>) -> Option<Seq<char>> {
    match o {
        Some(s) => Some(s@),
        None => None,
    }
}

// ───────────────────────────── issue lines ─────────────────────────────

/// ` `[CODE]`` after the level when the issue has a code.
pub open spec fn code_part(c: Option<String>) -> Seq<char> {
    match c {
        Some(c) => " `["@ + c@ + "]`"@,
        None => seq![],
    }
}

/// One issue as a list item.
pub open spec fn issue_line(i: Issue) -> Seq<char> {
    "- "@ + level_icon(i.level) + " **"@ + level_name(i.level) + "**"@ + code_part(i.code) + " at line "@
        + location_text(i.location) + ": "@ + i.message@ + "\n"@
}

/// The issues as list items, in order.
pub open spec fn issue_lines(s: Seq<Issue>) -> Seq<char>
    decreases s.len(),
{
    if s.len() == 0 {
        seq![]
    } else {
        issue_lines(s.drop_last()) + issue_line(s.last())
    }
}

/// How many of `n` entries a section shows: all in verbose mode, else at
/// most `cap`.
pub open spec fn shown(verbose: bool, n: nat, cap: nat) -> nat {
    if verbose || n <= cap {
        n
    } else {
        cap
    }
}

/// The note on issues left out of a file's list.
pub open spec fn more_issues(verbose: bool, n: nat, cap: nat) -> Seq<char> {
    if !verbose && n > cap {
        "- ... and "@ + num((n - cap) as nat) + " more\n"@
    } else {
        seq![]
    }
}

/// The list of a file's issues under a heading of `hashes`.
pub open spec fn file_block(hashes: Seq<char>, path: Seq<char>, issues: Seq<Issue>, verbose: bool, cap: nat) -> Seq<char> {
    hashes + " `"@ + path + "` ("@ + num(issues.len()) + " item(s))\n\n"@ + issue_lines(
        issues.take(shown(verbose, issues.len(), cap) as int),
    ) + more_issues(verbose, issues.len(), cap) + "\n"@
}

/// The file blocks of the groups at positions `idx`, in that order.
pub open spec fn file_blocks(
    g: Seq<(Seq<char>, Seq<Issue>)>,
    idx: Seq<usize>,
    hashes: Seq<char>,
    verbose: bool,
    cap: nat,
) -> Seq<char>
    decreases idx.len(),
{
    if idx.len() == 0 {
        seq![]
    } else {
        file_blocks(g, idx.drop_last(), hashes, verbose, cap) + file_block(
            hashes,
            g[idx.last() as int].0,
            g[idx.last() as int].1,
            verbose,
            cap,
        )
    }
}

fn issue_line_string(i: &Issue) -> (r: String)
    ensures
        r@ == issue_line(*i),
{
    let mut s = String::from_str("- ");
    s.append(icon_of(i.level));
    s.append(" **");
    s.append(i.level.as_str());
    s.append("**");
    match &i.code {
        Some(c) => {
            s.append(" `[");
            s.append(c.as_str());
            s.append("]`");
        },
        None => {},
    }
    s.append(" at line ");
    let loc = location_string(&i.location);
    s.append(loc.as_str());
    s.append(": ");
    s.append(i.message.as_str());
    s.append("\n");
    s
}

/// Appends the first `k` issues of `s` as list items.
fn push_issue_lines(out: &mut String, s: &Vec<Issue>, k: usize)
    requires
        k <= s@.len(),
    ensures
        final(out)@ == old(out)@ + issue_lines(s@.take(k as int)),
{
    let ghost o0 = out@;
    let mut i: usize = 0;
    assert(s@.take(0) =~= Seq::<Issue>::empty());
    while i < k
        invariant
            k <= s@.len(),
            i <= k,
            out@ == o0 + issue_lines(s@.take(i as int)),
        decreases k - i,
    {
        let line = issue_line_string(&s[i]);
        let ghost before = out@;
        out.append(line.as_str());
        assert(s@.take(i + 1).drop_last() =~= s@.take(i as int));
        assert(out@ =~= o0 + issue_lines(s@.take(i + 1)));
        i += 1;
    }
}

/// `min(n, cap)`, or `n` in verbose mode.
fn shown_count(verbose: bool, n: usize, cap: usize) -> (r: usize)
    ensures
        r == shown(verbose, n as nat, cap as nat),
{
    if verbose || n <= cap {
        n
    } else {
        cap
    }
}

fn more_issues_string(verbose: bool, n: usize, cap: usize) -> (r: String)
    ensures
        r@ == more_issues(verbose, n as nat, cap as nat),
{
    if !verbose && n > cap {
        let mut s = String::from_str("- ... and ");
        let c = num_string(n - cap);
        s.append(c.as_str());
        s.append(" more\n");
        s
    } else {
        String::new()
    }
}

fn file_block_string(hashes: &str, path: &str, issues: &Vec<Issue>, verbose: bool, cap: usize) -> (r: String)
    ensures
        r@ == file_block(hashes@, path@, issues@, verbose, cap as nat),
{
    let mut s = String::from_str(hashes);
    s.append(" `");
    s.append(path);
    s.append("` (");
    let n = num_string(issues.len());
    s.append(n.as_str());
    s.append(" item(s))\n\n");
    let k = shown_count(verbose, issues.len(), cap);
    push_issue_lines(&mut s, issues, k);
    let more = more_issues_string(verbose, issues.len(), cap);
    s.append(more.as_str());
    s.append("\n");
    s
}

/// Appends the file blocks of the groups at the first `k` positions of `idx`.
fn push_file_blocks(
    out: &mut String,
    g: &Vec<(String, Vec<Issue>)>,
    idx: &Vec<usize>,
    k: usize,
    hashes: &str,
    verbose: bool,
    cap: usize,
)
    requires
        k <= idx@.len(),
        forall|j: int| 0 <= j < idx@.len() ==> (#[trigger] idx@[j]) < g@.len(),
    ensures
        final(out)@ == old(out)@ + file_blocks(group_views(g@), idx@.take(k as int), hashes@, verbose, cap as nat),
{
    let ghost o0 = out@;
    let ghost gv = group_views(g@);
    let mut i: usize = 0;
    assert(idx@.take(0) =~= Seq::<usize>::empty());
    while i < k
        invariant
            k <= idx@.len(),
            i <= k,
            gv == group_views(g@),
            forall|j: int| 0 <= j < idx@.len() ==> (#[trigger] idx@[j]) < g@.len(),
            out@ == o0 + file_blocks(gv, idx@.take(i as int), hashes@, verbose, cap as nat),
        decreases k - i,
    {
        let j = idx[i];
        assert(idx@[i as int] < g@.len());
        let e = &g[j];
        let b = file_block_string(hashes, e.0.as_str(), &e.1, verbose, cap);
        out.append(b.as_str());
        assert(idx@.take(i + 1).drop_last() =~= idx@.take(i as int));
        assert(idx@.take(i + 1).last() == j);
        assert(gv[j as int] == (e.0@, e.1@));
        assert(out@ =~= o0 + file_blocks(gv, idx@.take(i + 1), hashes@, verbose, cap as nat));
        i += 1;
    }
}

// ───────────────────────────── packages ─────────────────────────────

/// The note on files of a package left out.
pub open spec fn more_package_files(verbose: bool, n: nat) -> Seq<char> {
    if !verbose && n > 5 {
        "*... and "@ + num((n - 5) as nat) + " more files in this package*\n\n"@
    } else {
        seq![]
    }
}

/// One package: its heading, then its files by decreasing number of
/// issues (five unless verbose), each with at most five issues unless
/// verbose.
pub open spec fn package_block(name: Seq<char>, issues: Seq<Issue>, verbose: bool) -> Seq<char> {
    let fg = group_by_file(issues);
    "### Package: `"@ + name + "` ("@ + num(issues.len()) + " issue(s))\n\n"@ + file_blocks(
        fg,
        group_rank(fg).take(shown(verbose, fg.len(), 5) as int),
        "####"@,
        verbose,
        5,
    ) + more_package_files(verbose, fg.len())
}

/// The package blocks of the packages at positions `idx`, skipping the
/// `unknown` package.
pub open spec fn package_blocks(g: Seq<(Seq<char>, Seq<Issue>)>, idx: Seq<usize>, verbose: bool) -> Seq<char>
    decreases idx.len(),
{
    if idx.len() == 0 {
        seq![]
    } else {
        let e = g[idx.last() as int];
        package_blocks(g, idx.drop_last(), verbose) + if e.0 == "unknown"@ {
            seq![]
        } else {
            package_block(e.0, e.1, verbose)
        }
    }
}

/// Number of packages other than `unknown`.
pub open spec fn known_packages(g: Seq<(Seq<char>, Seq<Issue>)>) -> nat
    decreases g.len(),
{
    if g.len() == 0 {
        0
    } else {
        known_packages(g.drop_last()) + if g.last().0 == "unknown"@ { 0nat } else { 1nat }
    }
}

fn more_package_files_string(verbose: bool, n: usize) -> (r: String)
    ensures
        r@ == more_package_files(verbose, n as nat),
{
    if !verbose && n > 5 {
        let mut s = String::from_str("*... and ");
        let c = num_string(n - 5);
        s.append(c.as_str());
        s.append(" more files in this package*\n\n");
        s
    } else {
        String::new()
    }
}

fn package_block_string(name: &str, issues: &Vec<Issue>, verbose: bool) -> (r: String)
    ensures
        r@ == package_block(name@, issues@, verbose),
{
    let mut s = String::from_str("### Package: `");
    s.append(name);
    s.append("` (");
    let n = num_string(issues.len());
    s.append(n.as_str());
    s.append(" issue(s))\n\n");
    let files = group_issues_by_file(issues);
    let idx = rank_groups(&files);
    let k = shown_count(verbose, files.len(), 5);
    push_file_blocks(&mut s, &files, &idx, k, "####", verbose, 5);
    let more = more_package_files_string(verbose, files.len());
    s.append(more.as_str());
    s
}

/// Appends the package blocks of the packages at the first `k` positions
/// of `idx`.
fn push_package_blocks(out: &mut String, g: &Vec<(String, Vec<Issue>)>, idx: &Vec<usize>, k: usize, verbose: bool)
    requires
        k <= idx@.len(),
        forall|j: int| 0 <= j < idx@.len() ==> (#[trigger] idx@[j]) < g@.len(),
    ensures
        final(out)@ == old(out)@ + package_blocks(group_views(g@), idx@.take(k as int), verbose),
{
    let ghost o0 = out@;
    let ghost gv = group_views(g@);
    let mut i: usize = 0;
    assert(idx@.take(0) =~= Seq::<usize>::empty());
    while i < k
        invariant
            k <= idx@.len(),
            i <= k,
            gv == group_views(g@),
            forall|j: int| 0 <= j < idx@.len() ==> (#[trigger] idx@[j]) < g@.len(),
            out@ == o0 + package_blocks(gv, idx@.take(i as int), verbose),
        decreases k - i,
    {
        let j = idx[i];
        assert(idx@[i as int] < g@.len());
        let e = &g[j];
        assert(idx@.take(i + 1).drop_last() =~= idx@.take(i as int));
        assert(idx@.take(i + 1).last() == j);
        assert(gv[j as int] == (e.0@, e.1@));
        if !str_eq(e.0.as_str(), "unknown") {
            let b = package_block_string(e.0.as_str(), &e.1, verbose);
            out.append(b.as_str());
        }
        assert(out@ =~= o0 + package_blocks(gv, idx@.take(i + 1), verbose));
        i += 1;
    }
}

fn known_package_count(g: &Vec<(String, Vec<Issue>)>) -> (r: usize)
    ensures
        r == known_packages(group_views(g@)),
{
    let ghost gv = group_views(g@);
    let mut n: usize = 0;
    let mut i: usize = 0;
    while i < g.len()
        invariant
            i <= g@.len(),
            gv == group_views(g@),
            n == known_packages(gv.take(i as int)),
            n <= i,
        decreases g@.len() - i,
    {
        assert(gv.take(i + 1).drop_last() =~= gv.take(i as int));
        assert(gv.take(i + 1).last() == gv[i as int]);
        if !str_eq(g[i].0.as_str(), "unknown") {
            n += 1;
        }
        i += 1;
    }
    assert(gv.take(g@.len() as int) =~= gv);
    n
}

// ───────────────────────────── count lines ─────────────────────────────

/// Lines `pre key mid count post` for each entry, in order.
pub open spec fn entry_lines(s: Seq<(Seq<char>, usize)>, pre: Seq<char>, mid: Seq<char>, post: Seq<char>) -> Seq<char>
    decreases s.len(),
{
    if s.len() == 0 {
        seq![]
    } else {
        entry_lines(s.drop_last(), pre, mid, post) + pre + s.last().0 + mid + num(s.last().1 as nat) + post
    }
}

fn push_entry_lines(out: &mut String, t: &Vec<(String, usize)>, pre: &str, mid: &str, post: &str)
    ensures
        final(out)@ == old(out)@ + entry_lines(entry_views(t@), pre@, mid@, post@),
{
    let ghost o0 = out@;
    let ghost ev = entry_views(t@);
    let mut i: usize = 0;
    assert(ev.take(0) =~= Seq::<(Seq<char>, usize)>::empty());
    while i < t.len()
        invariant
            i <= t@.len(),
            ev == entry_views(t@),
            out@ == o0 + entry_lines(ev.take(i as int), pre@, mid@, post@),
        decreases t@.len() - i,
    {
        let e = &t[i];
        out.append(pre);
        out.append(e.0.as_str());
        out.append(mid);
        let c = num_string(e.1);
        out.append(c.as_str());
        out.append(post);
        assert(ev.take(i + 1).drop_last() =~= ev.take(i as int));
        assert(ev.take(i + 1).last() == (e.0@, e.1));
        assert(out@ =~= o0 + entry_lines(ev.take(i + 1), pre@, mid@, post@));
        i += 1;
    }
    assert(ev.take(t@.len() as int) =~= ev);
}

/// The paths and sizes of the groups at positions `idx`.
pub open spec fn sized_entries(g: Seq<(Seq<char>, Seq<Issue>)>, idx: Seq<usize>) -> Seq<(Seq<char>, usize)> {
    idx.map_values(|j: usize| (g[j as int].0, g[j as int].1.len() as usize))
}

fn sized_entries_vec(g: &Vec<(String, Vec<Issue>)>, idx: &Vec<usize>, k: usize) -> (r: Vec<(String, usize)>)
    requires
        k <= idx@.len(),
        forall|j: int| 0 <= j < idx@.len() ==> (#[trigger] idx@[j]) < g@.len(),
    ensures
        entry_views(r@) == sized_entries(group_views(g@), idx@.take(k as int)),
{
    let ghost gv = group_views(g@);
    let mut out: Vec<(String, usize)> = Vec::new();
    let mut i: usize = 0;
    while i < k
        invariant
            k <= idx@.len(),
            i <= k,
            gv == group_views(g@),
            forall|j: int| 0 <= j < idx@.len() ==> (#[trigger] idx@[j]) < g@.len(),
            entry_views(out@) == sized_entries(gv, idx@.take(i as int)),
        decreases k - i,
    {
        let j = idx[i];
        assert(idx@[i as int] < g@.len());
        let e = &g[j];
        let ghost before = out@;
        out.push((e.0.clone(), e.1.len()));
        assert(gv[j as int] == (e.0@, e.1@));
        assert(entry_views(out@) =~= entry_views(before).push((e.0@, e.1@.len() as usize)));
        assert(sized_entries(gv, idx@.take(i + 1)) =~= sized_entries(gv, idx@.take(i as int)).push((e.0@, e.1@.len() as usize)));
        i += 1;
    }
    out
}

// ───────────────────────────── the report ─────────────────────────────

/// The summary line of one level, when the level table has an entry for it.
pub open spec fn level_line(t: Seq<(IssueLevel, usize)>, l: IssueLevel) -> Seq<char> {
    if level_index(t, l) < t.len() {
        "- **"@ + level_icon(l) + "** "@ + level_name(l) + ": "@ + num(t[level_index(t, l) as int].1 as nat) + "\n"@
    } else {
        seq![]
    }
}

/// The level lines, from the most to the least severe.
pub open spec fn level_lines(t: Seq<(IssueLevel, usize)>) -> Seq<char> {
    level_line(t, IssueLevel::Error) + level_line(t, IssueLevel::Warning) + level_line(t, IssueLevel::Info) + level_line(
        t,
        IssueLevel::Hint,
    )
}

/// The five most frequent error codes, when there are any.
pub open spec fn codes_part(top: Seq<(Seq<char>, usize)>) -> Seq<char> {
    if top.len() == 0 {
        seq![]
    } else {
        "\n\n### Top Error Codes\n\n"@ + entry_lines(top, "- `"@, "`: "@, " occurrence(s)\n"@)
    }
}

/// The summary list: totals, levels, categories, files, top codes and
/// the number of known packages.
pub open spec fn summary_part(r: AnalysisResult) -> Seq<char> {
    let known = known_packages(group_views(r.issues_by_package@));
    "- **Total**: "@ + num(r.total_issues as nat) + "\n"@ + level_lines(r.issues_by_level@) + "- **Categories**: "@
        + num(r.unique_patterns@.len()) + "\n"@ + "- **Files Affected**: "@ + num(r.issues_by_file@.len())
        + codes_part(top_of(r.issues_by_code@, 5)) + (if known > 0 {
        "\n- **Packages Affected**: "@ + num(known)
    } else {
        seq![]
    }) + "\n\n"@
}

/// The minimal report's tail: the five files with the most issues.
pub open spec fn minimal_part(r: AnalysisResult) -> Seq<char> {
    let gv = group_views(r.issues_by_file@);
    "**Top Files:**\n\n"@ + entry_lines(
        sized_entries(gv, group_rank(gv).take(shown(false, gv.len(), 5) as int)),
        "- `"@,
        "`: "@,
        " issue(s)\n"@,
    ) + "\n"@
}

/// The categories by decreasing count (twenty unless verbose).
pub open spec fn category_part(t: Seq<(String, usize)>, verbose: bool) -> Seq<char> {
    if t.len() == 0 {
        seq![]
    } else {
        "## Breakdown by Category\n\n"@ + entry_lines(
            top_of(t, if verbose { t.len() } else { 20 }),
            "- **"@,
            "**: "@,
            " occurrence(s)\n"@,
        ) + "\n"@
    }
}

/// The packages by decreasing number of issues (ten unless verbose).
pub open spec fn package_part(pv: Seq<(Seq<char>, Seq<Issue>)>, verbose: bool) -> Seq<char> {
    "## Details by Package\n\n"@ + package_blocks(pv, group_rank(pv).take(shown(verbose, pv.len(), 10) as int), verbose)
        + if !verbose && pv.len() > 10 {
        "*... and "@ + num((pv.len() - 10) as nat) + " more packages (use --verbose to see all)*\n\n"@
    } else {
        seq![]
    }
}

/// The files by decreasing number of issues (twenty unless verbose), each
/// with at most ten issues unless verbose.
pub open spec fn file_part(gv: Seq<(Seq<char>, Seq<Issue>)>, verbose: bool) -> Seq<char> {
    "## Details by File\n\n"@ + file_blocks(gv, group_rank(gv).take(shown(verbose, gv.len(), 20) as int), "###"@, verbose, 10)
        + if !verbose && gv.len() > 20 {
        "*... and "@ + num((gv.len() - 20) as nat) + " more files (use --verbose to see all)*\n\n"@
    } else {
        seq![]
    }
}

/// The detail sections: categories, then packages when any is known, else
/// files.
pub open spec fn details_part(r: AnalysisResult, verbose: bool) -> Seq<char> {
    let pv = group_views(r.issues_by_package@);
    let gv = group_views(r.issues_by_file@);
    category_part(r.issues_by_type@, verbose) + (if known_packages(pv) > 0 {
        package_part(pv, verbose)
    } else {
        seq![]
    }) + (if gv.len() > 0 && known_packages(pv) == 0 {
        file_part(gv, verbose)
    } else {
        seq![]
    })
}

/// The Markdown report of `r` under `o`.
pub open spec fn markdown_report(r: AnalysisResult, o: ReportOptions) -> Seq<char> {
    if o.success_short_circuit && r.total_issues == 0 {
        short_circuit_line(o).unwrap()
    } else {
        let titles = report_titles(flat_issues(r.issues_by_file@), crate::pattern::opt_view(o.tech_stack));
        let head = "# "@ + titles.0 + "\n\n"@ + "## "@ + titles.1 + "\n\n"@;
        if r.total_issues == 0 {
            head + "✅ No issues found.\n\n"@
        } else if o.verbose == Verbosity::Minimal {
            head + summary_part(r) + minimal_part(r)
        } else {
            head + summary_part(r) + details_part(r, o.verbose == Verbosity::Verbose)
        }
    }
}

fn level_line_string(r: &AnalysisResult, l: IssueLevel) -> (s: String)
    ensures
        s@ == level_line(r.issues_by_level@, l),
{
    let k = r.find_level(l);
    if k < r.issues_by_level.len() {
        let mut s = String::from_str("- **");
        s.append(icon_of(l));
        s.append("** ");
        s.append(l.as_str());
        s.append(": ");
        let c = num_string(r.issues_by_level[k].1);
        s.append(c.as_str());
        s.append("\n");
        s
    } else {
        String::new()
    }
}

fn summary_string(r: &AnalysisResult) -> (s: String)
    ensures
        s@ == summary_part(*r),
{
    let mut s = String::from_str("- **Total**: ");
    let t = num_string(r.total_issues);
    s.append(t.as_str());
    s.append("\n");
    let e = level_line_string(r, IssueLevel::Error);
    s.append(e.as_str());
    let w = level_line_string(r, IssueLevel::Warning);
    s.append(w.as_str());
    let i = level_line_string(r, IssueLevel::Info);
    s.append(i.as_str());
    let h = level_line_string(r, IssueLevel::Hint);
    s.append(h.as_str());
    s.append("- **Categories**: ");
    let c = num_string(r.unique_patterns.len());
    s.append(c.as_str());
    s.append("\n");
    s.append("- **Files Affected**: ");
    let f = num_string(r.issues_by_file.len());
    s.append(f.as_str());
    let top = r.top_error_codes(5);
    if top.len() > 0 {
        s.append("\n\n### Top Error Codes\n\n");
        push_entry_lines(&mut s, &top, "- `", "`: ", " occurrence(s)\n");
    }
    let known = known_package_count(&r.issues_by_package);
    if known > 0 {
        s.append("\n- **Packages Affected**: ");
        let k = num_string(known);
        s.append(k.as_str());
    }
    s.append("\n\n");
    s
}

fn minimal_string(r: &AnalysisResult) -> (s: String)
    ensures
        s@ == minimal_part(*r),
{
    let mut s = String::from_str("**Top Files:**\n\n");
    let idx = rank_groups(&r.issues_by_file);
    let k = shown_count(false, r.issues_by_file.len(), 5);
    let top = sized_entries_vec(&r.issues_by_file, &idx, k);
    push_entry_lines(&mut s, &top, "- `", "`: ", " issue(s)\n");
    s.append("\n");
    s
}

fn category_string(t: &Vec<(String, usize)>, verbose: bool) -> (s: String)
    ensures
        s@ == category_part(t@, verbose),
{
    if t.len() == 0 {
        return String::new();
    }
    let mut s = String::from_str("## Breakdown by Category\n\n");
    let limit: usize = if verbose { t.len() } else { 20 };
    let top = top_counts(t, limit);
    push_entry_lines(&mut s, &top, "- **", "**: ", " occurrence(s)\n");
    s.append("\n");
    s
}

fn package_string(g: &Vec<(String, Vec<Issue>)>, verbose: bool) -> (s: String)
    ensures
        s@ == package_part(group_views(g@), verbose),
{
    let mut s = String::from_str("## Details by Package\n\n");
    let idx = rank_groups(g);
    let k = shown_count(verbose, g.len(), 10);
    push_package_blocks(&mut s, g, &idx, k, verbose);
    if !verbose && g.len() > 10 {
        s.append("*... and ");
        let c = num_string(g.len() - 10);
        s.append(c.as_str());
        s.append(" more packages (use --verbose to see all)*\n\n");
    }
    s
}

fn file_string(g: &Vec<(String, Vec<Issue>)>, verbose: bool) -> (s: String)
    ensures
        s@ == file_part(group_views(g@), verbose),
{
    let mut s = String::from_str("## Details by File\n\n");
    let idx = rank_groups(g);
    let k = shown_count(verbose, g.len(), 20);
    push_file_blocks(&mut s, g, &idx, k, "###", verbose, 10);
    if !verbose && g.len() > 20 {
        s.append("*... and ");
        let c = num_string(g.len() - 20);
        s.append(c.as_str());
        s.append(" more files (use --verbose to see all)*\n\n");
    }
    s
}

fn details_string(r: &AnalysisResult, verbose: bool) -> (s: String)
    ensures
        s@ == details_part(*r, verbose),
{
    let mut s = category_string(&r.issues_by_type, verbose);
    let known = known_package_count(&r.issues_by_package);
    if known > 0 {
        let p = package_string(&r.issues_by_package, verbose);
        s.append(p.as_str());
    }
    if r.issues_by_file.len() > 0 && known == 0 {
        let f = file_string(&r.issues_by_file, verbose);
        s.append(f.as_str());
    }
    s
}

/// The title and summary heading of a report on `result` (see
/// `titles_for`).
pub fn detect_titles(result: &AnalysisResult, tech_stack: Option<&str>, fallback: &str) -> (r: (String, String))
    ensures
        (r.0@, r.1@) == titles_for(flat_issues(result.issues_by_file@), str_opt(tech_stack), fallback@),
{
    let mut rubocop = false;
    let mut rspec = false;
    match tech_stack {
        Some(ts) => {
            let lower = to_lowercase(ts);
            rubocop = str_contains(lower.as_str(), "rubocop") || str_contains(lower.as_str(), "ruby")
                || str_contains(lower.as_str(), "rails");
            rspec = str_contains(lower.as_str(), "rspec");
        },
        None => {},
    }
    if rubocop {
        return (String::from_str("RuboCop Report"), String::from_str("RuboCop Issues Summary"));
    }
    if rspec {
        return (String::from_str("RSpec Report"), String::from_str("Test Issues Summary"));
    }
    let all = result.all_issues();
    let mut security = false;
    let mut typed = false;
    let mut lint = false;
    let mut i: usize = 0;
    while i < all.len()
        invariant
            i <= all@.len(),
            security == exists|j: int| 0 <= j < i && security_message(lowercase(#[trigger] all@[j].message@)),
            typed == exists|j: int| 0 <= j < i && type_message(lowercase(#[trigger] all@[j].message@)),
            lint == exists|j: int| 0 <= j < i && lint_message(lowercase(#[trigger] all@[j].message@)),
        decreases all@.len() - i,
    {
        let m = to_lowercase(all[i].message.as_str());
        let ms = m.as_str();
        let sec = str_contains(ms, "security vulnerability") || str_contains(ms, "severity: high")
            || str_contains(ms, "severity: critical") || str_contains(ms, "npm audit");
        let ty = str_contains(ms, "type") || str_contains(ms, "typescript") || str_contains(ms, "type mismatch")
            || str_contains(ms, "expected") || str_contains(ms, "mypy");
        let li = str_contains(ms, "eslint") || str_contains(ms, "clippy") || str_contains(ms, "lint")
            || str_contains(ms, "style");
        assert(sec == security_message(lowercase(all@[i as int].message@)));
        assert(ty == type_message(lowercase(all@[i as int].message@)));
        assert(li == lint_message(lowercase(all@[i as int].message@)));
        security = security || sec;
        typed = typed || ty;
        lint = lint || li;
        i += 1;
    }
    if security {
        (String::from_str("Security Audit Report"), String::from_str("Vulnerability Summary"))
    } else if typed {
        (String::from_str("Type Check Report"), String::from_str("Type Issues Summary"))
    } else if lint {
        (String::from_str("Lint Report"), String::from_str("Lint Issues Summary"))
    } else {
        (String::from_str("Analysis Report"), String::from_str(fallback))
    }
}

/// Generates Markdown reports.
#[derive(Debug, Clone, Copy)]
pub struct MarkdownReporter;

impl MarkdownReporter {
    pub fn new() -> (r: MarkdownReporter) {
        MarkdownReporter
    }

    /// The title and summary heading for a report on `result` (see
    /// `report_titles`).
    pub fn detect_report_type(&self, result: &AnalysisResult, tech_stack: Option<&str>) -> (r: (String, String))
        ensures
            (r.0@, r.1@) == report_titles(flat_issues(result.issues_by_file@), str_opt(tech_stack)),
    {
        detect_titles(result, tech_stack, "Issues Summary")
    }

    fn generate_internal(&self, result: &AnalysisResult, options: &ReportOptions) -> (s: String)
        ensures
            s@ == markdown_report(*result, *options),
    {
        if options.success_short_circuit && result.total_issues == 0 {
            match options.short_circuit_message() {
                Some(m) => return m,
                None => {},
            }
        }
        let tech: Option<&str> = match &options.tech_stack {
            Some(t) => Some(t.as_str()),
            None => None,
        };
        let (title, summary_title) = self.detect_report_type(result, tech);
        let mut s = String::from_str("# ");
        s.append(title.as_str());
        s.append("\n\n");
        s.append("## ");
        s.append(summary_title.as_str());
        s.append("\n\n");
        if result.total_issues == 0 {
            s.append("✅ No issues found.\n\n");
            return s;
        }
        let sum = summary_string(result);
        s.append(sum.as_str());
        if options.verbose.is_minimal() {
            let m = minimal_string(result);
            s.append(m.as_str());
            return s;
        }
        let d = details_string(result, options.verbose.is_verbose());
        s.append(d.as_str());
        s
    }

    /// The report of `result` with the default options.
    pub fn generate(&self, result: &AnalysisResult) -> (r: Result<String, ReporterError>)
        ensures
            r matches Ok(s) && s@ == markdown_report(*result, ReportOptions::default_value()),
    {
        let o = ReportOptions::default();
        Ok(self.generate_internal(result, &o))
    }

    /// The report of `result` under `options`: the confirmation line when
    /// nothing was found and the short-circuit is on; else the title, the
    /// summary and (unless minimal) the detail sections.
    pub fn generate_with_options(&self, result: &AnalysisResult, options: ReportOptions) -> (r: Result<String, ReporterError>)
        ensures
            r matches Ok(s) && s@ == markdown_report(*result, options),
    {
        Ok(self.generate_internal(result, &options))
    }
}

impl Default for MarkdownReporter {
    fn default() -> (r: MarkdownReporter) {
        MarkdownReporter
    }
}

// ───────────────────────────── test reports ─────────────────────────────

/// Whether a test run is green (see `TestAnalysisResult::all_passed`).
pub open spec fn run_passed(r: TestAnalysisResult) -> bool {
    r.failed_tests@.len() == 0 && !(r.test_summary is Some && r.test_summary->0.failed > 0)
        && r.compile_result.total_issues == 0
}

/// Number of collected test cases.
pub open spec fn collected(r: TestAnalysisResult) -> nat {
    r.passed_tests@.len() + r.failed_tests@.len() + r.ignored_tests@.len()
}

/// `pre N\n` when `n` is positive.
pub open spec fn count_line(pre: Seq<char>, n: usize) -> Seq<char> {
    if n > 0 {
        pre + num(n as nat) + "\n"@
    } else {
        seq![]
    }
}

/// The summary section of a test report; `pass_rate` is the percentage of
/// passed tests with one decimal.
pub open spec fn test_summary_part(s: TestSummary, collected: nat, pass_rate: Seq<char>) -> Seq<char> {
    "## Summary\n\n"@ + "- **Total**: "@ + num(s.total as nat) + " test(s) (calculated: "@ + num(collected) + ")\n"@
        + "- **Passed**: ✅ "@ + num(s.passed as nat) + " ("@ + pass_rate + "%)\n"@ + count_line("- **Failed**: ❌ "@, s.failed)
        + count_line("- **Ignored**: 🔕 "@, s.ignored) + count_line("- **Measured**: "@, s.measured) + count_line(
        "- **Filtered out**: "@,
        s.filtered,
    ) + (match s.execution_time {
        Some(t) => "- **Duration**: "@ + t@ + "\n"@,
        None => seq![],
    }) + "\n"@
}

/// Where a failed test is, when known.
pub open spec fn test_location_part(l: Option<Location>) -> Seq<char> {
    match l {
        Some(loc) => "📍 **Location**: `"@ + loc.file_path@ + ":"@ + (match loc.line_number {
            Some(n) => num(n as nat),
            None => "-"@,
        }) + "`\n\n"@,
        None => seq![],
    }
}

/// The failure details of a failed test, when known.
pub open spec fn test_details_part(d: Option<String>) -> Seq<char> {
    match d {
        Some(d) => "🔍 **Failure Details**:\n"@ + "```\n"@ + d@ + "\n```\n\n"@,
        None => seq![],
    }
}

/// The failed tests, numbered from 1.
pub open spec fn failed_entries(s: Seq<TestCase>) -> Seq<char>
    decreases s.len(),
{
    if s.len() == 0 {
        seq![]
    } else {
        let t = s.last();
        failed_entries(s.drop_last()) + "### "@ + num(s.len()) + ". `"@ + t.name@ + "`\n\n"@ + test_location_part(t.location)
            + test_details_part(t.failure_details)
    }
}

/// The reason of an ignored test, when the runner gave one.
pub open spec fn reason_part(st: TestStatus) -> Seq<char> {
    match st {
        TestStatus::Ignored(Some(r)) => " - *Reason: "@ + r@ + "*"@,
        _ => seq![],
    }
}

/// The ignored tests as list items.
pub open spec fn ignored_entries(s: Seq<TestCase>) -> Seq<char>
    decreases s.len(),
{
    if s.len() == 0 {
        seq![]
    } else {
        ignored_entries(s.drop_last()) + "- `"@ + s.last().name@ + "`"@ + reason_part(s.last().status) + "\n"@
    }
}

/// The passed tests as list items.
pub open spec fn passed_entries(s: Seq<TestCase>) -> Seq<char>
    decreases s.len(),
{
    if s.len() == 0 {
        seq![]
    } else {
        passed_entries(s.drop_last()) + "- ✅ `"@ + s.last().name@ + "`\n"@
    }
}

/// The section on failed tests.
pub open spec fn failed_section(t: Seq<TestCase>) -> Seq<char> {
    if t.len() > 0 {
        "## Failed Tests ("@ + num(t.len()) + " item(s))\n\n"@ + failed_entries(t)
    } else {
        seq![]
    }
}

/// The section on ignored tests.
pub open spec fn ignored_section(t: Seq<TestCase>) -> Seq<char> {
    if t.len() > 0 {
        "## Ignored Tests ("@ + num(t.len()) + " item(s))\n\n"@ + ignored_entries(t) + "\n"@
    } else {
        seq![]
    }
}

/// The section on passed tests (listed when there are at most ten).
pub open spec fn passed_section(t: Seq<TestCase>) -> Seq<char> {
    if t.len() > 0 {
        "## Passed Tests ("@ + num(t.len()) + " item(s))\n\n"@ + (if t.len() <= 10 {
            passed_entries(t)
        } else {
            "✅ "@ + num(t.len()) + " tests passed\n"@
        }) + "\n"@
    } else {
        seq![]
    }
}

/// The sections on failed, ignored and passed tests.
pub open spec fn test_lists_part(r: TestAnalysisResult) -> Seq<char> {
    failed_section(r.failed_tests@) + ignored_section(r.ignored_tests@) + passed_section(r.passed_tests@)
}

/// The title and the summary of a test report.
pub open spec fn test_head(r: TestAnalysisResult, pass_rate: Seq<char>) -> Seq<char> {
    (if run_passed(r) {
        "# ✅ Test Report - All Passed\n\n"@
    } else {
        "# ❌ Test Report - Issues Found\n\n"@
    }) + (match r.test_summary {
        Some(s) => test_summary_part(s, collected(r), pass_rate),
        None => seq![],
    })
}

/// The end of a test report: the capture note and the build issues.
pub open spec fn test_tail(r: TestAnalysisResult) -> Seq<char> {
    (if r.has_test_output {
        "---\n*Test output was successfully captured*\n"@
    } else {
        seq![]
    }) + (if r.compile_result.total_issues > 0 {
        "## Build Issues\n\n"@ + "The following issues were found during compilation:\n\n"@ + markdown_report(
            r.compile_result,
            ReportOptions::default_value(),
        )
    } else {
        seq![]
    })
}

/// The Markdown test report of `r`; `pass_rate` is the percentage of
/// passed tests (of the runner's total) with one decimal.
pub open spec fn markdown_test_report(r: TestAnalysisResult, pass_rate: Seq<char>) -> Seq<char> {
    test_head(r, pass_rate) + test_lists_part(r) + test_tail(r)
}

fn count_line_string(pre: &str, n: usize) -> (r: String)
    ensures
        r@ == count_line(pre@, n),
{
    if n > 0 {
        let mut s = String::from_str(pre);
        let c = num_string(n);
        s.append(c.as_str());
        s.append("\n");
        s
    } else {
        String::new()
    }
}

fn test_summary_string(s: &TestSummary, collected: usize, pass_rate: &str) -> (r: String)
    ensures
        r@ == test_summary_part(*s, collected as nat, pass_rate@),
{
    let mut out = String::from_str("## Summary\n\n");
    out.append("- **Total**: ");
    let t = num_string(s.total);
    out.append(t.as_str());
    out.append(" test(s) (calculated: ");
    let c = num_string(collected);
    out.append(c.as_str());
    out.append(")\n");
    out.append("- **Passed**: ✅ ");
    let p = num_string(s.passed);
    out.append(p.as_str());
    out.append(" (");
    out.append(pass_rate);
    out.append("%)\n");
    let f = count_line_string("- **Failed**: ❌ ", s.failed);
    out.append(f.as_str());
    let i = count_line_string("- **Ignored**: 🔕 ", s.ignored);
    out.append(i.as_str());
    let m = count_line_string("- **Measured**: ", s.measured);
    out.append(m.as_str());
    let fo = count_line_string("- **Filtered out**: ", s.filtered);
    out.append(fo.as_str());
    match &s.execution_time {
        Some(_) => {
            out.append("- **Duration**: ");
            let d = s.execution_time_formatted();
            out.append(d.as_str());
            out.append("\n");
        },
        None => {},
    }
    out.append("\n");
    out
}

fn failed_entry_string(n: usize, t: &TestCase) -> (r: String)
    ensures
        r@ == "### "@ + num(n as nat) + ". `"@ + t.name@ + "`\n\n"@ + test_location_part(t.location) + test_details_part(
            t.failure_details,
        ),
{
    let mut s = String::from_str("### ");
    let c = num_string(n);
    s.append(c.as_str());
    s.append(". `");
    s.append(t.name.as_str());
    s.append("`\n\n");
    match &t.location {
        Some(loc) => {
            s.append("📍 **Location**: `");
            s.append(loc.file_path.as_str());
            s.append(":");
            match loc.line_number {
                Some(l) => {
                    let ls = num_string(l as usize);
                    s.append(ls.as_str());
                },
                None => {
                    s.append("-");
                },
            }
            s.append("`\n\n");
        },
        None => {},
    }
    match &t.failure_details {
        Some(d) => {
            s.append("🔍 **Failure Details**:\n");
            s.append("```\n");
            s.append(d.as_str());
            s.append("\n```\n\n");
        },
        None => {},
    }
    s
}

fn push_failed_entries(out: &mut String, s: &Vec<TestCase>)
    ensures
        final(out)@ == old(out)@ + failed_entries(s@),
{
    let ghost o0 = out@;
    let mut i: usize = 0;
    assert(s@.take(0) =~= Seq::<TestCase>::empty());
    while i < s.len()
        invariant
            i <= s@.len(),
            out@ == o0 + failed_entries(s@.take(i as int)),
        decreases s@.len() - i,
    {
        let e = failed_entry_string(i + 1, &s[i]);
        out.append(e.as_str());
        assert(s@.take(i + 1).drop_last() =~= s@.take(i as int));
        assert(s@.take(i + 1).last() == s@[i as int]);
        assert(out@ =~= o0 + failed_entries(s@.take(i + 1)));
        i += 1;
    }
    assert(s@.take(s@.len() as int) =~= s@);
}

fn push_ignored_entries(out: &mut String, s: &Vec<TestCase>)
    ensures
        final(out)@ == old(out)@ + ignored_entries(s@),
{
    let ghost o0 = out@;
    let mut i: usize = 0;
    assert(s@.take(0) =~= Seq::<TestCase>::empty());
    while i < s.len()
        invariant
            i <= s@.len(),
            out@ == o0 + ignored_entries(s@.take(i as int)),
        decreases s@.len() - i,
    {
        let t = &s[i];
        out.append("- `");
        out.append(t.name.as_str());
        out.append("`");
        match &t.status {
            TestStatus::Ignored(Some(r)) => {
                out.append(" - *Reason: ");
                out.append(r.as_str());
                out.append("*");
            },
            _ => {},
        }
        out.append("\n");
        assert(s@.take(i + 1).drop_last() =~= s@.take(i as int));
        assert(s@.take(i + 1).last() == s@[i as int]);
        assert(out@ =~= o0 + ignored_entries(s@.take(i + 1)));
        i += 1;
    }
    assert(s@.take(s@.len() as int) =~= s@);
}

fn push_passed_entries(out: &mut String, s: &Vec<TestCase>)
    ensures
        final(out)@ == old(out)@ + passed_entries(s@),
{
    let ghost o0 = out@;
    let mut i: usize = 0;
    assert(s@.take(0) =~= Seq::<TestCase>::empty());
    while i < s.len()
        invariant
            i <= s@.len(),
            out@ == o0 + passed_entries(s@.take(i as int)),
        decreases s@.len() - i,
    {
        out.append("- ✅ `");
        out.append(s[i].name.as_str());
        out.append("`\n");
        assert(s@.take(i + 1).drop_last() =~= s@.take(i as int));
        assert(s@.take(i + 1).last() == s@[i as int]);
        assert(out@ =~= o0 + passed_entries(s@.take(i + 1)));
        i += 1;
    }
    assert(s@.take(s@.len() as int) =~= s@);
}

fn failed_section_string(t: &Vec<TestCase>) -> (s: String)
    ensures
        s@ == failed_section(t@),
{
    let mut s = String::new();
    if t.len() > 0 {
        s.append("## Failed Tests (");
        let c = num_string(t.len());
        s.append(c.as_str());
        s.append(" item(s))\n\n");
        push_failed_entries(&mut s, t);
    }
    s
}

fn ignored_section_string(t: &Vec<TestCase>) -> (s: String)
    ensures
        s@ == ignored_section(t@),
{
    let mut s = String::new();
    if t.len() > 0 {
        s.append("## Ignored Tests (");
        let c = num_string(t.len());
        s.append(c.as_str());
        s.append(" item(s))\n\n");
        push_ignored_entries(&mut s, t);
        s.append("\n");
    }
    s
}

fn passed_section_string(t: &Vec<TestCase>) -> (s: String)
    ensures
        s@ == passed_section(t@),
{
    let mut s = String::new();
    if t.len() > 0 {
        s.append("## Passed Tests (");
        let c = num_string(t.len());
        s.append(c.as_str());
        s.append(" item(s))\n\n");
        if t.len() <= 10 {
            push_passed_entries(&mut s, t);
        } else {
            s.append("✅ ");
            s.append(c.as_str());
            s.append(" tests passed\n");
        }
        s.append("\n");
    }
    s
}

fn test_head_string(r: &TestAnalysisResult, pass_rate: &str) -> (s: String)
    requires
        collected(*r) <= usize::MAX,
    ensures
        s@ == test_head(*r, pass_rate@),
{
    let mut s = if r.all_passed() {
        String::from_str("# ✅ Test Report - All Passed\n\n")
    } else {
        String::from_str("# ❌ Test Report - Issues Found\n\n")
    };
    match &r.test_summary {
        Some(summary) => {
            let n = r.collected_tests();
            let p = test_summary_string(summary, n, pass_rate);
            s.append(p.as_str());
        },
        None => {},
    }
    s
}

impl MarkdownReporter {
    fn test_tail_string(&self, r: &TestAnalysisResult) -> (s: String)
        ensures
            s@ == test_tail(*r),
    {
        let mut s = String::new();
        if r.has_test_output {
            s.append("---\n*Test output was successfully captured*\n");
        }
        if r.compile_result.total_issues > 0 {
            s.append("## Build Issues\n\n");
            s.append("The following issues were found during compilation:\n\n");
            let o = ReportOptions::default();
            let b = self.generate_internal(&r.compile_result, &o);
            s.append(b.as_str());
        }
        s
    }

    /// The test report of `result`; the options do not apply (see
    /// `markdown_test_report`).
    pub fn generate_test_report_with_options(
        &self,
        result: &TestAnalysisResult,
        options: ReportOptions,
        pass_rate: &str,
    ) -> (r: Result<String, ReporterError>)
        requires
            collected(*result) <= usize::MAX,
        ensures
            r matches Ok(s) && s@ == markdown_test_report(*result, pass_rate@),
    {
        self.generate_test_report_internal(result, pass_rate)
    }

    /// The Markdown test report of `result` (see `markdown_test_report`);
    /// `pass_rate` is the percentage of passed tests with one decimal.
    pub fn generate_test_report(&self, result: &TestAnalysisResult, pass_rate: &str) -> (r: Result<String, ReporterError>)
        requires
            collected(*result) <= usize::MAX,
        ensures
            r matches Ok(s) && s@ == markdown_test_report(*result, pass_rate@),
    {
        self.generate_test_report_internal(result, pass_rate)
    }

    fn generate_test_report_internal(&self, result: &TestAnalysisResult, pass_rate: &str) -> (r: Result<String, ReporterError>)
        requires
            collected(*result) <= usize::MAX,
        ensures
            r matches Ok(s) && s@ == markdown_test_report(*result, pass_rate@),
    {
        let mut s = test_head_string(result, pass_rate);
        let f = failed_section_string(&result.failed_tests);
        s.append(f.as_str());
        let i = ignored_section_string(&result.ignored_tests);
        s.append(i.as_str());
        let p = passed_section_string(&result.passed_tests);
        s.append(p.as_str());
        let t = self.test_tail_string(result);
        s.append(t.as_str());
        Ok(s)
    }
}

} // verus!
