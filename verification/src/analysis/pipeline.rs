//! The analysis pipeline after a command has run (or on a saved log):
//! choosing the post-processor, parsing, filtering, and the result of a run.

use vstd::prelude::*;
use crate::analysis::errors::AnalyzerError;
use crate::analysis::options::AnalyzeOptions;
use crate::analysis::parser::{parse_view, OutputParser, ParseResult};
use crate::analysis::result::{first_n, group_by_file, issue_limit, kept_groups, kept_issues, needs_filtering, AnalysisResult};
use crate::analysis::stream::StreamResult;
use crate::analysis::types::{Issue, IssueLevel, Location};
use crate::analysis::utils::{short_circuit_ok, OutputPostProcessor, ShortCircuitRule};
use crate::config::filter_registry::{compile_toml_filter, FilterRegistry, TomlFilterConfig, TomlReplaceRule, TomlShortCircuitRule};
use crate::pattern::opt_view;
use crate::text::{decimal, decimal_string, utf8_len, words, words_of};

verus! {

/// The views of replacement pairs.
pub open spec fn pair_views(v: Seq<(String, String)>) -> Seq<(Seq<char>, Seq<char>)> {
    v.map_values(|e: (String, String)| (e.0@, e.1@))
}

/// The views of a filter's replace rules (none when absent).
pub open spec fn rule_pair_views(r: Option<Vec<TomlReplaceRule>>) -> Seq<(Seq<char>, Seq<char>)> {
    match r {
        Some(v) => v@.map_values(|x: TomlReplaceRule| (x.pattern@, x.replacement@)),
        None => seq![],
    }
}

/// The views of short-circuit rules.
pub open spec fn circuit_views(v: Seq<ShortCircuitRule>) -> Seq<(Seq<char>, Seq<char>, Option<Seq<char>>)> {
    v.map_values(|x: ShortCircuitRule| (x.pattern@, x.message@, opt_view(x.unless)))
}

/// The views of a filter's short-circuit rules (none when absent).
pub open spec fn toml_circuit_views(r: Option<Vec<TomlShortCircuitRule>>) -> Seq<(Seq<char>, Seq<char>, Option<Seq<char>>)> {
    match r {
        Some(v) => v@.map_values(|x: TomlShortCircuitRule| (x.pattern@, x.message@, opt_view(x.unless))),
        None => seq![],
    }
}

/// A positive limit of a filter, or none.
pub open spec fn positive(n: Option<usize>) -> Option<usize> {
    match n {
        Some(x) => if x > 0 { Some(x) } else { None },
        None => None,
    }
}

/// A positive limit of the options, or none.
pub open spec fn positive_setting(n: usize) -> Option<usize> {
    if n > 0 { Some(n) } else { None }
}

/// Patterns of a filter (none when absent).
pub open spec fn filter_patterns(v: Option<Vec<String>>) -> Seq<String> {
    match v {
        Some(v) => v@,
        None => seq![],
    }
}

/// `r` is the post-processor that the options alone give.
pub open spec fn base_processor(r: OutputPostProcessor, o: AnalyzeOptions) -> bool {
    &&& r.strip_ansi == o.strip_ansi
    &&& r.strip_tui_frames == o.strip_tui_frames
    &&& r.replace_patterns@.len() == 0
    &&& r.short_circuits@.len() == 0
    &&& r.max_lines == positive_setting(o.max_output_lines)
    &&& r.max_line_length == positive_setting(o.max_line_length)
    &&& r.noise_patterns@ == o.noise_patterns@
    &&& r.keep_patterns@ == o.keep_patterns@
    &&& r.on_empty_message is None
}

/// `r` is the options' post-processor merged with filter `f`: either may
/// strip escape codes and frames, the filter's replacements, short-circuits,
/// limits (when set) and empty-output message win, its noise patterns are
/// added, and its keep patterns (when any) replace the options' ones.
pub open spec fn merged_processor(r: OutputPostProcessor, o: AnalyzeOptions, f: TomlFilterConfig) -> bool {
    &&& r.strip_ansi == (o.strip_ansi || f.strip_ansi == Some(true))
    &&& r.strip_tui_frames == (o.strip_tui_frames || f.strip_tui_frames == Some(true))
    &&& pair_views(r.replace_patterns@) == rule_pair_views(f.replace)
    &&& circuit_views(r.short_circuits@) == toml_circuit_views(f.short_circuit)
    &&& r.max_lines == (if positive(f.max_lines) is Some { positive(f.max_lines) } else { positive_setting(o.max_output_lines) })
    &&& r.max_line_length == (if positive(f.truncate_lines_at) is Some {
        positive(f.truncate_lines_at)
    } else {
        positive_setting(o.max_line_length)
    })
    &&& r.noise_patterns@ == o.noise_patterns@ + filter_patterns(f.strip_lines_matching)
    &&& r.keep_patterns@ == (if filter_patterns(f.keep_lines_matching).len() == 0 {
        o.keep_patterns@
    } else {
        filter_patterns(f.keep_lines_matching)
    })
    &&& opt_view(r.on_empty_message) == opt_view(f.on_empty)
}

/// Whether `r` is the post-processor for `command`: the options' settings,
/// merged with the first filter of the registry whose command pattern
/// matches, when there is one.
pub open spec fn resolved_for(r: OutputPostProcessor, command: Seq<char>, registry: FilterRegistry, options: AnalyzeOptions) -> bool {
    match crate::config::filter_registry::search(registry.ordered(), command) {
        Some(Some(k)) => merged_processor(r, options, registry.ordered()[k].1),
        _ => base_processor(r, options),
    }
}

/// The post-processor for a command: the options' settings, merged with
/// the first filter whose command pattern matches, when there is one.
pub fn resolve_processor(command: &str, registry: &FilterRegistry, options: &AnalyzeOptions) -> (r: OutputPostProcessor)
    ensures
        resolved_for(r, command@, *registry, *options),
{
    let base = OutputPostProcessor::from_options(options);
    match registry.find_filter(command) {
        Some(f) => {
            let c = compile_toml_filter(f);
            let r = OutputPostProcessor::merge(base, c);
            proof {
                assert(pair_views(c.replace_patterns@) =~= rule_pair_views(f.replace));
                assert(circuit_views(c.short_circuits@) =~= toml_circuit_views(f.short_circuit));
                assert(r.strip_ansi == (options.strip_ansi || f.strip_ansi == Some(true)));
                assert(r.strip_tui_frames == (options.strip_tui_frames || f.strip_tui_frames == Some(true)));
                assert(pair_views(r.replace_patterns@) == rule_pair_views(f.replace));
                assert(circuit_views(r.short_circuits@) == toml_circuit_views(f.short_circuit));
                assert(r.max_lines == (if positive(f.max_lines) is Some { positive(f.max_lines) } else { positive_setting(options.max_output_lines) }));
                assert(r.noise_patterns@ == options.noise_patterns@ + filter_patterns(f.strip_lines_matching));
                assert(opt_view(r.on_empty_message) == opt_view(f.on_empty));
                assert(merged_processor(r, *options, *f));
            }
            r
        },
        None => base,
    }
}

/// The message for a parser that fell back to passing text through.
pub open spec fn passthrough_message(raw: Seq<char>) -> Seq<char> {
    "Parser fell back to passthrough ("@ + decimal(utf8_len(raw)) + " chars)"@
}

/// The result of parsed output: the issues aggregated and filtered by the
/// options, or a parse error when the parser passed the text through.
pub fn analyze_parsed(parsed: ParseResult<Vec<Issue>>, options: &AnalyzeOptions) -> (r: Result<AnalysisResult, AnalyzerError>)
    ensures
        analysis_of(parse_view(parsed), *options, r),
{
    let issues = match parsed {
        ParseResult::Full(i) => i,
        ParseResult::Degraded(i, _) => i,
        ParseResult::Passthrough(raw) => {
            let mut m = String::from_str("Parser fell back to passthrough (");
            let n = byte_len(raw.as_str());
            let d = decimal_string(n);
            m.append(d.as_str());
            m.append(" chars)");
            return Err(AnalyzerError::ParseError(m));
        },
    };
    if issues.len() == usize::MAX {
        return Err(AnalyzerError::ParseError(String::from_str("too many issues")));
    }
    let result = AnalysisResult::from_issues(issues);
    Ok(result.filter_by_options(options))
}

/// The issues that `filter_by_options` keeps of `issues`.
pub open spec fn analyzed_issues(issues: Seq<Issue>, options: AnalyzeOptions) -> Seq<Issue> {
    if needs_filtering(options) {
        first_n(kept_groups(group_by_file(issues), options.filter_paths@, options.filter_warnings), issue_limit(options))
    } else {
        issues
    }
}

/// What `filter_by_options` makes of the result of `issues`.
pub open spec fn analyzed(r: AnalysisResult, issues: Seq<Issue>, options: AnalyzeOptions) -> bool {
    &&& r.wf()
    &&& r.exit_code is None
    &&& !r.command_failed
    &&& r.issues() == analyzed_issues(issues, options)
}

/// What the analysis of a parse outcome gives: a parse error for text the
/// parser passed through; otherwise the issues aggregated and filtered by
/// the options (unless there are `usize::MAX` of them). A result is
/// well formed, with no exit code and not failed.
pub open spec fn analysis_of(p: ParseResult<Seq<Issue>>, options: AnalyzeOptions, r: Result<AnalysisResult, AnalyzerError>) -> bool {
    &&& (r matches Ok(res) ==> res.wf() && res.exit_code is None && !res.command_failed)
    &&& match p {
        ParseResult::Passthrough(raw) => r matches Err(AnalyzerError::ParseError(m))
            && (utf8_len(raw@) <= u64::MAX ==> m@ == passthrough_message(raw@)),
        ParseResult::Full(issues) => issues.len() < usize::MAX ==> (r matches Ok(res) && analyzed(res, issues, options)),
        ParseResult::Degraded(issues, _) => issues.len() < usize::MAX ==> (r matches Ok(res) && analyzed(res, issues, options)),
    }
}

/// The issues of a finished run whose parsed issues, filtered, are `kept`:
/// those, or, when the run failed and none was kept, the one error issue
/// (file `unknown`) that carries the exit code and the raw output.
pub open spec fn run_issues_ok(stream: StreamResult, kept: Seq<Issue>, out: AnalysisResult) -> bool {
    if stream.exit_code != 0 && kept.len() == 0 {
        out.issues().len() == 1
            && out.issues()[0].level == IssueLevel::Error
            && out.issues()[0].message@ == failure_message(stream.exit_code, opt_view(stream.raw_stdout), opt_view(stream.raw_stderr))
            && out.issues()[0].location.file_path@ == "unknown"@
    } else {
        out.issues() == kept
    }
}

/// What a run gives, from its stream and the parse of its filtered text: a
/// parse error for text passed through; otherwise the parsed issues
/// filtered by the options, completed as `finish_run` does (exit code,
/// failure flag, and the failure issue when a failed run kept none).
pub open spec fn run_of(stream: StreamResult, p: ParseResult<Seq<Issue>>, options: AnalyzeOptions, r: Result<AnalysisResult, AnalyzerError>) -> bool {
    match p {
        ParseResult::Passthrough(raw) => r matches Err(AnalyzerError::ParseError(m))
            && (utf8_len(raw@) <= u64::MAX ==> m@ == passthrough_message(raw@)),
        ParseResult::Full(issues) => issues.len() < usize::MAX ==> (r matches Ok(out)
            && out.wf() && out.exit_code == Some(stream.exit_code) && out.command_failed == (stream.exit_code != 0)
            && run_issues_ok(stream, analyzed_issues(issues, options), out)),
        ParseResult::Degraded(issues, _) => issues.len() < usize::MAX ==> (r matches Ok(out)
            && out.wf() && out.exit_code == Some(stream.exit_code) && out.command_failed == (stream.exit_code != 0)
            && run_issues_ok(stream, analyzed_issues(issues, options), out)),
    }
}

/// Number of UTF-8 bytes of a text (saturating at `u64::MAX`).
fn byte_len(s: &str) -> (r: u64)
    ensures
        utf8_len(s@) <= u64::MAX ==> r == utf8_len(s@),
{
    let v = crate::text::chars_of(s);
    let mut n: u64 = 0;
    let mut i: usize = 0;
    while i < v.len()
        invariant
            i <= v@.len(),
            v@ == s@,
            utf8_len(v@.take(i as int)) <= u64::MAX ==> n == utf8_len(v@.take(i as int)),
            utf8_len(v@.take(i as int)) > u64::MAX ==> n == u64::MAX,
        decreases v@.len() - i,
    {
        assert(v@.take(i + 1).drop_last() =~= v@.take(i as int));
        let c = v[i] as u32;
        let w: u64 = if c < 0x80 { 1 } else if c < 0x800 { 2 } else if c < 0x10000 { 3 } else { 4 };
        n = if n > u64::MAX - w { u64::MAX } else { n + w };
        i += 1;
    }
    assert(v@.take(v@.len() as int) =~= v@);
    n
}

/// Parses processed output and filters the result by the options.
pub fn parse_and_analyze<P: OutputParser>(parser: &P, processed_output: &str, options: &AnalyzeOptions) -> (r: Result<AnalysisResult, AnalyzerError>)
    ensures
        analysis_of(parser.parsed(processed_output@), *options, r),
{
    analyze_parsed(parser.parse(processed_output), options)
}

/// Analyzes build-log text without running a command: the text goes
/// through the post-processor, then the parser, then the option filters.
/// No command ran, so the exit code stays unset and the run is not failed.
pub fn analyze_log_text<P: OutputParser>(raw: &str, processor: &OutputPostProcessor, parser: &P, options: &AnalyzeOptions) -> (r: Result<AnalysisResult, AnalyzerError>)
    requires
        processor.patterns_valid(),
        short_circuit_ok(processor.short_circuits@, processor.prepared(raw@)),
    ensures
        analysis_of(parser.parsed(processor.finished(processor.prepared(raw@))), *options, r),
{
    let processed = processor.process(raw);
    parse_and_analyze(parser, processed.as_str(), options)
}

/// `analyze_log_text` with the post-processor resolved for `command`
/// (options merged with the matching filter); `None` when one of its
/// patterns does not compile or a short circuit cannot be used.
pub fn try_analyze_log_text<P: OutputParser>(raw: &str, command: &str, registry: &FilterRegistry, parser: &P, options: &AnalyzeOptions) -> (r: Option<Result<AnalysisResult, AnalyzerError>>)
    ensures
        exists|p: OutputPostProcessor| #[trigger] resolved_for(p, command@, *registry, *options)
            && (r is None <==> !(p.patterns_valid() && short_circuit_ok(p.short_circuits@, p.prepared(raw@))))
            && (r matches Some(a) ==> analysis_of(parser.parsed(p.finished(p.prepared(raw@))), *options, a)),
{
    let processor = resolve_processor(command, registry, options);
    match processor.try_process(raw) {
        Some(processed) => Some(parse_and_analyze(parser, processed.as_str(), options)),
        None => None,
    }
}

/// The raw output kept for a tee file: stdout and stderr, separated by a
/// newline when both were captured.
pub fn raw_for_tee(stream: &StreamResult) -> (r: String)
    ensures
        r@ == match (stream.raw_stdout, stream.raw_stderr) {
            (Some(o), Some(e)) => o@ + "\n"@ + e@,
            (Some(o), None) => o@,
            (None, Some(e)) => e@,
            (None, None) => Seq::<char>::empty(),
        },
{
    match (&stream.raw_stdout, &stream.raw_stderr) {
        (Some(o), Some(e)) => {
            let mut s = o.clone();
            s.append("\n");
            s.append(e.as_str());
            s
        },
        (Some(o), None) => o.clone(),
        (None, Some(e)) => e.clone(),
        (None, None) => String::new(),
    }
}

/// The text of an `i32`.
pub open spec fn int_text(n: i32) -> Seq<char> {
    if n < 0 { "-"@ + decimal((-(n as int)) as nat) } else { decimal(n as nat) }
}

/// The text of an `i32`.
pub fn int_string(n: i32) -> (r: String)
    ensures
        r@ == int_text(n),
{
    if n < 0 {
        let mut s = String::from_str("-");
        let m: u64 = (-(n as i64)) as u64;
        let d = decimal_string(m);
        s.append(d.as_str());
        s
    } else {
        decimal_string(n as u64)
    }
}

/// The message of the issue added when a command failed and no issue was
/// parsed: the exit code and the raw output, so that the cause shows.
pub open spec fn failure_message(exit_code: i32, out: Option<Seq<char>>, err: Option<Seq<char>>) -> Seq<char> {
    let head = "Command failed (exit code "@ + int_text(exit_code) + ")."@;
    match (out, err) {
        (Some(o), Some(e)) => if e.len() > 0 { head + " Raw output:\n"@ + o + "\n"@ + e } else { head + " Raw output:\n"@ + o },
        (Some(o), None) => head + " Raw output:\n"@ + o,
        (None, Some(e)) => if e.len() > 0 { head + " Raw output:\n"@ + e } else { head + " No output captured."@ },
        (None, None) => head + " No output captured."@,
    }
}

/// The message of the issue added when a command failed and no issue was parsed.
pub fn failure_text(stream: &StreamResult) -> (r: String)
    ensures
        r@ == failure_message(stream.exit_code, crate::pattern::opt_view(stream.raw_stdout), crate::pattern::opt_view(stream.raw_stderr)),
{
    let mut s = String::from_str("Command failed (exit code ");
    let c = int_string(stream.exit_code);
    s.append(c.as_str());
    s.append(").");
    match (&stream.raw_stdout, &stream.raw_stderr) {
        (Some(o), Some(e)) => {
            s.append(" Raw output:\n");
            s.append(o.as_str());
            if e.as_str().unicode_len() > 0 {
                s.append("\n");
                s.append(e.as_str());
            }
        },
        (Some(o), None) => {
            s.append(" Raw output:\n");
            s.append(o.as_str());
        },
        (None, Some(e)) => {
            if e.as_str().unicode_len() > 0 {
                s.append(" Raw output:\n");
                s.append(e.as_str());
            } else {
                s.append(" No output captured.");
            }
        },
        (None, None) => {
            s.append(" No output captured.");
        },
    }
    s
}

/// The result of a run from its streamed output and what the parser made
/// of the filtered text: the exit code recorded, the run failed when it is
/// not 0, and, when it failed with no issue parsed, one error issue (file
/// `unknown`) carrying the raw output.
pub fn finish_run(stream: &StreamResult, parsed: Result<AnalysisResult, AnalyzerError>) -> (r: Result<AnalysisResult, AnalyzerError>)
    requires
        parsed matches Ok(res) ==> res.wf(),
    ensures
        match parsed {
            Err(e) => r matches Err(e2) && e2 == e,
            Ok(res) => r matches Ok(out) && {
                &&& out.wf()
                &&& out.exit_code == Some(stream.exit_code)
                &&& out.command_failed == (stream.exit_code != 0)
                &&& if stream.exit_code != 0 && res.total_issues == 0 {
                    out.issues().len() == 1
                        && out.issues()[0].level == IssueLevel::Error
                        && out.issues()[0].message@ == failure_message(stream.exit_code,
                            crate::pattern::opt_view(stream.raw_stdout), crate::pattern::opt_view(stream.raw_stderr))
                        && out.issues()[0].location.file_path@ == "unknown"@
                } else {
                    out.issues() == res.issues()
                }
            },
        },
{
    match parsed {
        Err(e) => Err(e),
        Ok(mut r) => {
            r.exit_code = Some(stream.exit_code);
            r.command_failed = stream.exit_code != 0;
            if stream.exit_code != 0 && r.total_issues == 0 {
                let msg = failure_text(stream);
                let issue = Issue::new(IssueLevel::Error, msg.as_str(), Location::new("unknown"));
                proof { reveal_strlit("unknown"); }
                r.add_issue(issue);
            }
            Ok(r)
        },
    }
}

/// The tech stack name of a command line: its first word, `unknown` when
/// it has none.
pub fn command_tech(command: &str) -> (r: String)
    ensures
        r@ == if words(command@).len() > 0 { words(command@)[0] } else { "unknown"@ },
{
    let ws = words_of(command);
    if ws.len() > 0 { ws[0].clone() } else { String::from_str("unknown") }
}

/// The result of a run whose output was streamed through the filter: the
/// filtered text parsed and filtered by the options, then completed as
/// `finish_run` says.
pub fn run_analyzer<P: OutputParser>(stream: &StreamResult, parser: &P, options: &AnalyzeOptions) -> (r: Result<AnalysisResult, AnalyzerError>)
    ensures
        r matches Ok(out) ==> out.exit_code == Some(stream.exit_code) && out.command_failed == (stream.exit_code != 0),
        run_of(*stream, parser.parsed(stream.filtered@), *options, r),
{
    let parsed = parse_and_analyze(parser, stream.filtered.as_str(), options);
    match parsed {
        Ok(res) => finish_run(stream, Ok(res)),
        Err(e) => Err(e),
    }
}

} // verus!
