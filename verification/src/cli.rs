//! Command-line handling: the analyzer's own flags, option parsing, and
//! the positional arguments (tech stack and command).

use vstd::prelude::*;
use crate::analysis::options::AnalyzeOptions;
use crate::analysis::parser::{split_all, split_all_exec};
use crate::analysis::types::{format_named, stack_name, stack_named, ReportFormat, SubCommand, TechStack, Verbosity};
use crate::config::global::AppConfig;
use crate::config::modules::{lookup, lookup_key};
use crate::report::options::ReportOptions;
use crate::text::{contains, digits_value, lowercase, parse_usize, parses_as_usize, str_contains, str_eq, to_lowercase, trim, trim_str, unsigned_digits, views};

verus! {

/// The analyzer's own flags (flags with several spellings are one flag).
#[derive(Debug, Clone, Copy, PartialEq, Eq, Structural)]
pub enum Flag {
    Help,
    Version,
    FilterWarnings,
    Verbose,
    Quiet,
    Stdout,
    NoShortCircuit,
    FilterPaths,
    Output,
    Format,
    MaxIssues,
    Workspace,
    Package,
    Exclude,
    Lib,
    Bin,
    Bins,
    Test,
    Tests,
    Example,
    Examples,
    Bench,
    Benches,
    AllTargets,
    Features,
    AllFeatures,
    NoDefaultFeatures,
    SourceDir,
    BuildDir,
    CmakeGenerator,
    Target,
    TargetFiles,
    IncludePath,
    Define,
    CppStd,
    /// Not a flag of the analyzer.
    Other,
}

/// The flag that an argument spells.
#[verifier::opaque]
pub open spec fn flag_of(s: Seq<char>) -> Flag {
    if s == "--help"@ || s == "-h"@ {
        Flag::Help
    } else if s == "--version"@ || s == "-v"@ {
        Flag::Version
    } else if s == "--filter-warnings"@ {
        Flag::FilterWarnings
    } else if s == "--verbose"@ {
        Flag::Verbose
    } else if s == "--quiet"@ || s == "-q"@ {
        Flag::Quiet
    } else if s == "--stdout"@ {
        Flag::Stdout
    } else if s == "--no-short-circuit"@ {
        Flag::NoShortCircuit
    } else if s == "--filter-paths"@ {
        Flag::FilterPaths
    } else if s == "--output"@ || s == "-o"@ || s == "--file"@ || s == "-f"@ {
        Flag::Output
    } else if s == "--format"@ {
        Flag::Format
    } else if s == "--max-issues"@ {
        Flag::MaxIssues
    } else if s == "--workspace"@ {
        Flag::Workspace
    } else if s == "--package"@ || s == "-p"@ {
        Flag::Package
    } else if s == "--exclude"@ {
        Flag::Exclude
    } else if s == "--lib"@ {
        Flag::Lib
    } else if s == "--bin"@ {
        Flag::Bin
    } else if s == "--bins"@ {
        Flag::Bins
    } else if s == "--test"@ {
        Flag::Test
    } else if s == "--tests"@ {
        Flag::Tests
    } else if s == "--example"@ {
        Flag::Example
    } else if s == "--examples"@ {
        Flag::Examples
    } else if s == "--bench"@ {
        Flag::Bench
    } else if s == "--benches"@ {
        Flag::Benches
    } else if s == "--all-targets"@ {
        Flag::AllTargets
    } else if s == "--features"@ {
        Flag::Features
    } else if s == "--all-features"@ {
        Flag::AllFeatures
    } else if s == "--no-default-features"@ {
        Flag::NoDefaultFeatures
    } else if s == "--source-dir"@ {
        Flag::SourceDir
    } else if s == "--build-dir"@ {
        Flag::BuildDir
    } else if s == "--cmake-generator"@ {
        Flag::CmakeGenerator
    } else if s == "--target"@ {
        Flag::Target
    } else if s == "--target-files"@ {
        Flag::TargetFiles
    } else if s == "-I"@ || s == "--include-path"@ {
        Flag::IncludePath
    } else if s == "-D"@ || s == "--define"@ {
        Flag::Define
    } else if s == "--cpp-std"@ {
        Flag::CppStd
    } else {
        Flag::Other
    }
}

/// Whether a flag takes the following argument as its value.
pub open spec fn takes_value(f: Flag) -> bool {
    f == Flag::FilterPaths || f == Flag::Output || f == Flag::Format || f == Flag::MaxIssues || f == Flag::Package || f == Flag::Exclude || f == Flag::Bin || f == Flag::Test || f == Flag::Example || f == Flag::Bench || f == Flag::Features || f == Flag::SourceDir || f == Flag::BuildDir || f == Flag::CmakeGenerator || f == Flag::Target || f == Flag::TargetFiles || f == Flag::IncludePath || f == Flag::Define || f == Flag::CppStd
}

/// Flags that take the following argument as their value.
pub open spec fn is_value_flag(s: Seq<char>) -> bool {
    takes_value(flag_of(s))
}

/// Flags that stand alone.
pub open spec fn is_switch_flag(s: Seq<char>) -> bool {
    flag_of(s) != Flag::Other && !takes_value(flag_of(s))
}

/// The flag that an argument spells.
pub fn classify_flag(s: &str) -> (r: Flag)
    ensures
        r == flag_of(s@),
{
    proof { reveal(flag_of); }
    if str_eq(s, "--help") || str_eq(s, "-h") {
        Flag::Help
    } else if str_eq(s, "--version") || str_eq(s, "-v") {
        Flag::Version
    } else if str_eq(s, "--filter-warnings") {
        Flag::FilterWarnings
    } else if str_eq(s, "--verbose") {
        Flag::Verbose
    } else if str_eq(s, "--quiet") || str_eq(s, "-q") {
        Flag::Quiet
    } else if str_eq(s, "--stdout") {
        Flag::Stdout
    } else if str_eq(s, "--no-short-circuit") {
        Flag::NoShortCircuit
    } else if str_eq(s, "--filter-paths") {
        Flag::FilterPaths
    } else if str_eq(s, "--output") || str_eq(s, "-o") || str_eq(s, "--file") || str_eq(s, "-f") {
        Flag::Output
    } else if str_eq(s, "--format") {
        Flag::Format
    } else if str_eq(s, "--max-issues") {
        Flag::MaxIssues
    } else if str_eq(s, "--workspace") {
        Flag::Workspace
    } else if str_eq(s, "--package") || str_eq(s, "-p") {
        Flag::Package
    } else if str_eq(s, "--exclude") {
        Flag::Exclude
    } else if str_eq(s, "--lib") {
        Flag::Lib
    } else if str_eq(s, "--bin") {
        Flag::Bin
    } else if str_eq(s, "--bins") {
        Flag::Bins
    } else if str_eq(s, "--test") {
        Flag::Test
    } else if str_eq(s, "--tests") {
        Flag::Tests
    } else if str_eq(s, "--example") {
        Flag::Example
    } else if str_eq(s, "--examples") {
        Flag::Examples
    } else if str_eq(s, "--bench") {
        Flag::Bench
    } else if str_eq(s, "--benches") {
        Flag::Benches
    } else if str_eq(s, "--all-targets") {
        Flag::AllTargets
    } else if str_eq(s, "--features") {
        Flag::Features
    } else if str_eq(s, "--all-features") {
        Flag::AllFeatures
    } else if str_eq(s, "--no-default-features") {
        Flag::NoDefaultFeatures
    } else if str_eq(s, "--source-dir") {
        Flag::SourceDir
    } else if str_eq(s, "--build-dir") {
        Flag::BuildDir
    } else if str_eq(s, "--cmake-generator") {
        Flag::CmakeGenerator
    } else if str_eq(s, "--target") {
        Flag::Target
    } else if str_eq(s, "--target-files") {
        Flag::TargetFiles
    } else if str_eq(s, "-I") || str_eq(s, "--include-path") {
        Flag::IncludePath
    } else if str_eq(s, "-D") || str_eq(s, "--define") {
        Flag::Define
    } else if str_eq(s, "--cpp-std") {
        Flag::CppStd
    } else {
        Flag::Other
    }
}

/// Whether a flag takes a value.
pub fn flag_takes_value(flag: &str) -> (r: bool)
    ensures
        r == is_value_flag(flag@),
{
    match classify_flag(flag) {
        Flag::FilterPaths => true,
        Flag::Output => true,
        Flag::Format => true,
        Flag::MaxIssues => true,
        Flag::Package => true,
        Flag::Exclude => true,
        Flag::Bin => true,
        Flag::Test => true,
        Flag::Example => true,
        Flag::Bench => true,
        Flag::Features => true,
        Flag::SourceDir => true,
        Flag::BuildDir => true,
        Flag::CmakeGenerator => true,
        Flag::Target => true,
        Flag::TargetFiles => true,
        Flag::IncludePath => true,
        Flag::Define => true,
        Flag::CppStd => true,
        _ => false,
    }
}

/// Whether a flag is one of the analyzer's own (as opposed to an argument
/// for the build tool).
pub fn is_known_analyzer_flag(flag: &str) -> (r: bool)
    ensures
        r == (is_switch_flag(flag@) || is_value_flag(flag@)),
{
    match classify_flag(flag) {
        Flag::Other => false,
        _ => true,
    }
}

// ───────────────────────────── the option scan ─────────────────────────────

/// A flag the scan looks at, with its value when it takes one and one follows.
pub type Token = (Seq<char>, Option<Seq<char>>);

/// The flags that `parse_options_from_args` looks at from `i` on: each
/// argument, its value (the next argument) taken along and skipped when it
/// takes one.
pub open spec fn scan(args: Seq<Seq<char>>, i: int) -> Seq<Token>
    decreases args.len() - i,
{
    if i < 0 || i >= args.len() {
        seq![]
    } else {
        let v = if is_value_flag(args[i]) && i + 1 < args.len() { Some(args[i + 1]) } else { None };
        seq![(args[i], v)] + scan(args, if v is Some { i + 2 } else { i + 1 })
    }
}

/// Whether one of the tokens is the flag `f`.
pub open spec fn has_flag(t: Seq<Token>, f: Flag) -> bool {
    exists|k: int| 0 <= k < t.len() && flag_of((#[trigger] t[k]).0) == f
}

/// The values given to the flag `f`, in order.
pub open spec fn values_of(t: Seq<Token>, f: Flag) -> Seq<Seq<char>>
    decreases t.len(),
{
    if t.len() == 0 {
        seq![]
    } else if flag_of(t.last().0) == f && t.last().1 is Some {
        values_of(t.drop_last(), f).push(t.last().1->0)
    } else {
        values_of(t.drop_last(), f)
    }
}

/// The last value given to the flag `f`.
pub open spec fn last_value(t: Seq<Token>, f: Flag) -> Option<Seq<char>>
    decreases t.len(),
{
    if t.len() == 0 {
        None
    } else if flag_of(t.last().0) == f && t.last().1 is Some {
        t.last().1
    } else {
        last_value(t.drop_last(), f)
    }
}

/// The verbosity the last verbosity flag sets.
pub open spec fn last_verbosity(t: Seq<Token>) -> Option<Verbosity>
    decreases t.len(),
{
    if t.len() == 0 {
        None
    } else if flag_of(t.last().0) == Flag::Verbose {
        Some(Verbosity::Verbose)
    } else if flag_of(t.last().0) == Flag::Quiet {
        Some(Verbosity::Minimal)
    } else {
        last_verbosity(t.drop_last())
    }
}

/// Whether the report goes to stdout only, as the last of `--stdout` and an
/// output path (which sends it to a file) sets it.
pub open spec fn last_stdout(t: Seq<Token>) -> Option<bool>
    decreases t.len(),
{
    if t.len() == 0 {
        None
    } else if flag_of(t.last().0) == Flag::Stdout {
        Some(true)
    } else if flag_of(t.last().0) == Flag::Output && t.last().1 is Some {
        Some(false)
    } else {
        last_stdout(t.drop_last())
    }
}

/// The last valid report format given with `--format`.
pub open spec fn last_format(t: Seq<Token>) -> Option<ReportFormat>
    decreases t.len(),
{
    if t.len() == 0 {
        None
    } else if flag_of(t.last().0) == Flag::Format && t.last().1 is Some && format_named(lowercase(t.last().1->0)) is Some {
        format_named(lowercase(t.last().1->0))
    } else {
        last_format(t.drop_last())
    }
}

/// The last valid number given with `--max-issues`.
pub open spec fn last_max_issues(t: Seq<Token>) -> Option<usize>
    decreases t.len(),
{
    if t.len() == 0 {
        None
    } else if flag_of(t.last().0) == Flag::MaxIssues && t.last().1 is Some && parses_as_usize(t.last().1->0) {
        Some(digits_value(unsigned_digits(t.last().1->0)) as usize)
    } else {
        last_max_issues(t.drop_last())
    }
}

/// The message for a value of `--format` that names no format.
pub open spec fn format_error(v: Seq<char>) -> Seq<char> {
    "Invalid format '"@ + v + "': "@ + ("Unknown report format: "@ + v)
        + "\nSupported formats: markdown, json, html, raw, raw-json"@
}

/// The message for a value of `--max-issues` that is not a number.
pub open spec fn max_issues_error(v: Seq<char>) -> Seq<char> {
    "Invalid value for --max-issues: '"@ + v + "' (expected a non-negative integer)"@
}

/// The errors reported for invalid values, in order.
pub open spec fn flag_errors(t: Seq<Token>) -> Seq<Seq<char>>
    decreases t.len(),
{
    if t.len() == 0 {
        seq![]
    } else {
        let prev = flag_errors(t.drop_last());
        let tok = t.last();
        if flag_of(tok.0) == Flag::Format && tok.1 is Some && format_named(lowercase(tok.1->0)) is None {
            prev.push(format_error(tok.1->0))
        } else if flag_of(tok.0) == Flag::MaxIssues && tok.1 is Some && !parses_as_usize(tok.1->0) {
            prev.push(max_issues_error(tok.1->0))
        } else {
            prev
        }
    }
}

/// A comma-separated list, each item trimmed.
pub open spec fn comma_list(v: Seq<char>) -> Seq<Seq<char>> {
    split_all(v, ',').map_values(|s: Seq<char>| trim(s))
}

/// The options after the flags `t` were applied to `o0`.
pub open spec fn options_after(o0: AnalyzeOptions, o: AnalyzeOptions, t: Seq<Token>) -> bool {
    &&& o.filter_warnings == (o0.filter_warnings || has_flag(t, Flag::FilterWarnings))
    &&& o.workspace == (o0.workspace || has_flag(t, Flag::Workspace))
    &&& o.lib == (o0.lib || has_flag(t, Flag::Lib))
    &&& o.bins == (o0.bins || has_flag(t, Flag::Bins))
    &&& o.tests == (o0.tests || has_flag(t, Flag::Tests))
    &&& o.examples == (o0.examples || has_flag(t, Flag::Examples))
    &&& o.benches == (o0.benches || has_flag(t, Flag::Benches))
    &&& o.all_targets == (o0.all_targets || has_flag(t, Flag::AllTargets))
    &&& o.all_features == (o0.all_features || has_flag(t, Flag::AllFeatures))
    &&& o.no_default_features == (o0.no_default_features || has_flag(t, Flag::NoDefaultFeatures))
    &&& o.success_short_circuit == (o0.success_short_circuit && !has_flag(t, Flag::NoShortCircuit))
    &&& o.verbosity == match last_verbosity(t) { Some(v) => v, None => o0.verbosity }
    &&& o.stdout_only == match last_stdout(t) { Some(b) => b, None => o0.stdout_only }
    &&& o.report_format == match last_format(t) { Some(f) => f, None => o0.report_format }
    &&& o.max_issues == match last_max_issues(t) { Some(n) => Some(n), None => o0.max_issues }
    &&& views(o.package@) == views(o0.package@) + values_of(t, Flag::Package)
    &&& views(o.exclude@) == views(o0.exclude@) + values_of(t, Flag::Exclude)
    &&& views(o.bin@) == views(o0.bin@) + values_of(t, Flag::Bin)
    &&& views(o.test@) == views(o0.test@) + values_of(t, Flag::Test)
    &&& views(o.example@) == views(o0.example@) + values_of(t, Flag::Example)
    &&& views(o.bench@) == views(o0.bench@) + values_of(t, Flag::Bench)
    &&& views(o.features@) == views(o0.features@) + values_of(t, Flag::Features)
    &&& views(o.include_paths@) == views(o0.include_paths@) + values_of(t, Flag::IncludePath)
    &&& views(o.defines@) == views(o0.defines@) + values_of(t, Flag::Define)
    &&& crate::pattern::opt_view(o.output_file) == match last_value(t, Flag::Output) { Some(v) => Some(v), None => crate::pattern::opt_view(o0.output_file) }
    &&& crate::pattern::opt_view(o.source_dir) == match last_value(t, Flag::SourceDir) { Some(v) => Some(v), None => crate::pattern::opt_view(o0.source_dir) }
    &&& crate::pattern::opt_view(o.build_dir) == match last_value(t, Flag::BuildDir) { Some(v) => Some(v), None => crate::pattern::opt_view(o0.build_dir) }
    &&& crate::pattern::opt_view(o.cmake_generator) == match last_value(t, Flag::CmakeGenerator) { Some(v) => Some(v), None => crate::pattern::opt_view(o0.cmake_generator) }
    &&& crate::pattern::opt_view(o.target) == match last_value(t, Flag::Target) { Some(v) => Some(v), None => crate::pattern::opt_view(o0.target) }
    &&& crate::pattern::opt_view(o.cpp_standard) == match last_value(t, Flag::CppStd) { Some(v) => Some(v), None => crate::pattern::opt_view(o0.cpp_standard) }
    &&& views(o.filter_paths@) == match last_value(t, Flag::FilterPaths) { Some(v) => comma_list(v), None => views(o0.filter_paths@) }
    &&& views(o.target_files@) == match last_value(t, Flag::TargetFiles) { Some(v) => comma_list(v), None => views(o0.target_files@) }
    &&& o.subcommand == o0.subcommand
    &&& o.raw_tech_stack == o0.raw_tech_stack
    &&& o.noise_patterns == o0.noise_patterns
    &&& o.keep_patterns == o0.keep_patterns
    &&& o.max_output_lines == o0.max_output_lines
    &&& o.max_line_length == o0.max_line_length
    &&& o.strip_ansi == o0.strip_ansi
    &&& o.strip_tui_frames == o0.strip_tui_frames
}

proof fn lemma_has_flag_push(t: Seq<Token>, tok: Token, f: Flag)
    ensures
        has_flag(t.push(tok), f) == (has_flag(t, f) || flag_of(tok.0) == f),
{
    let u = t.push(tok);
    if has_flag(t, f) {
        let k = choose|k: int| 0 <= k < t.len() && flag_of((#[trigger] t[k]).0) == f;
        assert(u[k] == t[k]);
    }
    if flag_of(tok.0) == f {
        assert(u[t.len() as int] == tok);
    }
    if has_flag(u, f) {
        let k = choose|k: int| 0 <= k < u.len() && flag_of((#[trigger] u[k]).0) == f;
        if k < t.len() {
            assert(u[k] == t[k]);
        }
    }
}

/// Splits a comma-separated list and trims each item.
fn comma_items(v: &str) -> (r: Vec<String>)
    ensures
        views(r@) == comma_list(v@),
{
    let parts = split_all_exec(v, ',');
    let mut out: Vec<String> = Vec::new();
    let mut i: usize = 0;
    while i < parts.len()
        invariant
            i <= parts@.len(),
            views(out@) == views(parts@).take(i as int).map_values(|s: Seq<char>| trim(s)),
        decreases parts@.len() - i,
    {
        let ghost before = out@;
        let t = trim_str(parts[i].as_str());
        out.push(t);
        assert(views(out@) =~= views(before).push(t@));
        assert(views(parts@).take(i + 1).map_values(|s: Seq<char>| trim(s)) =~= views(parts@).take(i as int).map_values(|s: Seq<char>| trim(s)).push(trim(parts@[i as int]@)));
        i += 1;
    }
    assert(views(parts@).take(parts@.len() as int) =~= views(parts@));
    out
}

/// The view of an optional string slice.
pub open spec fn opt_str(v: Option<&str>) -> Option<Seq<char>> {
    match v {
        Some(s) => Some(s@),
        None => None,
    }
}

/// One more token: how each reading of the token list changes.
proof fn lemma_step(done: Seq<Token>, tok: Token)
    ensures
        has_flag(done.push(tok), Flag::FilterWarnings) == (has_flag(done, Flag::FilterWarnings) || flag_of(tok.0) == Flag::FilterWarnings),
        has_flag(done.push(tok), Flag::Workspace) == (has_flag(done, Flag::Workspace) || flag_of(tok.0) == Flag::Workspace),
        has_flag(done.push(tok), Flag::Lib) == (has_flag(done, Flag::Lib) || flag_of(tok.0) == Flag::Lib),
        has_flag(done.push(tok), Flag::Bins) == (has_flag(done, Flag::Bins) || flag_of(tok.0) == Flag::Bins),
        has_flag(done.push(tok), Flag::Tests) == (has_flag(done, Flag::Tests) || flag_of(tok.0) == Flag::Tests),
        has_flag(done.push(tok), Flag::Examples) == (has_flag(done, Flag::Examples) || flag_of(tok.0) == Flag::Examples),
        has_flag(done.push(tok), Flag::Benches) == (has_flag(done, Flag::Benches) || flag_of(tok.0) == Flag::Benches),
        has_flag(done.push(tok), Flag::AllTargets) == (has_flag(done, Flag::AllTargets) || flag_of(tok.0) == Flag::AllTargets),
        has_flag(done.push(tok), Flag::AllFeatures) == (has_flag(done, Flag::AllFeatures) || flag_of(tok.0) == Flag::AllFeatures),
        has_flag(done.push(tok), Flag::NoDefaultFeatures) == (has_flag(done, Flag::NoDefaultFeatures) || flag_of(tok.0) == Flag::NoDefaultFeatures),
        has_flag(done.push(tok), Flag::NoShortCircuit) == (has_flag(done, Flag::NoShortCircuit) || flag_of(tok.0) == Flag::NoShortCircuit),
        values_of(done.push(tok), Flag::Package) == if flag_of(tok.0) == Flag::Package && tok.1 is Some { values_of(done, Flag::Package).push(tok.1->0) } else { values_of(done, Flag::Package) },
        values_of(done.push(tok), Flag::Exclude) == if flag_of(tok.0) == Flag::Exclude && tok.1 is Some { values_of(done, Flag::Exclude).push(tok.1->0) } else { values_of(done, Flag::Exclude) },
        values_of(done.push(tok), Flag::Bin) == if flag_of(tok.0) == Flag::Bin && tok.1 is Some { values_of(done, Flag::Bin).push(tok.1->0) } else { values_of(done, Flag::Bin) },
        values_of(done.push(tok), Flag::Test) == if flag_of(tok.0) == Flag::Test && tok.1 is Some { values_of(done, Flag::Test).push(tok.1->0) } else { values_of(done, Flag::Test) },
        values_of(done.push(tok), Flag::Example) == if flag_of(tok.0) == Flag::Example && tok.1 is Some { values_of(done, Flag::Example).push(tok.1->0) } else { values_of(done, Flag::Example) },
        values_of(done.push(tok), Flag::Bench) == if flag_of(tok.0) == Flag::Bench && tok.1 is Some { values_of(done, Flag::Bench).push(tok.1->0) } else { values_of(done, Flag::Bench) },
        values_of(done.push(tok), Flag::Features) == if flag_of(tok.0) == Flag::Features && tok.1 is Some { values_of(done, Flag::Features).push(tok.1->0) } else { values_of(done, Flag::Features) },
        values_of(done.push(tok), Flag::IncludePath) == if flag_of(tok.0) == Flag::IncludePath && tok.1 is Some { values_of(done, Flag::IncludePath).push(tok.1->0) } else { values_of(done, Flag::IncludePath) },
        values_of(done.push(tok), Flag::Define) == if flag_of(tok.0) == Flag::Define && tok.1 is Some { values_of(done, Flag::Define).push(tok.1->0) } else { values_of(done, Flag::Define) },
        last_value(done.push(tok), Flag::Output) == if flag_of(tok.0) == Flag::Output && tok.1 is Some { tok.1 } else { last_value(done, Flag::Output) },
        last_value(done.push(tok), Flag::SourceDir) == if flag_of(tok.0) == Flag::SourceDir && tok.1 is Some { tok.1 } else { last_value(done, Flag::SourceDir) },
        last_value(done.push(tok), Flag::BuildDir) == if flag_of(tok.0) == Flag::BuildDir && tok.1 is Some { tok.1 } else { last_value(done, Flag::BuildDir) },
        last_value(done.push(tok), Flag::CmakeGenerator) == if flag_of(tok.0) == Flag::CmakeGenerator && tok.1 is Some { tok.1 } else { last_value(done, Flag::CmakeGenerator) },
        last_value(done.push(tok), Flag::Target) == if flag_of(tok.0) == Flag::Target && tok.1 is Some { tok.1 } else { last_value(done, Flag::Target) },
        last_value(done.push(tok), Flag::CppStd) == if flag_of(tok.0) == Flag::CppStd && tok.1 is Some { tok.1 } else { last_value(done, Flag::CppStd) },
        last_value(done.push(tok), Flag::FilterPaths) == if flag_of(tok.0) == Flag::FilterPaths && tok.1 is Some { tok.1 } else { last_value(done, Flag::FilterPaths) },
        last_value(done.push(tok), Flag::TargetFiles) == if flag_of(tok.0) == Flag::TargetFiles && tok.1 is Some { tok.1 } else { last_value(done, Flag::TargetFiles) },
        last_verbosity(done.push(tok)) == if flag_of(tok.0) == Flag::Verbose { Some(Verbosity::Verbose) } else if flag_of(tok.0) == Flag::Quiet { Some(Verbosity::Minimal) } else { last_verbosity(done) },
        last_stdout(done.push(tok)) == if flag_of(tok.0) == Flag::Stdout { Some(true) } else if flag_of(tok.0) == Flag::Output && tok.1 is Some { Some(false) } else { last_stdout(done) },
        last_format(done.push(tok)) == if flag_of(tok.0) == Flag::Format && tok.1 is Some && format_named(lowercase(tok.1->0)) is Some { format_named(lowercase(tok.1->0)) } else { last_format(done) },
        last_max_issues(done.push(tok)) == if flag_of(tok.0) == Flag::MaxIssues && tok.1 is Some && parses_as_usize(tok.1->0) { Some(digits_value(unsigned_digits(tok.1->0)) as usize) } else { last_max_issues(done) },
        flag_errors(done.push(tok)) == if flag_of(tok.0) == Flag::Format && tok.1 is Some && format_named(lowercase(tok.1->0)) is None { flag_errors(done).push(format_error(tok.1->0)) } else if flag_of(tok.0) == Flag::MaxIssues && tok.1 is Some && !parses_as_usize(tok.1->0) { flag_errors(done).push(max_issues_error(tok.1->0)) } else { flag_errors(done) },
{
    assert(done.push(tok).drop_last() =~= done);
    lemma_has_flag_push(done, tok, Flag::FilterWarnings);
    lemma_has_flag_push(done, tok, Flag::Workspace);
    lemma_has_flag_push(done, tok, Flag::Lib);
    lemma_has_flag_push(done, tok, Flag::Bins);
    lemma_has_flag_push(done, tok, Flag::Tests);
    lemma_has_flag_push(done, tok, Flag::Examples);
    lemma_has_flag_push(done, tok, Flag::Benches);
    lemma_has_flag_push(done, tok, Flag::AllTargets);
    lemma_has_flag_push(done, tok, Flag::AllFeatures);
    lemma_has_flag_push(done, tok, Flag::NoDefaultFeatures);
    lemma_has_flag_push(done, tok, Flag::NoShortCircuit);
}

/// Applies a switch that turns an option on.
#[verifier::rlimit(50)]
fn apply_switch_a(options: &mut AnalyzeOptions, errors: &mut Vec<String>, flag: Flag, arg: &str, value: Option<&str>, Ghost(o0): Ghost<AnalyzeOptions>, Ghost(done): Ghost<Seq<Token>>)
    requires
        options_after(o0, *old(options), done),
        views(old(errors)@) == flag_errors(done),
        flag == flag_of(arg@),
        value is Some ==> takes_value(flag),
        (flag == Flag::FilterWarnings || flag == Flag::Workspace || flag == Flag::Lib || flag == Flag::Bins || flag == Flag::Tests),
    ensures
        options_after(o0, *final(options), done.push((arg@, opt_str(value)))),
        views(final(errors)@) == flag_errors(done.push((arg@, opt_str(value)))),
{
    proof { lemma_step(done, (arg@, opt_str(value))); }
    match flag {
        Flag::FilterWarnings => {
            options.filter_warnings = true;
        },
        Flag::Workspace => {
            options.workspace = true;
        },
        Flag::Lib => {
            options.lib = true;
        },
        Flag::Bins => {
            options.bins = true;
        },
        Flag::Tests => {
            options.tests = true;
        },
        _ => {},
    }
}

/// Applies a switch that turns an option on.
#[verifier::rlimit(50)]
fn apply_switch_b(options: &mut AnalyzeOptions, errors: &mut Vec<String>, flag: Flag, arg: &str, value: Option<&str>, Ghost(o0): Ghost<AnalyzeOptions>, Ghost(done): Ghost<Seq<Token>>)
    requires
        options_after(o0, *old(options), done),
        views(old(errors)@) == flag_errors(done),
        flag == flag_of(arg@),
        value is Some ==> takes_value(flag),
        (flag == Flag::Examples || flag == Flag::Benches || flag == Flag::AllTargets || flag == Flag::AllFeatures || flag == Flag::NoDefaultFeatures),
    ensures
        options_after(o0, *final(options), done.push((arg@, opt_str(value)))),
        views(final(errors)@) == flag_errors(done.push((arg@, opt_str(value)))),
{
    proof { lemma_step(done, (arg@, opt_str(value))); }
    match flag {
        Flag::Examples => {
            options.examples = true;
        },
        Flag::Benches => {
            options.benches = true;
        },
        Flag::AllTargets => {
            options.all_targets = true;
        },
        Flag::AllFeatures => {
            options.all_features = true;
        },
        Flag::NoDefaultFeatures => {
            options.no_default_features = true;
        },
        _ => {},
    }
}

/// Applies a switch for verbosity, output or short-circuit, or one that changes no option.
#[verifier::rlimit(50)]
fn apply_mode_switch(options: &mut AnalyzeOptions, errors: &mut Vec<String>, flag: Flag, arg: &str, value: Option<&str>, Ghost(o0): Ghost<AnalyzeOptions>, Ghost(done): Ghost<Seq<Token>>)
    requires
        options_after(o0, *old(options), done),
        views(old(errors)@) == flag_errors(done),
        flag == flag_of(arg@),
        value is Some ==> takes_value(flag),
        (flag == Flag::Verbose || flag == Flag::Quiet || flag == Flag::Stdout || flag == Flag::NoShortCircuit || flag == Flag::Help || flag == Flag::Version || flag == Flag::Other),
    ensures
        options_after(o0, *final(options), done.push((arg@, opt_str(value)))),
        views(final(errors)@) == flag_errors(done.push((arg@, opt_str(value)))),
{
    proof { lemma_step(done, (arg@, opt_str(value))); }
    match flag {
        Flag::Verbose => {
            options.verbosity = Verbosity::Verbose;
        },
        Flag::Quiet => {
            options.verbosity = Verbosity::Minimal;
        },
        Flag::Stdout => {
            options.stdout_only = true;
        },
        Flag::NoShortCircuit => {
            options.success_short_circuit = false;
        },
        Flag::Help => {},
        Flag::Version => {},
        Flag::Other => {},
        _ => {},
    }
}

/// Applies a flag whose value is appended to a list.
#[verifier::rlimit(50)]
fn apply_list_flag(options: &mut AnalyzeOptions, errors: &mut Vec<String>, flag: Flag, arg: &str, value: Option<&str>, Ghost(o0): Ghost<AnalyzeOptions>, Ghost(done): Ghost<Seq<Token>>)
    requires
        options_after(o0, *old(options), done),
        views(old(errors)@) == flag_errors(done),
        flag == flag_of(arg@),
        value is Some ==> takes_value(flag),
        (flag == Flag::Package || flag == Flag::Exclude || flag == Flag::Bin || flag == Flag::Test || flag == Flag::Example || flag == Flag::Bench || flag == Flag::Features || flag == Flag::IncludePath || flag == Flag::Define),
    ensures
        options_after(o0, *final(options), done.push((arg@, opt_str(value)))),
        views(final(errors)@) == flag_errors(done.push((arg@, opt_str(value)))),
{
    proof { lemma_step(done, (arg@, opt_str(value))); }
    match flag {
        Flag::Package => match value {
            Some(v) => {
                let ghost before = options.package@;
                options.package.push(String::from_str(v));
                assert(views(options.package@) =~= views(before).push(v@));
            },
            None => {},
        },
        Flag::Exclude => match value {
            Some(v) => {
                let ghost before = options.exclude@;
                options.exclude.push(String::from_str(v));
                assert(views(options.exclude@) =~= views(before).push(v@));
            },
            None => {},
        },
        Flag::Bin => match value {
            Some(v) => {
                let ghost before = options.bin@;
                options.bin.push(String::from_str(v));
                assert(views(options.bin@) =~= views(before).push(v@));
            },
            None => {},
        },
        Flag::Test => match value {
            Some(v) => {
                let ghost before = options.test@;
                options.test.push(String::from_str(v));
                assert(views(options.test@) =~= views(before).push(v@));
            },
            None => {},
        },
        Flag::Example => match value {
            Some(v) => {
                let ghost before = options.example@;
                options.example.push(String::from_str(v));
                assert(views(options.example@) =~= views(before).push(v@));
            },
            None => {},
        },
        Flag::Bench => match value {
            Some(v) => {
                let ghost before = options.bench@;
                options.bench.push(String::from_str(v));
                assert(views(options.bench@) =~= views(before).push(v@));
            },
            None => {},
        },
        Flag::Features => match value {
            Some(v) => {
                let ghost before = options.features@;
                options.features.push(String::from_str(v));
                assert(views(options.features@) =~= views(before).push(v@));
            },
            None => {},
        },
        Flag::IncludePath => match value {
            Some(v) => {
                let ghost before = options.include_paths@;
                options.include_paths.push(String::from_str(v));
                assert(views(options.include_paths@) =~= views(before).push(v@));
            },
            None => {},
        },
        Flag::Define => match value {
            Some(v) => {
                let ghost before = options.defines@;
                options.defines.push(String::from_str(v));
                assert(views(options.defines@) =~= views(before).push(v@));
            },
            None => {},
        },
        _ => {},
    }
}

/// Applies a flag whose value replaces an option.
#[verifier::rlimit(50)]
fn apply_setting_flag(options: &mut AnalyzeOptions, errors: &mut Vec<String>, flag: Flag, arg: &str, value: Option<&str>, Ghost(o0): Ghost<AnalyzeOptions>, Ghost(done): Ghost<Seq<Token>>)
    requires
        options_after(o0, *old(options), done),
        views(old(errors)@) == flag_errors(done),
        flag == flag_of(arg@),
        value is Some ==> takes_value(flag),
        (flag == Flag::Output || flag == Flag::SourceDir || flag == Flag::BuildDir || flag == Flag::CmakeGenerator || flag == Flag::Target || flag == Flag::CppStd || flag == Flag::FilterPaths || flag == Flag::TargetFiles),
    ensures
        options_after(o0, *final(options), done.push((arg@, opt_str(value)))),
        views(final(errors)@) == flag_errors(done.push((arg@, opt_str(value)))),
{
    proof { lemma_step(done, (arg@, opt_str(value))); }
    match flag {
        Flag::FilterPaths => match value {
            Some(v) => {
                options.filter_paths = comma_items(v);
            },
            None => {},
        },
        Flag::TargetFiles => match value {
            Some(v) => {
                options.target_files = comma_items(v);
            },
            None => {},
        },
        Flag::Output => match value {
            Some(v) => {
                options.output_file = Some(String::from_str(v));
                options.stdout_only = false;
            },
            None => {},
        },
        Flag::SourceDir => match value {
            Some(v) => {
                options.source_dir = Some(String::from_str(v));
            },
            None => {},
        },
        Flag::BuildDir => match value {
            Some(v) => {
                options.build_dir = Some(String::from_str(v));
            },
            None => {},
        },
        Flag::CmakeGenerator => match value {
            Some(v) => {
                options.cmake_generator = Some(String::from_str(v));
            },
            None => {},
        },
        Flag::Target => match value {
            Some(v) => {
                options.target = Some(String::from_str(v));
            },
            None => {},
        },
        Flag::CppStd => match value {
            Some(v) => {
                options.cpp_standard = Some(String::from_str(v));
            },
            None => {},
        },
        _ => {},
    }
}

/// Applies a flag whose value is checked (`--format`, `--max-issues`).
#[verifier::rlimit(50)]
fn apply_checked_flag(options: &mut AnalyzeOptions, errors: &mut Vec<String>, flag: Flag, arg: &str, value: Option<&str>, Ghost(o0): Ghost<AnalyzeOptions>, Ghost(done): Ghost<Seq<Token>>)
    requires
        options_after(o0, *old(options), done),
        views(old(errors)@) == flag_errors(done),
        flag == flag_of(arg@),
        value is Some ==> takes_value(flag),
        (flag == Flag::Format || flag == Flag::MaxIssues),
    ensures
        options_after(o0, *final(options), done.push((arg@, opt_str(value)))),
        views(final(errors)@) == flag_errors(done.push((arg@, opt_str(value)))),
{
    proof { lemma_step(done, (arg@, opt_str(value))); }
    match flag {
        Flag::Format => match value {
            Some(v) => match ReportFormat::parse_name(v) {
                Ok(f) => {
                    options.report_format = f;
                },
                Err(e) => {
                    let mut m = String::from_str("Invalid format '");
                    m.append(v);
                    m.append("': ");
                    m.append(e.as_str());
                    m.append("\nSupported formats: markdown, json, html, raw, raw-json");
                    let ghost before = errors@;
                    errors.push(m);
                    assert(views(errors@) =~= views(before).push(m@));
                    assert(m@ =~= format_error(v@));
                },
            },
            None => {},
        },
        Flag::MaxIssues => match value {
            Some(v) => match parse_usize(v) {
                Some(n) => {
                    options.max_issues = Some(n);
                },
                None => {
                    let mut m = String::from_str("Invalid value for --max-issues: '");
                    m.append(v);
                    m.append("' (expected a non-negative integer)");
                    let ghost before = errors@;
                    errors.push(m);
                    assert(views(errors@) =~= views(before).push(m@));
                    assert(m@ =~= max_issues_error(v@));
                },
            },
            None => {},
        },
        _ => {},
    }
}

/// Applies one flag (with its value, when it takes one and one was given).
fn apply_flag(options: &mut AnalyzeOptions, errors: &mut Vec<String>, arg: &str, value: Option<&str>, Ghost(o0): Ghost<AnalyzeOptions>, Ghost(done): Ghost<Seq<Token>>)
    requires
        options_after(o0, *old(options), done),
        views(old(errors)@) == flag_errors(done),
        value is Some ==> is_value_flag(arg@),
    ensures
        options_after(o0, *final(options), done.push((arg@, opt_str(value)))),
        views(final(errors)@) == flag_errors(done.push((arg@, opt_str(value)))),
{
    let flag = classify_flag(arg);
    match flag {
        Flag::Package => apply_list_flag(options, errors, flag, arg, value, Ghost(o0), Ghost(done)),
        Flag::Exclude => apply_list_flag(options, errors, flag, arg, value, Ghost(o0), Ghost(done)),
        Flag::Bin => apply_list_flag(options, errors, flag, arg, value, Ghost(o0), Ghost(done)),
        Flag::Test => apply_list_flag(options, errors, flag, arg, value, Ghost(o0), Ghost(done)),
        Flag::Example => apply_list_flag(options, errors, flag, arg, value, Ghost(o0), Ghost(done)),
        Flag::Bench => apply_list_flag(options, errors, flag, arg, value, Ghost(o0), Ghost(done)),
        Flag::Features => apply_list_flag(options, errors, flag, arg, value, Ghost(o0), Ghost(done)),
        Flag::IncludePath => apply_list_flag(options, errors, flag, arg, value, Ghost(o0), Ghost(done)),
        Flag::Define => apply_list_flag(options, errors, flag, arg, value, Ghost(o0), Ghost(done)),
        Flag::Output => apply_setting_flag(options, errors, flag, arg, value, Ghost(o0), Ghost(done)),
        Flag::SourceDir => apply_setting_flag(options, errors, flag, arg, value, Ghost(o0), Ghost(done)),
        Flag::BuildDir => apply_setting_flag(options, errors, flag, arg, value, Ghost(o0), Ghost(done)),
        Flag::CmakeGenerator => apply_setting_flag(options, errors, flag, arg, value, Ghost(o0), Ghost(done)),
        Flag::Target => apply_setting_flag(options, errors, flag, arg, value, Ghost(o0), Ghost(done)),
        Flag::CppStd => apply_setting_flag(options, errors, flag, arg, value, Ghost(o0), Ghost(done)),
        Flag::FilterPaths => apply_setting_flag(options, errors, flag, arg, value, Ghost(o0), Ghost(done)),
        Flag::TargetFiles => apply_setting_flag(options, errors, flag, arg, value, Ghost(o0), Ghost(done)),
        Flag::Format | Flag::MaxIssues => apply_checked_flag(options, errors, flag, arg, value, Ghost(o0), Ghost(done)),
        Flag::FilterWarnings => apply_switch_a(options, errors, flag, arg, value, Ghost(o0), Ghost(done)),
        Flag::Workspace => apply_switch_a(options, errors, flag, arg, value, Ghost(o0), Ghost(done)),
        Flag::Lib => apply_switch_a(options, errors, flag, arg, value, Ghost(o0), Ghost(done)),
        Flag::Bins => apply_switch_a(options, errors, flag, arg, value, Ghost(o0), Ghost(done)),
        Flag::Tests => apply_switch_a(options, errors, flag, arg, value, Ghost(o0), Ghost(done)),
        Flag::Examples => apply_switch_b(options, errors, flag, arg, value, Ghost(o0), Ghost(done)),
        Flag::Benches => apply_switch_b(options, errors, flag, arg, value, Ghost(o0), Ghost(done)),
        Flag::AllTargets => apply_switch_b(options, errors, flag, arg, value, Ghost(o0), Ghost(done)),
        Flag::AllFeatures => apply_switch_b(options, errors, flag, arg, value, Ghost(o0), Ghost(done)),
        Flag::NoDefaultFeatures => apply_switch_b(options, errors, flag, arg, value, Ghost(o0), Ghost(done)),
        _ => apply_mode_switch(options, errors, flag, arg, value, Ghost(o0), Ghost(done)),
    }
}

/// Applies the analyzer flags found in `args[start_index..]` to `options`:
/// switches set their option, value flags take the next argument (a missing
/// value is tolerated), and positional arguments, unknown flags and
/// `--help` / `--version` are left to the caller. Invalid values of
/// `--format` and `--max-issues` are reported in the returned list.
pub fn parse_options_from_args(args: &Vec<String>, start_index: usize, options: &mut AnalyzeOptions) -> (r: Vec<String>)
    ensures
        options_after(*old(options), *final(options), scan(views(args@), start_index as int)),
        views(r@) == flag_errors(scan(views(args@), start_index as int)),
{
    let ghost argv = views(args@);
    let ghost o0 = *options;
    let mut errors: Vec<String> = Vec::new();
    let mut i: usize = start_index;
    let ghost mut done: Seq<Token> = seq![];
    proof {
        assert(done + scan(argv, i as int) =~= scan(argv, i as int));
        assert forall|f: Flag| !#[trigger] has_flag(done, f) by {}
    }
    while i < args.len()
        invariant
            argv == views(args@),
            start_index <= i,
            done + scan(argv, i as int) == scan(argv, start_index as int),
            options_after(o0, *options, done),
            views(errors@) == flag_errors(done),
            o0 == *old(options),
        decreases args@.len() - i,
    {
        let arg = args[i].as_str();
        let takes = flag_takes_value(arg);
        let value: Option<&str> = if takes && i + 1 < args.len() { Some(args[i + 1].as_str()) } else { None };
        let ghost tok: Token = (arg@, opt_str(value));
        proof {
            let v = if is_value_flag(argv[i as int]) && i + 1 < argv.len() { Some(argv[i + 1]) } else { None };
            assert(opt_str(value) == v);
            assert(scan(argv, i as int) == seq![tok] + scan(argv, if v is Some { i + 2 } else { i + 1 }));
        }
        apply_flag(options, &mut errors, arg, value, Ghost(o0), Ghost(done));
        proof {
            let next = if value.is_some() { i + 2 } else { i + 1 };
            assert(done.push(tok) + scan(argv, next as int) =~= done + scan(argv, i as int));
            done = done.push(tok);
        }
        if value.is_some() {
            i += 1;
        }
        i += 1;
    }
    proof {
        assert(scan(argv, i as int) =~= Seq::<Token>::empty());
        assert(done =~= scan(argv, start_index as int));
    }
    errors
}

/// Whether a subcommand is a test run: its lower-cased text contains `test`.
pub fn is_test_subcommand(subcommand: &Option<SubCommand>) -> (r: bool)
    ensures
        r == match subcommand {
            Some(s) => contains(lowercase(s.0@), "test"@),
            None => false,
        },
{
    match subcommand {
        Some(s) => {
            let l = to_lowercase(s.as_str());
            str_contains(l.as_str(), "test")
        },
        None => false,
    }
}

/// Report options from analysis options: the verbosity, the short-circuit
/// switch, and `<tech stack> <subcommand>` (or the tech stack alone) as the
/// name shown in the confirmation line.
pub fn to_report_options(options: &AnalyzeOptions, tech_stack: &TechStack, subcommand: Option<&SubCommand>) -> (r: ReportOptions)
    ensures
        r.verbose == options.verbosity,
        r.success_short_circuit == options.success_short_circuit,
        r.tech_stack is Some,
        r.tech_stack->0@ == match subcommand {
            Some(s) => crate::analysis::types::stack_name(*tech_stack) + " "@ + s.0@,
            None => crate::analysis::types::stack_name(*tech_stack),
        },
{
    let mut name = String::from_str(tech_stack.as_str());
    match subcommand {
        Some(s) => {
            name.append(" ");
            name.append(s.as_str());
        },
        None => {},
    }
    ReportOptions { verbose: options.verbosity, success_short_circuit: options.success_short_circuit, tech_stack: Some(name) }
}


// ───────────────────────────── positional arguments ─────────────────────────────

/// What the positional scan finds: help or version asked for, or the tech
/// stack and the command (either may be empty when missing).
#[derive(Debug, Clone)]
pub enum ArgScan {
    Help,
    Version,
    Found(String, String),
}

/// The positional scan from argument `i` on, with the tech stack and command
/// found so far: `--help`/`-h` asks for help; `--version`/`-v` asks for the
/// version before a tech stack and is the command after one; the analyzer's
/// flags are skipped with their values; the first two plain arguments are
/// the tech stack and the command; an unknown flag after the tech stack is
/// the command. The result is `(0, tech, command)`, `(1, ..)` for help or
/// `(2, ..)` for the version.
pub open spec fn positional_scan(args: Seq<Seq<char>>, i: int, tech: Seq<char>, cmd: Seq<char>) -> (int, Seq<char>, Seq<char>)
    decreases args.len() + 1 - i,
{
    if i < 0 || i >= args.len() {
        (0, tech, cmd)
    } else {
        let a = args[i];
        let f = flag_of(a);
        if f == Flag::Help {
            (1, tech, cmd)
        } else if f == Flag::Version {
            if tech.len() == 0 {
                (2, tech, cmd)
            } else {
                positional_scan(args, i + 1, tech, if cmd.len() == 0 { a } else { cmd })
            }
        } else if f != Flag::Other {
            positional_scan(args, if takes_value(f) { i + 2 } else { i + 1 }, tech, cmd)
        } else if !(a.len() > 0 && a[0] == '-') {
            if tech.len() == 0 {
                positional_scan(args, i + 1, a, cmd)
            } else if cmd.len() == 0 {
                positional_scan(args, i + 1, tech, a)
            } else {
                positional_scan(args, i + 1, tech, cmd)
            }
        } else if tech.len() > 0 && cmd.len() == 0 {
            positional_scan(args, i + 1, tech, a)
        } else {
            positional_scan(args, i + 1, tech, cmd)
        }
    }
}

/// Scans `args[1..]` for help, version, the tech stack and the command.
pub fn scan_positionals(args: &Vec<String>) -> (r: ArgScan)
    ensures
        match r {
            ArgScan::Help => positional_scan(views(args@), 1, seq![], seq![]).0 == 1,
            ArgScan::Version => positional_scan(views(args@), 1, seq![], seq![]).0 == 2,
            ArgScan::Found(t, c) => positional_scan(views(args@), 1, seq![], seq![]) == (0int, t@, c@),
        },
{
    let ghost argv = views(args@);
    let mut tech = String::new();
    let mut cmd = String::new();
    let mut i: usize = 1;
    while i < args.len()
        invariant
            argv == views(args@),
            1 <= i,
            positional_scan(argv, i as int, tech@, cmd@) == positional_scan(argv, 1, seq![], seq![]),
        decreases args@.len() - i,
    {
        let a = args[i].as_str();
        let f = classify_flag(a);
        assert(argv[i as int] == a@);
        match f {
            Flag::Help => {
                return ArgScan::Help;
            },
            Flag::Version => {
                if tech.as_str().unicode_len() == 0 {
                    return ArgScan::Version;
                }
                if cmd.as_str().unicode_len() == 0 {
                    cmd = String::from_str(a);
                }
                i += 1;
            },
            Flag::Other => {
                let av = crate::text::chars_of(a);
                let dash = av.len() > 0 && av[0] == '-';
                if !dash {
                    if tech.as_str().unicode_len() == 0 {
                        tech = String::from_str(a);
                    } else if cmd.as_str().unicode_len() == 0 {
                        cmd = String::from_str(a);
                    }
                } else if tech.as_str().unicode_len() > 0 && cmd.as_str().unicode_len() == 0 {
                    cmd = String::from_str(a);
                }
                i += 1;
            },
            _ => {
                if flag_takes_value(a) {
                    let ghost old_i = i;
                    if i + 1 >= args.len() {
                        i = args.len();
                        assert(positional_scan(argv, old_i + 2, tech@, cmd@) == (0int, tech@, cmd@));
                    } else {
                        i = i + 2;
                    }
                } else {
                    i += 1;
                }
            },
        }
    }
    ArgScan::Found(tech, cmd)
}

/// Why the arguments do not make a run: help or version was asked for, flag
/// values were invalid, or the tech stack or command is missing or unknown.
#[derive(Debug)]
pub enum ArgsError {
    Help,
    Version,
    InvalidOptions(Vec<String>),
    NoTechStack,
    NoCommand,
    UnknownTechStack(String),
}

/// A run: the tech stack, the options, and notes on how the command was
/// resolved.
#[derive(Debug)]
pub struct ParsedArguments {
    pub tech_stack: TechStack,
    pub options: AnalyzeOptions,
    pub notes: Vec<String>,
}

/// The command an alias of the configuration stands for, when it applies to
/// the tech stack (an alias without tech stacks applies to all).
pub open spec fn alias_target(commands: Seq<(String, crate::config::modules::CommandConfig)>, tech: Seq<char>, cmd: Seq<char>) -> Option<Seq<char>> {
    match lookup(commands, cmd) {
        Some(c) => if c.tech_stacks@.len() == 0 || views(c.tech_stacks@).contains(tech) { Some(c.command@) } else { None },
        None => None,
    }
}

/// The framework that a script of a tech stack resolves to.
pub open spec fn script_target(config: AppConfig, tech: Seq<char>, cmd: Seq<char>) -> Option<Seq<char>> {
    match lookup(config.tech_stacks@, tech) {
        Some(c) => match lookup(c.scripts@, cmd) {
            Some(s) => Some(s@),
            None => None,
        },
        None => None,
    }
}

/// The command after aliases and scripts are resolved.
pub open spec fn resolved_command(config: AppConfig, tech: Seq<char>, cmd: Seq<char>) -> Seq<char> {
    let c1 = match alias_target(config.commands@, tech, cmd) { Some(c) => c, None => cmd };
    match script_target(config, tech, c1) { Some(s) => s, None => c1 }
}

/// Options that the flags `t` made of options seeded from `config`.
pub open spec fn seeded_from(o: AnalyzeOptions, config: AppConfig, t: Seq<Token>) -> bool {
    exists|seed: AnalyzeOptions| crate::analysis::options::config_seeded(seed, config) && #[trigger] options_after(seed, o, t)
}

/// Whether a list of strings holds `s`.
fn holds(v: &Vec<String>, s: &str) -> (r: bool)
    ensures
        r == views(v@).contains(s@),
{
    let mut i: usize = 0;
    while i < v.len()
        invariant
            i <= v@.len(),
            forall|k: int| 0 <= k < i ==> (#[trigger] v@[k])@ != s@,
        decreases v@.len() - i,
    {
        if str_eq(v[i].as_str(), s) {
            assert(views(v@)[i as int] == s@);
            return true;
        }
        i += 1;
    }
    proof {
        if views(v@).contains(s@) {
            let k = choose|k: int| 0 <= k < views(v@).len() && views(v@)[k] == s@;
            assert(v@[k]@ == s@);
        }
    }
    false
}

/// Parses the command line: the analyzer's flags over the options seeded
/// from the configuration, then the positional tech stack and command; the
/// command goes through the configured aliases and script names and
/// becomes the subcommand.
#[verifier::rlimit(100)]
pub fn parse_arguments(args: &Vec<String>, config: &AppConfig) -> (r: Result<ParsedArguments, ArgsError>)
    ensures
        ({
            let argv = views(args@);
            let errs = flag_errors(scan(argv, 1));
            let p = positional_scan(argv, 1, seq![], seq![]);
            if errs.len() > 0 {
                r matches Err(ArgsError::InvalidOptions(e)) && views(e@) == errs
            } else if p.0 == 1 {
                r matches Err(ArgsError::Help)
            } else if p.0 == 2 {
                r matches Err(ArgsError::Version)
            } else if p.1.len() == 0 {
                r matches Err(ArgsError::NoTechStack)
            } else if p.2.len() == 0 {
                r matches Err(ArgsError::NoCommand)
            } else {
                match stack_named(lowercase(p.1)) {
                    None => r matches Err(ArgsError::UnknownTechStack(m)) && m@ == "Unknown tech stack: "@ + p.1,
                    Some(t) => r matches Ok(pa) && {
                        &&& pa.tech_stack == t
                        &&& pa.options.subcommand matches Some(sc) && sc.0@ == resolved_command(*config, p.1, p.2)
                        &&& seeded_from(AnalyzeOptions { subcommand: None, ..pa.options }, *config, scan(argv, 1))
                    },
                }
            }
        }),
{
    let mut options = AnalyzeOptions::from_config(config);
    let ghost seed = options;
    let errors = parse_options_from_args(args, 1, &mut options);
    if errors.len() > 0 {
        return Err(ArgsError::InvalidOptions(errors));
    }
    let (tech_str, cmd_str) = match scan_positionals(args) {
        ArgScan::Help => {
            return Err(ArgsError::Help);
        },
        ArgScan::Version => {
            return Err(ArgsError::Version);
        },
        ArgScan::Found(t, c) => (t, c),
    };
    if tech_str.as_str().unicode_len() == 0 {
        return Err(ArgsError::NoTechStack);
    }
    if cmd_str.as_str().unicode_len() == 0 {
        return Err(ArgsError::NoCommand);
    }
    let tech_stack = match TechStack::parse_name(tech_str.as_str()) {
        Ok(t) => t,
        Err(e) => {
            return Err(ArgsError::UnknownTechStack(e));
        },
    };
    let mut notes: Vec<String> = Vec::new();
    let mut command = cmd_str;
    let aliased: Option<String> = match lookup_key(&config.commands, command.as_str()) {
        Some(c) => {
            if c.tech_stacks.len() == 0 || holds(&c.tech_stacks, tech_str.as_str()) {
                Some(c.command.clone())
            } else {
                None
            }
        },
        None => None,
    };
    match aliased {
        Some(exec) => {
            let mut note = String::from_str("Using configured command '");
            note.append(exec.as_str());
            note.append("' for alias '");
            note.append(command.as_str());
            note.append("'");
            notes.push(note);
            command = exec;
        },
        None => {},
    }
    match config.resolve_script(tech_str.as_str(), command.as_str()) {
        Some(resolved) => {
            let mut note = String::from_str("Resolved script '");
            note.append(command.as_str());
            note.append("' to framework '");
            note.append(resolved.as_str());
            note.append("' via tech_stacks.");
            note.append(tech_str.as_str());
            notes.push(note);
            command = resolved;
        },
        None => {},
    }
    let ghost before_sub = options;
    options.subcommand = Some(SubCommand(command));
    proof {
        let o = AnalyzeOptions { subcommand: None, ..options };
        assert(options_after(seed, o, scan(views(args@), 1)));
        assert(seeded_from(o, *config, scan(views(args@), 1)));
    }
    Ok(ParsedArguments { tech_stack, options, notes })
}

/// The direct-form arguments for `analyzer run "<command>"`: the program
/// name, the tech stack, the subcommand with its extra arguments, then the
/// flags that followed the command string. `None` when the command is
/// missing, blank, or matches no rule (the message says why).
/// The message for a missing `run` command.
pub open spec fn missing_run_command() -> Seq<char> {
    "Error: 'run' requires a command, e.g. analyzer run \"cargo check\""@
}

/// The message for a command that matches no rule.
pub open spec fn no_rule_text(raw: Seq<char>) -> Seq<char> {
    "Error: no matching rule for command: "@ + trim(raw)
        + "\nOnly build tool commands from supported tech stacks are supported (e.g. \"cargo check\", \"npm run lint\", \"go vet ./...\")."@
}

/// The direct-mode arguments for `analyzer run "<command>" …`: the program,
/// the tech stack, the subcommand with its extra arguments, then the
/// arguments after the command; or the error message.
pub open spec fn run_argv(args: Seq<Seq<char>>, commands: Seq<(String, crate::config::modules::CommandConfig)>) -> Result<Seq<Seq<char>>, Seq<char>> {
    if args.len() < 3 || trim(args[2]).len() == 0 {
        Err(missing_run_command())
    } else {
        match crate::discover::registry::rewrite_of(
            crate::discover::registry::classify_spec(first_segment(args[2]), crate::discover::rules::spec_rules(), Some(commands)),
        ) {
            Some((t, sub, extra)) => Ok(seq![args[0], stack_name(t), crate::text::join(seq![sub] + extra, " "@)] + args.skip(3)),
            None => Err(no_rule_text(args[2])),
        }
    }
}

/// The view of a result of `resolve_run_args`.
pub open spec fn run_args_view(r: Result<Vec<String>, String>) -> Result<Seq<Seq<char>>, Seq<char>> {
    match r {
        Ok(v) => Ok(views(v@)),
        Err(m) => Err(m@),
    }
}

/// Resolves `analyzer run "<raw command>" [options]` into the direct form
/// `analyzer <tech-stack> "<subcommand>" [options]` (see `run_argv`).
pub fn resolve_run_args(args: &Vec<String>, config: &AppConfig) -> (r: Result<Vec<String>, String>)
    ensures
        run_args_view(r) =~~= run_argv(views(args@), config.commands@),
{
    let ghost argv = views(args@);
    if args.len() < 3 {
        return Err(String::from_str("Error: 'run' requires a command, e.g. analyzer run \"cargo check\""));
    }
    let raw = args[2].as_str();
    assert(argv[2] == raw@);
    if trim_str(raw).as_str().unicode_len() == 0 {
        return Err(String::from_str("Error: 'run' requires a command, e.g. analyzer run \"cargo check\""));
    }
    let (tech, sub, extra) = match resolve_raw_command(raw, &config.commands) {
        Some(x) => x,
        None => {
            return Err(no_rule_message(raw));
        },
    };
    let mut resolved: Vec<String> = Vec::new();
    resolved.push(args[0].clone());
    resolved.push(String::from_str(tech.as_str()));
    resolved.push(join_command(sub.as_str(), &extra));
    assert(views(resolved@) =~= seq![argv[0], stack_name(tech), crate::text::join(seq![sub@] + views(extra@), " "@)]);
    let ghost head = views(resolved@);
    let mut i: usize = 3;
    while i < args.len()
        invariant
            3 <= i <= args@.len(),
            argv == views(args@),
            views(resolved@) == head + argv.subrange(3, i as int),
        decreases args@.len() - i,
    {
        let ghost before = views(resolved@);
        resolved.push(args[i].clone());
        assert(views(resolved@) =~= before.push(argv[i as int]));
        assert(argv.subrange(3, i + 1) =~= argv.subrange(3, i as int).push(argv[i as int]));
        i += 1;
    }
    assert(argv.subrange(3, argv.len() as int) =~= argv.skip(3));
    Ok(resolved)
}

/// The first segment of a compound command (the whole command when it has
/// no operators).
pub open spec fn first_segment(raw: Seq<char>) -> Seq<char> {
    let segs = crate::discover::lexer::split_segments(raw);
    if segs.len() > 0 { segs[0] } else { raw }
}

/// Resolves a raw shell command for `run` and `rewrite`: only its first
/// segment is classified (with the configured aliases); the tech stack, the
/// subcommand and the extra arguments, or `None` when no rule matches.
pub fn resolve_raw_command(raw: &str, commands: &Vec<(String, crate::config::modules::CommandConfig)>) -> (r: Option<(TechStack, String, Vec<String>)>)
    ensures
        crate::discover::registry::rewrite_view(r) =~~= crate::discover::registry::rewrite_of(
            crate::discover::registry::classify_spec(first_segment(raw@), crate::discover::rules::spec_rules(), Some(commands@))),
{
    let segments = crate::discover::lexer::split_on_operators(raw);
    if segments.len() > 0 {
        assert(segments@[0]@ == first_segment(raw@));
        crate::discover::registry::rewrite_command_with_config(segments[0].as_str(), commands)
    } else {
        crate::discover::registry::rewrite_command_with_config(raw, commands)
    }
}

/// A subcommand followed by its extra arguments, separated by spaces.
pub fn join_command(sub: &str, extra: &Vec<String>) -> (r: String)
    ensures
        r@ == crate::text::join(seq![sub@] + views(extra@), " "@),
{
    let mut parts: Vec<String> = Vec::new();
    parts.push(String::from_str(sub));
    let mut i: usize = 0;
    while i < extra.len()
        invariant
            i <= extra@.len(),
            views(parts@) == seq![sub@] + views(extra@).take(i as int),
        decreases extra@.len() - i,
    {
        let ghost before = parts@;
        let x = extra[i].clone();
        parts.push(x);
        assert(views(parts@) =~= views(before).push(x@));
        assert(views(extra@).take(i + 1) =~= views(extra@).take(i as int).push(extra@[i as int]@));
        i += 1;
    }
    assert(views(extra@).take(extra@.len() as int) =~= views(extra@));
    crate::text::join_strings(&parts, " ")
}

/// The message for a command that matches no rule.
fn no_rule_message(raw: &str) -> (r: String)
    ensures
        r@ == no_rule_text(raw@),
{
    let mut m = String::from_str("Error: no matching rule for command: ");
    let t = trim_str(raw);
    m.append(t.as_str());
    m.append("\nOnly build tool commands from supported tech stacks are supported (e.g. \"cargo check\", \"npm run lint\", \"go vet ./...\").");
    m
}

/// The line `rewrite` prints: `analyzer <tech stack> "<command>"`.
pub fn rewrite_line(tech: TechStack, sub: &str, extra: &Vec<String>) -> (r: String)
    ensures
        r@ == "analyzer "@ + stack_name(tech) + " \""@ + crate::text::join(seq![sub@] + views(extra@), " "@) + "\""@,
{
    let mut s = String::from_str("analyzer ");
    s.append(tech.as_str());
    s.append(" \"");
    let c = join_command(sub, extra);
    s.append(c.as_str());
    s.append("\"");
    s
}

} // verus!
