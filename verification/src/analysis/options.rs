//! Options that steer an analysis run.

use vstd::prelude::*;
use crate::analysis::types::{ReportFormat, SubCommand, Verbosity};
use crate::config::global::AppConfig;
use crate::text::str_eq;

verus! {

/// Analysis options, seeded from the configuration and overridden by flags.
#[derive(Debug, Clone)]
pub struct AnalyzeOptions {
    pub subcommand: Option<SubCommand>,
    /// The tech stack name as typed (e.g. `ruby`, `rails`), kept beside the
    /// resolved stack so that the original alias can be recovered.
    pub raw_tech_stack: Option<String>,
    pub filter_warnings: bool,
    pub filter_paths: Vec<String>,
    pub noise_patterns: Vec<String>,
    pub keep_patterns: Vec<String>,
    pub max_output_lines: usize,
    pub max_line_length: usize,
    pub strip_ansi: bool,
    pub strip_tui_frames: bool,
    pub output_file: Option<String>,
    /// Write the report to stdout only, not to a file.
    pub stdout_only: bool,
    pub verbosity: Verbosity,
    pub source_dir: Option<String>,
    pub build_dir: Option<String>,
    pub cmake_generator: Option<String>,
    pub target: Option<String>,
    pub target_files: Vec<String>,
    pub include_paths: Vec<String>,
    pub defines: Vec<String>,
    pub cpp_standard: Option<String>,
    pub report_format: ReportFormat,
    /// When nothing was found, print a single confirmation line.
    pub success_short_circuit: bool,
    /// Maximum number of issues kept in a result; `None` or 0 is unlimited.
    pub max_issues: Option<usize>,
    pub workspace: bool,
    pub package: Vec<String>,
    pub exclude: Vec<String>,
    pub lib: bool,
    pub bin: Vec<String>,
    pub bins: bool,
    pub test: Vec<String>,
    pub tests: bool,
    pub example: Vec<String>,
    pub examples: bool,
    pub bench: Vec<String>,
    pub benches: bool,
    pub all_targets: bool,
    pub features: Vec<String>,
    pub all_features: bool,
    pub no_default_features: bool,
}

impl AnalyzeOptions {
    /// The options of a run with no configuration and no flags.
    pub open spec fn is_default(&self) -> bool {
        &&& self.output_defaults()
        &&& self.others_default()
    }

    /// The options that the configuration seeds are at their defaults.
    pub open spec fn output_defaults(&self) -> bool {
        &&& self.noise_patterns@.len() == 0
        &&& self.keep_patterns@.len() == 0
        &&& self.max_output_lines == 0
        &&& self.max_line_length == 0
        &&& !self.strip_ansi
        &&& !self.strip_tui_frames
        &&& !self.stdout_only
        &&& self.verbosity == Verbosity::Normal
        &&& self.report_format == ReportFormat::Markdown
        &&& !self.success_short_circuit
    }

    /// The options that the configuration does not seed are at their defaults.
    pub open spec fn others_default(&self) -> bool {
        &&& self.subcommand is None
        &&& self.raw_tech_stack is None
        &&& !self.filter_warnings
        &&& self.filter_paths@.len() == 0
        &&& self.output_file is None
        &&& self.source_dir is None
        &&& self.build_dir is None
        &&& self.cmake_generator is None
        &&& self.target is None
        &&& self.target_files@.len() == 0
        &&& self.include_paths@.len() == 0
        &&& self.defines@.len() == 0
        &&& self.cpp_standard is None
        &&& self.max_issues is None
        &&& !self.workspace
        &&& self.package@.len() == 0
        &&& self.exclude@.len() == 0
        &&& !self.lib
        &&& self.bin@.len() == 0
        &&& !self.bins
        &&& self.test@.len() == 0
        &&& !self.tests
        &&& self.example@.len() == 0
        &&& !self.examples
        &&& self.bench@.len() == 0
        &&& !self.benches
        &&& !self.all_targets
        &&& self.features@.len() == 0
        &&& !self.all_features
        &&& !self.no_default_features
    }
}

impl Default for AnalyzeOptions {
    fn default() -> (r: AnalyzeOptions)
        ensures
            r.is_default(),
    {
        AnalyzeOptions {
            subcommand: None,
            raw_tech_stack: None,
            filter_warnings: false,
            filter_paths: Vec::new(),
            noise_patterns: Vec::new(),
            keep_patterns: Vec::new(),
            max_output_lines: 0,
            max_line_length: 0,
            strip_ansi: false,
            strip_tui_frames: false,
            output_file: None,
            stdout_only: false,
            verbosity: Verbosity::Normal,
            source_dir: None,
            build_dir: None,
            cmake_generator: None,
            target: None,
            target_files: Vec::new(),
            include_paths: Vec::new(),
            defines: Vec::new(),
            cpp_standard: None,
            report_format: ReportFormat::Markdown,
            success_short_circuit: false,
            max_issues: None,
            workspace: false,
            package: Vec::new(),
            exclude: Vec::new(),
            lib: false,
            bin: Vec::new(),
            bins: false,
            test: Vec::new(),
            tests: false,
            example: Vec::new(),
            examples: false,
            bench: Vec::new(),
            benches: false,
            all_targets: false,
            features: Vec::new(),
            all_features: false,
            no_default_features: false,
        }
    }
}

/// The report format that the configuration's format name selects
/// (unknown names select markdown).
pub open spec fn config_format(name: Seq<char>) -> ReportFormat {
    if name == "json"@ { ReportFormat::Json }
    else if name == "html"@ { ReportFormat::Html }
    else if name == "raw"@ { ReportFormat::Raw }
    else if name == "raw-json"@ || name == "raw_json"@ { ReportFormat::RawJson }
    else { ReportFormat::Markdown }
}

/// The verbosity that the configuration's verbosity name selects
/// (unknown names select normal).
pub open spec fn config_verbosity(name: Seq<char>) -> Verbosity {
    if name == "minimal"@ { Verbosity::Minimal }
    else if name == "verbose"@ { Verbosity::Verbose }
    else { Verbosity::Normal }
}

/// The options seeded from a configuration, before any flag.
pub open spec fn config_seeded(r: AnalyzeOptions, config: AppConfig) -> bool {
    &&& r.report_format == config_format(config.report.format@)
    &&& r.verbosity == config_verbosity(config.report.verbosity@)
    &&& r.strip_ansi == config.filter.strip_ansi
    &&& r.strip_tui_frames == config.filter.strip_tui_frames
    &&& r.max_output_lines == config.filter.max_lines
    &&& r.max_line_length == config.filter.max_line_length
    &&& r.noise_patterns@ == config.filter.noise_patterns@
    &&& r.keep_patterns@ == config.filter.keep_patterns@
    &&& r.success_short_circuit == config.report.success_short_circuit
    &&& r.stdout_only
    &&& r.others_default()
}

/// Copies a list of strings.
pub fn copy_strings(v: &Vec<String>) -> (r: Vec<String>)
    ensures
        r@ == v@,
{
    let mut out: Vec<String> = Vec::new();
    let mut i: usize = 0;
    while i < v.len()
        invariant
            i <= v@.len(),
            out@ == v@.take(i as int),
        decreases v@.len() - i,
    {
        out.push(v[i].clone());
        assert(v@.take(i + 1) =~= v@.take(i as int).push(v@[i as int]));
        i += 1;
    }
    assert(v@.take(v@.len() as int) =~= v@);
    out
}

impl AnalyzeOptions {
    /// Options seeded from the configuration: format, verbosity, filters,
    /// limits and short-circuit from it, the report going to stdout, and
    /// every other option at its default. Flags override these afterwards.
    pub fn from_config(config: &AppConfig) -> (r: AnalyzeOptions)
        ensures
            config_seeded(r, *config),
    {
        let f = config.report.format.as_str();
        let report_format = if str_eq(f, "json") {
            ReportFormat::Json
        } else if str_eq(f, "html") {
            ReportFormat::Html
        } else if str_eq(f, "raw") {
            ReportFormat::Raw
        } else if str_eq(f, "raw-json") || str_eq(f, "raw_json") {
            ReportFormat::RawJson
        } else {
            ReportFormat::Markdown
        };
        let v = config.report.verbosity.as_str();
        let verbosity = if str_eq(v, "minimal") {
            Verbosity::Minimal
        } else if str_eq(v, "verbose") {
            Verbosity::Verbose
        } else {
            Verbosity::Normal
        };
        let mut opts = AnalyzeOptions::default();
        opts.report_format = report_format;
        opts.verbosity = verbosity;
        opts.strip_ansi = config.filter.strip_ansi;
        opts.strip_tui_frames = config.filter.strip_tui_frames;
        opts.max_output_lines = config.filter.max_lines;
        opts.max_line_length = config.filter.max_line_length;
        opts.noise_patterns = copy_strings(&config.filter.noise_patterns);
        opts.keep_patterns = copy_strings(&config.filter.keep_patterns);
        opts.success_short_circuit = config.report.success_short_circuit;
        opts.stdout_only = true;
        opts
    }
}

} // verus!
