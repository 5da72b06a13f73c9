//! Overrides of the configuration by `ANALYZER_*` environment variables.

use vstd::prelude::*;
use crate::config::global::AppConfig;
use crate::config::modules::{FilterConfig, ReportConfig, TeeConfig, TeeMode};
use crate::text::{digits_value, parse_usize, parses_as_usize, str_eq, unsigned_digits};

verus! {

/// The values of the `ANALYZER_*` variables (`None` when a variable is
/// unset or not valid Unicode).
#[derive(Debug, Clone)]
pub struct EnvVars {
    /// `ANALYZER_FORMAT`
    pub format: Option<String>,
    /// `ANALYZER_VERBOSITY`
    pub verbosity: Option<String>,
    /// `ANALYZER_VERBOSE`
    pub verbose: Option<String>,
    /// `ANALYZER_STRIP_ANSI`
    pub strip_ansi: Option<String>,
    /// `ANALYZER_MAX_LINES`
    pub max_lines: Option<String>,
    /// `ANALYZER_MAX_LINE_LENGTH`
    pub max_line_length: Option<String>,
    /// `ANALYZER_TEE`
    pub tee: Option<String>,
    /// `ANALYZER_TEE_DIR`
    pub tee_dir: Option<String>,
    /// `ANALYZER_TEE_MODE`
    pub tee_mode: Option<String>,
}

/// `true` or `1`.
pub open spec fn truthy(v: Seq<char>) -> bool {
    v == "true"@ || v == "1"@
}

/// The verbosity after the overrides: `ANALYZER_VERBOSITY` sets it, then
/// `ANALYZER_VERBOSE` sets `verbose` (when truthy) or `normal`.
pub open spec fn verbosity_after(old: Seq<char>, e: EnvVars) -> Seq<char> {
    let v = match e.verbosity {
        Some(x) => x@,
        None => old,
    };
    match e.verbose {
        Some(x) => if truthy(x@) {
            "verbose"@
        } else {
            "normal"@
        },
        None => v,
    }
}

/// A number variable overrides `old` when it parses as a `usize`.
pub open spec fn number_after(old: usize, v: Option<String>) -> usize {
    match v {
        Some(x) => if parses_as_usize(x@) {
            digits_value(unsigned_digits(x@)) as usize
        } else {
            old
        },
        None => old,
    }
}

/// `ANALYZER_TEE`: `false`/`0` disables, `true`/`1` enables, anything else
/// leaves the setting.
pub open spec fn tee_enabled_after(old: bool, v: Option<String>) -> bool {
    match v {
        Some(x) => if x@ == "false"@ || x@ == "0"@ {
            false
        } else if truthy(x@) {
            true
        } else {
            old
        },
        None => old,
    }
}

/// `ANALYZER_TEE_MODE`: `always`, `failures` or `never`; anything else
/// leaves the setting.
pub open spec fn tee_mode_after(old: TeeMode, v: Option<String>) -> TeeMode {
    match v {
        Some(x) => if x@ == "always"@ {
            TeeMode::Always
        } else if x@ == "failures"@ {
            TeeMode::Failures
        } else if x@ == "never"@ {
            TeeMode::Never
        } else {
            old
        },
        None => old,
    }
}

fn override_number(old: usize, v: &Option<String>) -> (r: usize)
    ensures
        r == number_after(old, *v),
{
    match v {
        Some(x) => match parse_usize(x.as_str()) {
            Some(n) => n,
            None => old,
        },
        None => old,
    }
}

fn is_truthy(v: &str) -> (r: bool)
    ensures
        r == truthy(v@),
{
    str_eq(v, "true") || str_eq(v, "1")
}

/// The string that an optional override leaves.
pub open spec fn text_after(old: Seq<char>, v: Option<String>) -> Seq<char> {
    match v {
        Some(x) => x@,
        None => old,
    }
}

fn apply_report_env(report: &mut ReportConfig, env: &EnvVars)
    ensures
        final(report).format@ == text_after(old(report).format@, env.format),
        final(report).verbosity@ == verbosity_after(old(report).verbosity@, *env),
        *final(report) == (ReportConfig {
            format: final(report).format,
            verbosity: final(report).verbosity,
            ..*old(report)
        }),
{
    match &env.format {
        Some(v) => {
            report.format = v.clone();
        },
        None => {},
    }
    match &env.verbosity {
        Some(v) => {
            report.verbosity = v.clone();
        },
        None => {},
    }
    match &env.verbose {
        Some(v) => {
            if is_truthy(v.as_str()) {
                report.verbosity = String::from_str("verbose");
            } else {
                report.verbosity = String::from_str("normal");
            }
        },
        None => {},
    }
}

fn apply_filter_env(filter: &mut FilterConfig, env: &EnvVars)
    ensures
        final(filter).strip_ansi == match env.strip_ansi {
            Some(x) => truthy(x@),
            None => old(filter).strip_ansi,
        },
        final(filter).max_lines == number_after(old(filter).max_lines, env.max_lines),
        final(filter).max_line_length == number_after(old(filter).max_line_length, env.max_line_length),
        *final(filter) == (FilterConfig {
            strip_ansi: final(filter).strip_ansi,
            max_lines: final(filter).max_lines,
            max_line_length: final(filter).max_line_length,
            ..*old(filter)
        }),
{
    match &env.strip_ansi {
        Some(v) => {
            filter.strip_ansi = is_truthy(v.as_str());
        },
        None => {},
    }
    filter.max_lines = override_number(filter.max_lines, &env.max_lines);
    filter.max_line_length = override_number(filter.max_line_length, &env.max_line_length);
}

fn apply_tee_env(tee: &mut TeeConfig, env: &EnvVars)
    ensures
        final(tee).enabled == tee_enabled_after(old(tee).enabled, env.tee),
        final(tee).directory == match env.tee_dir {
            Some(x) => Some(x),
            None => old(tee).directory,
        },
        final(tee).mode == tee_mode_after(old(tee).mode, env.tee_mode),
        *final(tee) == (TeeConfig {
            enabled: final(tee).enabled,
            directory: final(tee).directory,
            mode: final(tee).mode,
            ..*old(tee)
        }),
{
    match &env.tee {
        Some(v) => {
            if str_eq(v.as_str(), "false") || str_eq(v.as_str(), "0") {
                tee.enabled = false;
            } else if is_truthy(v.as_str()) {
                tee.enabled = true;
            }
        },
        None => {},
    }
    match &env.tee_dir {
        Some(v) => {
            tee.directory = Some(v.clone());
        },
        None => {},
    }
    match &env.tee_mode {
        Some(v) => {
            if str_eq(v.as_str(), "always") {
                tee.mode = TeeMode::Always;
            } else if str_eq(v.as_str(), "failures") {
                tee.mode = TeeMode::Failures;
            } else if str_eq(v.as_str(), "never") {
                tee.mode = TeeMode::Never;
            }
        },
        None => {},
    }
}

/// Applies the overrides of `env` to `config`: format, verbosity, ANSI
/// stripping, line limits, and the tee switch, directory and mode; every
/// other setting stays.
pub fn apply_env_vars(config: &mut AppConfig, env: &EnvVars)
    ensures
        final(config).report.format@ == text_after(old(config).report.format@, env.format),
        final(config).report.verbosity@ == verbosity_after(old(config).report.verbosity@, *env),
        final(config).filter.strip_ansi == match env.strip_ansi {
            Some(x) => truthy(x@),
            None => old(config).filter.strip_ansi,
        },
        final(config).filter.max_lines == number_after(old(config).filter.max_lines, env.max_lines),
        final(config).filter.max_line_length == number_after(old(config).filter.max_line_length, env.max_line_length),
        final(config).tee.enabled == tee_enabled_after(old(config).tee.enabled, env.tee),
        final(config).tee.directory == match env.tee_dir {
            Some(x) => Some(x),
            None => old(config).tee.directory,
        },
        final(config).tee.mode == tee_mode_after(old(config).tee.mode, env.tee_mode),
        *final(config) == (AppConfig {
            report: ReportConfig {
                format: final(config).report.format,
                verbosity: final(config).report.verbosity,
                ..old(config).report
            },
            filter: FilterConfig {
                strip_ansi: final(config).filter.strip_ansi,
                max_lines: final(config).filter.max_lines,
                max_line_length: final(config).filter.max_line_length,
                ..old(config).filter
            },
            tee: TeeConfig {
                enabled: final(config).tee.enabled,
                directory: final(config).tee.directory,
                mode: final(config).tee.mode,
                ..old(config).tee
            },
            ..*old(config)
        }),
{
    apply_report_env(&mut config.report, env);
    apply_filter_env(&mut config.filter, env);
    apply_tee_env(&mut config.tee, env);
}

} // verus!
