//! Options shared by all reporters.

use vstd::prelude::*;
use crate::analysis::types::Verbosity;

verus! {

/// Report generation options.
#[derive(Debug, Clone)]
pub struct ReportOptions {
    /// Detail level: minimal reports skip the details, verbose ones show
    /// everything without truncation.
    pub verbose: Verbosity,
    /// When nothing was found, print a single confirmation line.
    pub success_short_circuit: bool,
    /// Name used in the confirmation line (e.g. `cargo check`).
    pub tech_stack: Option<String>,
}

impl Default for ReportOptions {
    fn default() -> (r: ReportOptions)
        ensures
            r.verbose == Verbosity::Normal,
            !r.success_short_circuit,
            r.tech_stack is None,
            r == ReportOptions::default_value(),
    {
        ReportOptions { verbose: Verbosity::Normal, success_short_circuit: false, tech_stack: None }
    }
}

/// The confirmation line for a run without issues.
pub open spec fn short_circuit_line(options: ReportOptions) -> Option<Seq<char>> {
    if options.success_short_circuit {
        Some(
            match options.tech_stack {
                Some(t) => t@,
                None => "analysis"@,
            } + ": no issues found"@,
        )
    } else {
        None
    }
}

impl ReportOptions {
    /// The default options: normal verbosity, no short-circuit, no tech stack.
    pub open spec fn default_value() -> ReportOptions {
        ReportOptions { verbose: Verbosity::Normal, success_short_circuit: false, tech_stack: None }
    }

    /// `<tech stack>: no issues found` (`analysis` without a tech stack) when
    /// the short-circuit is enabled.
    pub fn short_circuit_message(&self) -> (r: Option<String>)
        ensures
            crate::pattern::opt_view(r) == short_circuit_line(*self),
    {
        if self.success_short_circuit {
            let mut s = match &self.tech_stack {
                Some(t) => t.clone(),
                None => String::from_str("analysis"),
            };
            s.append(": no issues found");
            Some(s)
        } else {
            None
        }
    }
}

} // verus!
