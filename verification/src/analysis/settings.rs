//! The per-project settings file: report defaults, command overrides and
//! ignored paths.

use vstd::prelude::*;
use crate::config::modules::{lookup, lookup_key};
use crate::text::{str_eq, views};

verus! {

/// Report defaults.
#[derive(Debug, Clone)]
pub struct ReportConfig {
    /// Default report format: markdown, json or html.
    pub format: String,
    /// Show all issues without truncation.
    pub verbose: bool,
}

impl Default for ReportConfig {
    fn default() -> (r: ReportConfig)
        ensures
            r.format@ == "markdown"@,
            !r.verbose,
    {
        ReportConfig { format: String::from_str("markdown"), verbose: false }
    }
}

/// A command override.
#[derive(Debug, Clone)]
pub struct CommandConfig {
    /// The command to run instead.
    pub command: String,
    /// The tech stacks it applies to (all when empty).
    pub tech_stacks: Vec<String>,
}

/// Paths left out of analyses.
#[derive(Debug, Clone)]
pub struct FilterConfig {
    pub ignore_paths: Vec<String>,
}

impl Default for FilterConfig {
    fn default() -> (r: FilterConfig)
        ensures
            r.ignore_paths@.len() == 0,
    {
        FilterConfig { ignore_paths: Vec::new() }
    }
}

/// The settings file.
#[derive(Debug, Clone)]
pub struct Config {
    pub report: ReportConfig,
    /// Command overrides by name.
    pub commands: Vec<(String, CommandConfig)>,
    pub filter: FilterConfig,
}

impl Default for Config {
    fn default() -> (r: Config)
        ensures
            r.report.format@ == "markdown"@,
            !r.report.verbose,
            r.commands@.len() == 0,
            r.filter.ignore_paths@.len() == 0,
    {
        Config { report: ReportConfig::default(), commands: Vec::new(), filter: FilterConfig::default() }
    }
}

impl Config {
    /// The override named `name`, when it applies to `tech_stack` (it has
    /// no tech stacks, or lists this one).
    pub fn get_command(&self, name: &str, tech_stack: &str) -> (r: Option<&CommandConfig>)
        ensures
            match lookup(self.commands@, name@) {
                Some(c) => if c.tech_stacks@.len() == 0 || views(c.tech_stacks@).contains(tech_stack@) {
                    r is Some && *r->0 == c
                } else {
                    r is None
                },
                None => r is None,
            },
    {
        match lookup_key(&self.commands, name) {
            Some(c) => {
                if c.tech_stacks.len() == 0 {
                    return Some(c);
                }
                let mut i: usize = 0;
                while i < c.tech_stacks.len()
                    invariant
                        i <= c.tech_stacks@.len(),
                        lookup(self.commands@, name@) == Some(*c),
                        forall|k: int| 0 <= k < i ==> (#[trigger] c.tech_stacks@[k])@ != tech_stack@,
                    decreases c.tech_stacks@.len() - i,
                {
                    if str_eq(c.tech_stacks[i].as_str(), tech_stack) {
                        assert(views(c.tech_stacks@)[i as int] == tech_stack@);
                        return Some(c);
                    }
                    i += 1;
                }
                proof {
                    if views(c.tech_stacks@).contains(tech_stack@) {
                        let k = choose|k: int| 0 <= k < views(c.tech_stacks@).len() && views(c.tech_stacks@)[k] == tech_stack@;
                        assert(c.tech_stacks@[k]@ == tech_stack@);
                    }
                }
                None
            },
            None => None,
        }
    }
}

} // verus!
