//! The application configuration and its merging with project settings.

use vstd::prelude::*;
use crate::config::modules::{
    key_index, lemma_key_index_props, lemma_push_key, lookup, lookup_key, unique_keys, upsert, CommandConfig, FilterConfig, LimitsConfig, ReportConfig,
    TechStackConfig, TeeConfig,
};

verus! {

/// The whole configuration: global file, project file and environment merged.
#[derive(Debug, Clone)]
pub struct AppConfig {
    pub version: String,
    pub report: ReportConfig,
    pub filter: FilterConfig,
    pub commands: Vec<(String, CommandConfig)>,
    pub tech_stacks: Vec<(String, TechStackConfig)>,
    pub tee: TeeConfig,
    pub limits: LimitsConfig,
}

/// Project-level settings; each section present overrides the global one.
#[derive(Debug, Clone)]
pub struct ProjectAppConfig {
    pub report: Option<ReportConfig>,
    pub filter: Option<FilterConfig>,
    pub commands: Option<Vec<(String, CommandConfig)>>,
    pub tech_stacks: Option<Vec<(String, TechStackConfig)>>,
}

impl Default for ProjectAppConfig {
    fn default() -> (r: ProjectAppConfig)
        ensures
            r.report is None,
            r.filter is None,
            r.commands is None,
            r.tech_stacks is None,
    {
        ProjectAppConfig { report: None, filter: None, commands: None, tech_stacks: None }
    }
}

impl Default for AppConfig {
    fn default() -> (r: AppConfig)
        ensures
            r.version@ == "1.0"@,
            r.report.format@ == "markdown"@,
            r.report.verbosity@ == "normal"@,
            r.report.success_short_circuit,
            r.filter.strip_ansi,
            !r.filter.strip_tui_frames,
            r.filter.max_lines == 0,
            r.filter.max_line_length == 0,
            r.filter.noise_patterns@.len() == 0,
            r.filter.keep_patterns@.len() == 0,
            r.commands@.len() == 0,
            r.tech_stacks@.len() == 0,
            r.tee.enabled,
            r.tee.directory is None,
    {
        AppConfig {
            version: String::from_str("1.0"),
            report: ReportConfig::default(),
            filter: FilterConfig::default(),
            commands: Vec::new(),
            tech_stacks: Vec::new(),
            tee: TeeConfig::default(),
            limits: LimitsConfig::default(),
        }
    }
}

/// `base` with every entry of `over` set on it (entries of `over` win).
pub open spec fn overlay<V>(base: Seq<(String, V)>, over: Seq<(String, V)>, k: Seq<char>) -> Option<V> {
    match lookup(over, k) {
        Some(v) => Some(v),
        None => lookup(base, k),
    }
}

/// Looking a key up in one more entry of a table with unique keys.
proof fn lemma_lookup_extend<V>(over: Seq<(String, V)>, i: int, k: Seq<char>)
    requires
        0 <= i < over.len(),
        unique_keys(over),
    ensures
        lookup(over.take(i + 1), k) == if k == over[i].0@ { Some(over[i].1) } else { lookup(over.take(i), k) },
{
    let a = over.take(i);
    let b = over.take(i + 1);
    assert(b == a.push(over[i]));
    lemma_push_key(a, over[i], k);
    lemma_key_index_props(a, k);
    if k == over[i].0@ && key_index(a, k) < a.len() {
        assert(over[key_index(a, k) as int].0@ == over[i].0@);
    }
}

/// Sets every entry of `over` on `table`, in order.
fn extend_table<V>(table: &mut Vec<(String, V)>, over: Vec<(String, V)>)
    requires
        unique_keys(old(table)@),
        unique_keys(over@),
    ensures
        unique_keys(final(table)@),
        forall|k: Seq<char>| #[trigger] lookup(final(table)@, k) == overlay(old(table)@, over@, k),
{
    let ghost t0 = table@;
    let ghost all = over@;
    let mut rest = over;
    let ghost mut i: int = 0;
    while rest.len() > 0
        invariant
            0 <= i <= all.len(),
            rest@ == all.skip(i),
            unique_keys(table@),
            unique_keys(all),
            forall|k: Seq<char>| #[trigger] lookup(table@, k) == overlay(t0, all.take(i), k),
        decreases rest@.len(),
    {
        let (key, value) = rest.remove(0);
        assert(all[i] == (key, value));
        upsert(table, key, value);
        proof {
            assert forall|k: Seq<char>| #[trigger] lookup(table@, k) == overlay(t0, all.take(i + 1), k) by {
                lemma_lookup_extend(all, i, k);
            }
            assert(rest@ =~= all.skip(i + 1));
            i = i + 1;
        }
    }
    assert(all.take(all.len() as int) =~= all);
}

impl AppConfig {
    /// Both keyed tables hold each key once.
    pub open spec fn wf(&self) -> bool {
        unique_keys(self.commands@) && unique_keys(self.tech_stacks@)
    }

    /// Merges project settings into this configuration: a report or filter
    /// section of the project replaces the global one, project commands and
    /// tech stacks are added over the global ones (project entries win), and
    /// version, tee and limits stay.
    pub fn merge_with_project(self, project: ProjectAppConfig) -> (r: AppConfig)
        requires
            self.wf(),
            project.commands is Some ==> unique_keys(project.commands->0@),
            project.tech_stacks is Some ==> unique_keys(project.tech_stacks->0@),
        ensures
            r.wf(),
            r.version == self.version,
            r.report == match project.report { Some(p) => p, None => self.report },
            r.filter == match project.filter { Some(p) => p, None => self.filter },
            forall|k: Seq<char>| #[trigger] lookup(r.commands@, k) == match project.commands {
                Some(p) => overlay(self.commands@, p@, k),
                None => lookup(self.commands@, k),
            },
            forall|k: Seq<char>| #[trigger] lookup(r.tech_stacks@, k) == match project.tech_stacks {
                Some(p) => overlay(self.tech_stacks@, p@, k),
                None => lookup(self.tech_stacks@, k),
            },
            r.tee == self.tee,
            r.limits == self.limits,
    {
        let report = match project.report {
            Some(p) => p,
            None => self.report,
        };
        let filter = match project.filter {
            Some(p) => p,
            None => self.filter,
        };
        let mut commands = self.commands;
        if let Some(p) = project.commands {
            extend_table(&mut commands, p);
        }
        let mut tech_stacks = self.tech_stacks;
        if let Some(p) = project.tech_stacks {
            extend_table(&mut tech_stacks, p);
        }
        AppConfig {
            version: self.version,
            report,
            filter,
            commands,
            tech_stacks,
            tee: self.tee,
            limits: self.limits,
        }
    }

    /// The framework that a script of a tech stack runs (`scripts` of the
    /// stack's section), if configured.
    pub fn resolve_script(&self, tech_stack: &str, script: &str) -> (r: Option<String>)
        ensures
            r == match lookup(self.tech_stacks@, tech_stack@) {
                Some(c) => lookup(c.scripts@, script@),
                None => None::<String>,
            },
    {
        match lookup_key(&self.tech_stacks, tech_stack) {
            Some(c) => match lookup_key(&c.scripts, script) {
                Some(s) => Some(s.clone()),
                None => None,
            },
            None => None,
        }
    }

    /// The declared test framework of a tech stack, if configured.
    pub fn test_framework_for(&self, tech_stack: &str) -> (r: Option<String>)
        ensures
            r == match lookup(self.tech_stacks@, tech_stack@) {
                Some(c) => c.test_framework,
                None => None::<String>,
            },
    {
        match lookup_key(&self.tech_stacks, tech_stack) {
            Some(c) => crate::analysis::types::copy_opt(&c.test_framework),
            None => None,
        }
    }
}

} // verus!
