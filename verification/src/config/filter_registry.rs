//! Filter definitions (from filter files) and their lookup by command, and
//! their compilation into output post-processors.

use vstd::prelude::*;
use crate::analysis::utils::{OutputPostProcessor, ShortCircuitRule};
use crate::config::modules::{lookup, lookup_key, FilterConfig};
use crate::pattern::{match_result, regex_is_match};

verus! {

/// A replacement rule of a filter.
#[derive(Debug, Clone)]
pub struct TomlReplaceRule {
    pub pattern: String,
    pub replacement: String,
}

/// A short-circuit rule of a filter.
#[derive(Debug, Clone)]
pub struct TomlShortCircuitRule {
    pub pattern: String,
    pub message: String,
    pub unless: Option<String>,
}

/// A filter: which commands it applies to and how it cleans their output.
#[derive(Debug, Clone)]
pub struct TomlFilterConfig {
    pub description: Option<String>,
    /// Pattern matched against the command line.
    pub match_command: String,
    pub strip_ansi: Option<bool>,
    pub strip_tui_frames: Option<bool>,
    pub strip_lines_matching: Option<Vec<String>>,
    pub keep_lines_matching: Option<Vec<String>>,
    pub replace: Option<Vec<TomlReplaceRule>>,
    pub short_circuit: Option<Vec<TomlShortCircuitRule>>,
    pub max_lines: Option<usize>,
    pub truncate_lines_at: Option<usize>,
    pub on_empty: Option<String>,
}

/// A filter file: its schema version and its filters by name.
#[derive(Debug, Clone)]
pub struct FilterFile {
    pub schema_version: Option<u32>,
    pub filters: Vec<(String, TomlFilterConfig)>,
}

impl FilterFile {
    /// A file without filters.
    pub fn empty() -> (r: FilterFile)
        ensures
            r.schema_version is None,
            r.filters@.len() == 0,
    {
        FilterFile { schema_version: None, filters: Vec::new() }
    }
}

/// The newest filter schema version this library understands.
pub const CURRENT_FILTER_SCHEMA_VERSION: u32 = 1;

/// The outcome of looking for the first filter whose command pattern
/// matches: `Some(Some(k))` for the filter at `k`, `Some(None)` when none
/// matches, `None` when a pattern tried on the way does not compile.
pub open spec fn search(filters: Seq<(String, TomlFilterConfig)>, command: Seq<char>) -> Option<Option<int>>
    decreases filters.len(),
{
    if filters.len() == 0 {
        Some(None)
    } else {
        match match_result(filters[0].1.match_command@, command) {
            None => None,
            Some(true) => Some(Some(0)),
            Some(false) => match search(filters.drop_first(), command) {
                None => None,
                Some(None) => Some(None),
                Some(Some(k)) => Some(Some(k + 1)),
            },
        }
    }
}

/// Filters from three places, tried in priority order: the project's, the
/// user's, then the built-in ones.
#[derive(Debug, Clone)]
pub struct FilterRegistry {
    pub project_filters: FilterFile,
    pub user_filters: FilterFile,
    pub builtin_filters: FilterFile,
}

/// A note on a source whose schema version is newer than this library
/// knows.
pub open spec fn newer_than_known(v: Option<u32>, source: Seq<char>) -> Seq<(Seq<char>, u32)> {
    match v {
        Some(x) => if x > CURRENT_FILTER_SCHEMA_VERSION {
            seq![(source, x)]
        } else {
            seq![]
        },
        None => seq![],
    }
}

impl FilterRegistry {
    /// All filters in priority order.
    pub open spec fn ordered(&self) -> Seq<(String, TomlFilterConfig)> {
        self.project_filters.filters@ + self.user_filters.filters@ + self.builtin_filters.filters@
    }

    /// A registry of the three filter files.
    pub fn new(project_filters: FilterFile, user_filters: FilterFile, builtin_filters: FilterFile) -> (r: FilterRegistry)
        ensures
            r.project_filters == project_filters,
            r.user_filters == user_filters,
            r.builtin_filters == builtin_filters,
    {
        FilterRegistry { project_filters, user_filters, builtin_filters }
    }

    /// A registry with the built-in filters only.
    pub fn with_builtin_only(builtin_filters: FilterFile) -> (r: FilterRegistry)
        ensures
            r.project_filters.filters@.len() == 0,
            r.user_filters.filters@.len() == 0,
            r.builtin_filters == builtin_filters,
    {
        FilterRegistry { project_filters: FilterFile::empty(), user_filters: FilterFile::empty(), builtin_filters }
    }

    /// The sources whose schema version is newer than this library knows,
    /// with their versions: `builtin`, then `user`, then `project`.
    pub fn newer_schemas(&self) -> (r: Vec<(String, u32)>)
        ensures
            r@.map_values(|e: (String, u32)| (e.0@, e.1)) == newer_than_known(self.builtin_filters.schema_version, "builtin"@)
                + newer_than_known(self.user_filters.schema_version, "user"@) + newer_than_known(
                self.project_filters.schema_version,
                "project"@,
            ),
    {
        let mut out: Vec<(String, u32)> = Vec::new();
        match self.builtin_filters.schema_version {
            Some(v) => if v > CURRENT_FILTER_SCHEMA_VERSION { out.push((String::from_str("builtin"), v)); },
            None => {},
        }
        match self.user_filters.schema_version {
            Some(v) => if v > CURRENT_FILTER_SCHEMA_VERSION { out.push((String::from_str("user"), v)); },
            None => {},
        }
        match self.project_filters.schema_version {
            Some(v) => if v > CURRENT_FILTER_SCHEMA_VERSION { out.push((String::from_str("project"), v)); },
            None => {},
        }
        assert(out@.map_values(|e: (String, u32)| (e.0@, e.1)) =~= newer_than_known(self.builtin_filters.schema_version, "builtin"@)
            + newer_than_known(self.user_filters.schema_version, "user"@) + newer_than_known(
            self.project_filters.schema_version,
            "project"@,
        ));
        out
    }

    /// The first filter, in priority order, whose command pattern matches
    /// `command`; `None` when none matches or a pattern tried on the way
    /// does not compile.
    pub fn find_filter(&self, command: &str) -> (r: Option<&TomlFilterConfig>)
        ensures
            match search(self.ordered(), command@) {
                Some(Some(k)) => r is Some && *r->0 == self.ordered()[k].1,
                _ => r is None,
            },
    {
        let ghost all = self.ordered();
        let ghost p = self.project_filters.filters@;
        let ghost u = self.user_filters.filters@;
        let ghost b = self.builtin_filters.filters@;
        proof {
            lemma_search_append(p, u + b, command@);
            lemma_search_append(u, b, command@);
            assert(all =~= p + (u + b));
        }
        match find_in(&self.project_filters.filters, command) {
            Found(k) => {
                return Some(&self.project_filters.filters[k].1);
            },
            Aborted => {
                return None;
            },
            Missing => {},
        }
        match find_in(&self.user_filters.filters, command) {
            Found(k) => {
                return Some(&self.user_filters.filters[k].1);
            },
            Aborted => {
                return None;
            },
            Missing => {},
        }
        match find_in(&self.builtin_filters.filters, command) {
            Found(k) => {
                return Some(&self.builtin_filters.filters[k].1);
            },
            _ => {
                return None;
            },
        }
    }

    /// The filter named `name`: the project's, else the user's, else the
    /// built-in one.
    pub fn find_filter_by_name(&self, name: &str) -> (r: Option<&TomlFilterConfig>)
        ensures
            match lookup(self.project_filters.filters@, name@) {
                Some(f) => r == Some(&f),
                None => match lookup(self.user_filters.filters@, name@) {
                    Some(f) => r == Some(&f),
                    None => match lookup(self.builtin_filters.filters@, name@) {
                        Some(f) => r == Some(&f),
                        None => r is None,
                    },
                },
            },
    {
        match lookup_key(&self.project_filters.filters, name) {
            Some(f) => Some(f),
            None => match lookup_key(&self.user_filters.filters, name) {
                Some(f) => Some(f),
                None => lookup_key(&self.builtin_filters.filters, name),
            },
        }
    }
}

/// The outcome of a search in one list.
pub enum Search {
    Found(usize),
    Missing,
    Aborted,
}

pub use Search::{Aborted, Found, Missing};

/// Searching a concatenation searches the first part, then the second.
proof fn lemma_search_append(a: Seq<(String, TomlFilterConfig)>, b: Seq<(String, TomlFilterConfig)>, command: Seq<char>)
    ensures
        search(a + b, command) == match search(a, command) {
            None => None,
            Some(Some(k)) => Some(Some(k)),
            Some(None) => match search(b, command) {
                None => None,
                Some(None) => Some(None),
                Some(Some(k)) => Some(Some(k + a.len())),
            },
        },
    decreases a.len(),
{
    if a.len() == 0 {
        assert(a + b =~= b);
    } else {
        assert((a + b).drop_first() =~= a.drop_first() + b);
        assert((a + b)[0] == a[0]);
        lemma_search_append(a.drop_first(), b, command);
    }
}

/// The first filter of a list whose command pattern matches.
fn find_in(filters: &Vec<(String, TomlFilterConfig)>, command: &str) -> (r: Search)
    ensures
        match r {
            Found(k) => search(filters@, command@) == Some(Some(k as int)) && k < filters@.len(),
            Missing => search(filters@, command@) == Some(None::<int>),
            Aborted => search(filters@, command@) is None,
        },
{
    let mut i: usize = 0;
    assert(filters@.skip(0) =~= filters@);
    while i < filters.len()
        invariant
            i <= filters@.len(),
            search(filters@, command@) == match search(filters@.skip(i as int), command@) {
                None => None,
                Some(None) => Some(None),
                Some(Some(k)) => Some(Some(k + i)),
            },
        decreases filters@.len() - i,
    {
        assert(filters@.skip(i as int)[0] == filters@[i as int]);
        assert(filters@.skip(i as int).drop_first() =~= filters@.skip(i + 1));
        match regex_is_match(filters[i].1.match_command.as_str(), command) {
            None => {
                return Aborted;
            },
            Some(true) => {
                return Found(i);
            },
            Some(false) => {},
        }
        i += 1;
    }
    Missing
}

/// Compiles a filter into a post-processor: escape codes and frames
/// stripped as the filter says (off when unset), its replacements,
/// short-circuit rules, noise and keep patterns (when non-empty), line
/// length and line count (when positive), and its on-empty message.
pub fn compile_toml_filter(config: &TomlFilterConfig) -> (r: OutputPostProcessor)
    ensures
        r.strip_ansi == (config.strip_ansi == Some(true)),
        r.strip_tui_frames == (config.strip_tui_frames == Some(true)),
        r.replace_patterns@.len() == match config.replace { Some(v) => v@.len(), None => 0 },
        forall|k: int| 0 <= k < r.replace_patterns@.len() ==> (#[trigger] r.replace_patterns@[k]).0@ == config.replace->0@[k].pattern@
            && r.replace_patterns@[k].1@ == config.replace->0@[k].replacement@,
        r.short_circuits@.len() == match config.short_circuit { Some(v) => v@.len(), None => 0 },
        forall|k: int| 0 <= k < r.short_circuits@.len() ==> (#[trigger] r.short_circuits@[k]).pattern@ == config.short_circuit->0@[k].pattern@
            && r.short_circuits@[k].message@ == config.short_circuit->0@[k].message@
            && crate::pattern::opt_view(r.short_circuits@[k].unless) == crate::pattern::opt_view(config.short_circuit->0@[k].unless),
        r.noise_patterns@ == match config.strip_lines_matching { Some(v) => v@, None => Seq::<String>::empty() },
        r.keep_patterns@ == match config.keep_lines_matching { Some(v) => v@, None => Seq::<String>::empty() },
        r.max_line_length == match config.truncate_lines_at { Some(n) => if n > 0 { Some(n) } else { None }, None => None },
        r.max_lines == match config.max_lines { Some(n) => if n > 0 { Some(n) } else { None }, None => None },
        crate::pattern::opt_view(r.on_empty_message) == crate::pattern::opt_view(config.on_empty),
{
    let mut p = OutputPostProcessor::new()
        .with_strip_ansi(match config.strip_ansi { Some(b) => b, None => false })
        .with_strip_tui_frames(match config.strip_tui_frames { Some(b) => b, None => false });
    match &config.replace {
        Some(rules) => {
            let mut pats: Vec<(String, String)> = Vec::new();
            let mut i: usize = 0;
            while i < rules.len()
                invariant
                    i <= rules@.len(),
                    pats@.len() == i,
                    forall|k: int| 0 <= k < i ==> (#[trigger] pats@[k]).0@ == rules@[k].pattern@ && pats@[k].1@ == rules@[k].replacement@,
                decreases rules@.len() - i,
            {
                pats.push((rules[i].pattern.clone(), rules[i].replacement.clone()));
                i += 1;
            }
            p = p.with_replace_patterns(pats);
        },
        None => {},
    }
    match &config.short_circuit {
        Some(rules) => {
            let mut out: Vec<ShortCircuitRule> = Vec::new();
            let mut i: usize = 0;
            while i < rules.len()
                invariant
                    i <= rules@.len(),
                    out@.len() == i,
                    forall|k: int| 0 <= k < i ==> (#[trigger] out@[k]).pattern@ == rules@[k].pattern@
                        && out@[k].message@ == rules@[k].message@
                        && crate::pattern::opt_view(out@[k].unless) == crate::pattern::opt_view(rules@[k].unless),
                decreases rules@.len() - i,
            {
                out.push(ShortCircuitRule {
                    pattern: rules[i].pattern.clone(),
                    message: rules[i].message.clone(),
                    unless: crate::analysis::types::copy_opt(&rules[i].unless),
                });
                i += 1;
            }
            p = p.with_short_circuits(out);
        },
        None => {},
    }
    match &config.strip_lines_matching {
        Some(noise) => {
            if noise.len() > 0 {
                p = p.with_noise_patterns(crate::analysis::options::copy_strings(noise));
            }
        },
        None => {},
    }
    match &config.keep_lines_matching {
        Some(keep) => {
            if keep.len() > 0 {
                p = p.with_keep_patterns(crate::analysis::options::copy_strings(keep));
            }
        },
        None => {},
    }
    match config.truncate_lines_at {
        Some(n) => if n > 0 { p = p.with_max_line_length(n); },
        None => {},
    }
    match config.max_lines {
        Some(n) => if n > 0 { p = p.with_max_lines(n); },
        None => {},
    }
    match &config.on_empty {
        Some(m) => {
            p = p.with_on_empty(m.as_str());
        },
        None => {},
    }
    p
}

/// The post-processor of a filter section: escape codes as configured,
/// noise and keep patterns, and the line and length limits when positive.
pub fn to_post_processor(config: &FilterConfig) -> (r: OutputPostProcessor)
    ensures
        r.strip_ansi == config.strip_ansi,
        r.strip_tui_frames,
        r.replace_patterns@.len() == 0,
        r.short_circuits@.len() == 0,
        r.noise_patterns@ == config.noise_patterns@,
        r.keep_patterns@ == config.keep_patterns@,
        r.max_lines == (if config.max_lines > 0 { Some(config.max_lines) } else { None }),
        r.max_line_length == (if config.max_line_length > 0 { Some(config.max_line_length) } else { None }),
        r.on_empty_message is None,
{
    let mut p = OutputPostProcessor::new()
        .with_strip_ansi(config.strip_ansi)
        .with_noise_patterns(crate::analysis::options::copy_strings(&config.noise_patterns))
        .with_keep_patterns(crate::analysis::options::copy_strings(&config.keep_patterns));
    if config.max_lines > 0 {
        p = p.with_max_lines(config.max_lines);
    }
    if config.max_line_length > 0 {
        p = p.with_max_line_length(config.max_line_length);
    }
    p
}

} // verus!
