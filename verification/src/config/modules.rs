//! Configuration sections.
//!
//! Keyed tables are association lists `Vec<(String, V)>`: a lookup finds the
//! first entry with the key, and the merging operations keep keys unique.

use vstd::prelude::*;
use crate::text::str_eq;

verus! {

/// A configured command alias.
#[derive(Debug, Clone)]
pub struct CommandConfig {
    /// The command line that the alias stands for.
    pub command: String,
    pub description: Option<String>,
    pub tech_stacks: Vec<String>,
    pub enabled: bool,
}

/// Index of the first entry of `table` whose key is `key`, or `table.len()`.
pub open spec fn key_index<V>(table: Seq<(String, V)>, key: Seq<char>) -> nat
    decreases table.len(),
{
    if table.len() == 0 {
        0
    } else if table[0].0@ == key {
        0
    } else {
        1 + key_index(table.drop_first(), key)
    }
}

/// The value stored under `key`, if any.
pub open spec fn lookup<V>(table: Seq<(String, V)>, key: Seq<char>) -> Option<V> {
    if key_index(table, key) < table.len() {
        Some(table[key_index(table, key) as int].1)
    } else {
        None
    }
}

/// `key_index` is the first position holding the key, or the length.
pub proof fn lemma_key_index_props<V>(table: Seq<(String, V)>, key: Seq<char>)
    ensures
        key_index(table, key) <= table.len(),
        key_index(table, key) < table.len() ==> table[key_index(table, key) as int].0@ == key,
        forall|j: int| 0 <= j < key_index(table, key) ==> (#[trigger] table[j]).0@ != key,
    decreases table.len(),
{
    if table.len() > 0 && table[0].0@ != key {
        lemma_key_index_props(table.drop_first(), key);
        assert forall|j: int| 0 <= j < key_index(table, key) implies (#[trigger] table[j]).0@ != key by {
            if j > 0 {
                assert(table[j] == table.drop_first()[j - 1]);
            }
        }
        if key_index(table, key) < table.len() {
            assert(table[key_index(table, key) as int] == table.drop_first()[key_index(table, key) - 1]);
        }
    }
}

/// Two tables with the same keys at the same positions find keys at the
/// same positions.
pub proof fn lemma_same_keys<V, W>(a: Seq<(String, V)>, b: Seq<(String, W)>, key: Seq<char>)
    requires
        a.len() == b.len(),
        forall|j: int| 0 <= j < a.len() ==> (#[trigger] a[j]).0@ == b[j].0@,
    ensures
        key_index(a, key) == key_index(b, key),
{
    lemma_key_index_props(a, key);
    assert forall|j: int| 0 <= j < key_index(a, key) implies (#[trigger] b[j]).0@ != key by {
        assert(a[j].0@ == b[j].0@);
    }
    lemma_key_index(b, key, key_index(a, key) as int);
}

/// Appending an entry leaves the positions of the keys already present, and
/// puts a new key at the end.
pub proof fn lemma_push_key<V>(a: Seq<(String, V)>, e: (String, V), key: Seq<char>)
    ensures
        key_index(a, key) < a.len() ==> key_index(a.push(e), key) == key_index(a, key),
        key_index(a, key) >= a.len() ==> key_index(a.push(e), key) == (if e.0@ == key { a.len() } else { a.len() + 1 }),
{
    lemma_key_index_props(a, key);
    let b = a.push(e);
    assert forall|j: int| 0 <= j < a.len() implies (#[trigger] b[j]) == a[j] by {}
    if key_index(a, key) < a.len() {
        lemma_key_index(b, key, key_index(a, key) as int);
    } else if e.0@ == key {
        lemma_key_index(b, key, a.len() as int);
    } else {
        lemma_key_index(b, key, a.len() + 1int);
    }
}

pub proof fn lemma_key_index<V>(table: Seq<(String, V)>, key: Seq<char>, k: int)
    requires
        0 <= k <= table.len(),
        forall|j: int| 0 <= j < k ==> (#[trigger] table[j]).0@ != key,
        k < table.len() ==> table[k].0@ == key,
    ensures
        key_index(table, key) == k,
    decreases k,
{
    if k > 0 {
        assert forall|j: int| 0 <= j < k - 1 implies (#[trigger] table.drop_first()[j]).0@ != key by {
            assert(table.drop_first()[j] == table[j + 1]);
        }
        lemma_key_index(table.drop_first(), key, k - 1);
    }
}

/// Position of `key` in `table` (`table.len()` when absent).
pub fn find_key<V>(table: &Vec<(String, V)>, key: &str) -> (r: usize)
    ensures
        r == key_index(table@, key@),
        r <= table.len(),
{
    let mut i: usize = 0;
    while i < table.len()
        invariant
            i <= table.len(),
            forall|j: int| 0 <= j < i ==> (#[trigger] table@[j]).0@ != key@,
        decreases table.len() - i,
    {
        if str_eq(table[i].0.as_str(), key) {
            proof { lemma_key_index(table@, key@, i as int); }
            return i;
        }
        i += 1;
    }
    proof { lemma_key_index(table@, key@, i as int); }
    i
}

/// The value stored under `key`.
pub fn lookup_key<'a, V>(table: &'a Vec<(String, V)>, key: &str) -> (r: Option<&'a V>)
    ensures
        match lookup(table@, key@) {
            Some(v) => r is Some && *r->0 == v,
            None => r is None,
        },
{
    let i = find_key(table, key);
    if i < table.len() {
        Some(&table[i].1)
    } else {
        None
    }
}

/// No key occurs twice in `table`.
pub open spec fn unique_keys<V>(table: Seq<(String, V)>) -> bool {
    forall|i: int, j: int| 0 <= i < j < table.len() ==> (#[trigger] table[i]).0@ != (#[trigger] table[j]).0@
}

/// Sets the value stored under `key`: replaces it in place when the key is
/// present, appends an entry otherwise.
pub fn upsert<V>(table: &mut Vec<(String, V)>, key: String, value: V)
    requires
        unique_keys(old(table)@),
    ensures
        unique_keys(final(table)@),
        forall|k: Seq<char>| #[trigger] lookup(final(table)@, k) == if k == key@ { Some(value) } else { lookup(old(table)@, k) },
{
    let ghost t0 = table@;
    let i = find_key(table, key.as_str());
    proof { lemma_key_index_props(t0, key@); }
    if i < table.len() {
        table.set(i, (key, value));
        proof {
            assert forall|j: int| 0 <= j < t0.len() implies (#[trigger] t0[j]).0@ == table@[j].0@ by {}
            assert forall|k: Seq<char>| #[trigger] lookup(table@, k) == if k == key@ { Some(value) } else { lookup(t0, k) } by {
                lemma_same_keys(t0, table@, k);
                lemma_key_index_props(t0, k);
                if key_index(t0, k) < t0.len() && key_index(t0, k) != i {
                    assert(table@[key_index(t0, k) as int] == t0[key_index(t0, k) as int]);
                }
            }
        }
    } else {
        table.push((key, value));
        proof {
            assert(table@ == t0.push(table@.last()));
            assert forall|k: Seq<char>| #[trigger] lookup(table@, k) == if k == key@ { Some(value) } else { lookup(t0, k) } by {
                lemma_push_key(t0, table@.last(), k);
                lemma_key_index_props(t0, k);
            }
            assert forall|a: int, b: int| 0 <= a < b < table@.len() implies (#[trigger] table@[a]).0@ != (#[trigger] table@[b]).0@ by {
                if b == t0.len() {
                    assert(t0[a].0@ != key@);
                } else {
                    assert(t0[a] == table@[a] && t0[b] == table@[b]);
                }
            }
        }
    }
}

/// Report settings.
#[derive(Debug, Clone)]
pub struct ReportConfig {
    pub format: String,
    pub verbosity: String,
    pub success_short_circuit: bool,
}

impl Default for ReportConfig {
    fn default() -> (r: ReportConfig)
        ensures
            r.format@ == "markdown"@,
            r.verbosity@ == "normal"@,
            r.success_short_circuit,
    {
        ReportConfig {
            format: String::from_str("markdown"),
            verbosity: String::from_str("normal"),
            success_short_circuit: true,
        }
    }
}

/// Output filtering settings.
#[derive(Debug, Clone)]
pub struct FilterConfig {
    pub ignore_paths: Vec<String>,
    pub noise_patterns: Vec<String>,
    pub keep_patterns: Vec<String>,
    pub max_lines: usize,
    pub max_line_length: usize,
    pub strip_ansi: bool,
    /// Drop the frame lines of terminal UIs.
    pub strip_tui_frames: bool,
}

impl Default for FilterConfig {
    fn default() -> (r: FilterConfig)
        ensures
            r.ignore_paths@.len() == 0,
            r.noise_patterns@.len() == 0,
            r.keep_patterns@.len() == 0,
            r.max_lines == 0,
            r.max_line_length == 0,
            r.strip_ansi,
            !r.strip_tui_frames,
    {
        FilterConfig {
            ignore_paths: Vec::new(),
            noise_patterns: Vec::new(),
            keep_patterns: Vec::new(),
            max_lines: 0,
            max_line_length: 0,
            strip_ansi: true,
            strip_tui_frames: false,
        }
    }
}

/// Output size limits.
#[derive(Debug, Clone)]
pub struct LimitsConfig {
    pub grep_max_results: usize,
    pub grep_max_per_file: usize,
    pub status_max_files: usize,
    pub status_max_untracked: usize,
    pub passthrough_max_chars: usize,
}

impl Default for LimitsConfig {
    fn default() -> (r: LimitsConfig)
        ensures
            r.grep_max_results == 200,
            r.grep_max_per_file == 25,
            r.status_max_files == 15,
            r.status_max_untracked == 10,
            r.passthrough_max_chars == 2000,
    {
        LimitsConfig {
            grep_max_results: 200,
            grep_max_per_file: 25,
            status_max_files: 15,
            status_max_untracked: 10,
            passthrough_max_chars: 2000,
        }
    }
}

/// Per-stack settings: command aliases, script-to-framework names and the
/// declared test framework.
#[derive(Debug, Clone)]
pub struct TechStackConfig {
    pub commands: Vec<(String, CommandConfig)>,
    pub scripts: Vec<(String, String)>,
    pub test_framework: Option<String>,
}

impl Default for TechStackConfig {
    fn default() -> (r: TechStackConfig)
        ensures
            r.commands@.len() == 0,
            r.scripts@.len() == 0,
            r.test_framework is None,
    {
        TechStackConfig { commands: Vec::new(), scripts: Vec::new(), test_framework: None }
    }
}

/// When raw command output is written to a tee file.
#[derive(Debug, Clone, Copy, PartialEq, Eq, Structural)]
pub enum TeeMode {
    Failures,
    Always,
    Never,
}

impl Default for TeeMode {
    fn default() -> (r: TeeMode)
        ensures
            r == TeeMode::Failures,
    {
        TeeMode::Failures
    }
}

/// Tee settings.
#[derive(Debug, Clone)]
pub struct TeeConfig {
    pub enabled: bool,
    pub mode: TeeMode,
    pub max_files: usize,
    pub max_file_size: usize,
    pub directory: Option<String>,
}

impl Default for TeeConfig {
    fn default() -> (r: TeeConfig)
        ensures
            r.enabled,
            r.mode == TeeMode::Failures,
            r.max_files == 20,
            r.max_file_size == 1_048_576,
            r.directory is None,
    {
        TeeConfig { enabled: true, mode: TeeMode::Failures, max_files: 20, max_file_size: 1_048_576, directory: None }
    }
}

} // verus!
