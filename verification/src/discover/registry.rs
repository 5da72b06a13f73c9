//! Command classification and rewrite engine.
//!
//! Given a raw shell command (e.g. `cargo check --all-targets`), this module
//! strips leading environment assignments, matches the command against the
//! rule table, falls back to configured command aliases, and extracts the
//! technology stack, the subcommand and the extra arguments.

use vstd::prelude::*;
use crate::analysis::types::{stack_named, TechStack};
use crate::config::modules::{lookup, lookup_key, CommandConfig};
use crate::discover::lexer::{split_on_operators, split_segments};
use crate::discover::rules::{
    category_start, flatten_sets, lemma_flatten_index, lemma_rules_are_the_sets, rule_specs, rules, set_start, spec_rules,
    CommandRule, RuleSet, RuleSpec, rule_set_by_category, set_index, spec_rule_sets,
};
use crate::pattern::{captures_of, match_result, regex_captures, regex_is_match};
use crate::text::{
    chars_of, decimal, has_char, index_of, digit, digit_char, lowercase, push_char, replace_all_literal, replace_lit,
    string_from, trim, trim_str, views, words, words_in,
};

verus! {

// ───────────────────────────── environment prefixes ─────────────────────────────

pub open spec fn is_blank(c: char) -> bool {
    c == ' ' || c == '\t'
}

pub open spec fn is_name_start(c: char) -> bool {
    ('a' <= c && c <= 'z') || ('A' <= c && c <= 'Z') || c == '_'
}

pub open spec fn is_name_char(c: char) -> bool {
    is_name_start(c) || ('0' <= c && c <= '9')
}

/// A POSIX environment variable name: `[a-zA-Z_][a-zA-Z0-9_]*`.
pub open spec fn valid_env_name(s: Seq<char>) -> bool {
    s.len() > 0 && is_name_start(s[0]) && forall|k: int| 1 <= k < s.len() ==> is_name_char(#[trigger] s[k])
}

/// End of an assignment key: the first blank, `=` or the end, from `j`.
pub open spec fn key_end(s: Seq<char>, j: int) -> int
    decreases s.len() - j,
{
    if j >= s.len() || is_blank(s[j]) || s[j] == '=' {
        j
    } else {
        key_end(s, j + 1)
    }
}

/// Position of the closing double quote from `j` (backslash escapes skipped), or the end.
pub open spec fn dq_close(s: Seq<char>, j: int) -> int
    decreases s.len() - j,
{
    if j >= s.len() {
        j
    } else if s[j] == '"' {
        j
    } else if s[j] == '\\' && j + 1 < s.len() {
        dq_close(s, j + 2)
    } else {
        dq_close(s, j + 1)
    }
}

/// Position of the closing single quote from `j`, or the end.
pub open spec fn sq_close(s: Seq<char>, j: int) -> int
    decreases s.len() - j,
{
    if j >= s.len() || s[j] == '\'' {
        j
    } else {
        sq_close(s, j + 1)
    }
}

/// First blank at or after `j`, or the end.
pub open spec fn blank_end(s: Seq<char>, j: int) -> int
    decreases s.len() - j,
{
    if j >= s.len() || is_blank(s[j]) {
        j
    } else {
        blank_end(s, j + 1)
    }
}

/// End of an assignment value that starts at `j` (quoted or bare).
pub open spec fn value_end(s: Seq<char>, j: int) -> int {
    if s[j] == '"' {
        let k = dq_close(s, j + 1);
        if k < s.len() { k + 1 } else { k }
    } else if s[j] == '\'' {
        let k = sq_close(s, j + 1);
        if k < s.len() { k + 1 } else { k }
    } else {
        blank_end(s, j)
    }
}

/// The scanning positions stay between their start and the end.
pub proof fn lemma_scan_bounds(s: Seq<char>, j: int)
    requires
        0 <= j <= s.len(),
    ensures
        j <= key_end(s, j) <= s.len(),
        j <= dq_close(s, j) <= s.len(),
        j <= sq_close(s, j) <= s.len(),
        j <= blank_end(s, j) <= s.len(),
    decreases s.len() - j,
{
    if j < s.len() {
        lemma_scan_bounds(s, j + 1);
        if j + 2 <= s.len() {
            lemma_scan_bounds(s, j + 2);
        }
    }
}

/// Where the command starts, scanning assignments `NAME=value` from `i`.
pub open spec fn env_start(s: Seq<char>, i: int) -> int
    decreases s.len() - i,
{
    if i < 0 || i >= s.len() {
        i
    } else if is_blank(s[i]) {
        env_start(s, i + 1)
    } else {
        let j = key_end(s, i);
        if j >= s.len() || s[j] != '=' {
            i
        } else if !valid_env_name(s.subrange(i, j)) {
            i
        } else if j + 1 >= s.len() {
            i
        } else {
            proof {
                lemma_scan_bounds(s, i);
                lemma_scan_bounds(s, j + 1);
                if j + 2 <= s.len() {
                    lemma_scan_bounds(s, j + 2);
                }
            }
            env_start(s, value_end(s, j + 1))
        }
    }
}

/// The command with its leading environment assignments and blanks removed.
pub open spec fn strip_env(s: Seq<char>) -> Seq<char> {
    s.skip(env_start(s, 0))
}

/// Whether `name` is a valid POSIX environment variable name.
pub fn is_valid_env_var_name(name: &str) -> (b: bool)
    ensures
        b == valid_env_name(name@),
{
    let v = chars_of(name);
    if v.len() == 0 {
        return false;
    }
    let c0 = v[0];
    if !(('a' <= c0 && c0 <= 'z') || ('A' <= c0 && c0 <= 'Z') || c0 == '_') {
        assert(!is_name_start(name@[0]));
        return false;
    }
    let mut k: usize = 1;
    while k < v.len()
        invariant
            1 <= k <= v.len(),
            v@ == name@,
            forall|m: int| 1 <= m < k ==> is_name_char(#[trigger] v@[m]),
        decreases v.len() - k,
    {
        let c = v[k];
        if !(('a' <= c && c <= 'z') || ('A' <= c && c <= 'Z') || c == '_' || ('0' <= c && c <= '9')) {
            assert(!is_name_char(name@[k as int]));
            return false;
        }
        k += 1;
    }
    true
}

fn is_valid_name_range(v: &Vec<char>, lo: usize, hi: usize) -> (b: bool)
    requires
        lo <= hi <= v.len(),
    ensures
        b == valid_env_name(v@.subrange(lo as int, hi as int)),
{
    let s = string_from(v, lo, hi);
    is_valid_env_var_name(s.as_str())
}

/// Strips leading environment assignments (`FOO=bar cmd` → `cmd`).
/// Values may be double- or single-quoted; only valid POSIX names count as
/// assignments, so a compiler flag such as `-DFOO=bar` is kept.
pub fn strip_env_prefixes(raw: &str) -> (r: String)
    ensures
        r@ == strip_env(raw@),
{
    let v = chars_of(raw);
    let len = v.len();
    let mut i: usize = 0;
    while i < len
        invariant
            len == v.len(),
            i <= len,
            env_start(v@, i as int) == env_start(v@, 0),
        ensures
            i <= len,
            env_start(v@, 0) == i as int,
        decreases len - i,
    {
        let ch = v[i];
        if ch == ' ' || ch == '\t' {
            i += 1;
            continue;
        }
        let mut j = i;
        while j < len && v[j] != ' ' && v[j] != '\t' && v[j] != '='
            invariant
                i <= j <= len == v.len(),
                key_end(v@, j as int) == key_end(v@, i as int),
            decreases len - j,
        {
            j += 1;
        }
        assert(key_end(v@, j as int) == j as int);
        if j >= len || v[j] != '=' {
            assert(env_start(v@, i as int) == i as int);
            break;
        }
        if !is_valid_name_range(&v, i, j) {
            assert(env_start(v@, i as int) == i as int);
            break;
        }
        j += 1;
        if j >= len {
            assert(env_start(v@, i as int) == i as int);
            break;
        }
        let ghost vstart = j as int;
        proof { lemma_scan_bounds(v@, j as int); }
        if v[j] == '"' {
            j += 1;
            while j < len && v[j] != '"'
                invariant
                    vstart < j <= len == v.len(),
                    dq_close(v@, j as int) == dq_close(v@, vstart + 1),
                decreases len - j,
            {
                if v[j] == '\\' && j + 1 < len {
                    j += 2;
                    continue;
                }
                j += 1;
            }
            if j < len {
                j += 1;
            }
        } else if v[j] == '\'' {
            j += 1;
            while j < len && v[j] != '\''
                invariant
                    vstart < j <= len == v.len(),
                    sq_close(v@, j as int) == sq_close(v@, vstart + 1),
                decreases len - j,
            {
                j += 1;
            }
            if j < len {
                j += 1;
            }
        } else {
            while j < len && v[j] != ' ' && v[j] != '\t'
                invariant
                    vstart <= j <= len == v.len(),
                    blank_end(v@, j as int) == blank_end(v@, vstart),
                decreases len - j,
            {
                j += 1;
            }
        }
        assert(j as int == value_end(v@, vstart));
        assert(env_start(v@, i as int) == env_start(v@, j as int));
        i = j;
    }
    assert(env_start(v@, 0) == i as int);
    assert(v@.skip(i as int) =~= v@.subrange(i as int, len as int));
    string_from(&v, i, len)
}

// ───────────────────────────── word splitting ─────────────────────────────

/// Words of `b` from `i`, given the current word and the open quote state.
/// Words are separated by unquoted spaces; quotes are removed; a backslash
/// (outside single quotes) takes the next byte literally; each byte becomes
/// the character with the same code.
pub open spec fn sw(b: Seq<u8>, i: int, word: Seq<char>, sq: bool, dq: bool) -> Seq<Seq<char>>
    decreases b.len() - i,
{
    if i >= b.len() {
        if word.len() > 0 { seq![word] } else { seq![] }
    } else if sq {
        if b[i] == 39u8 {
            sw(b, i + 1, word, false, dq)
        } else {
            sw(b, i + 1, word.push(b[i] as char), true, dq)
        }
    } else if dq {
        if b[i] == 92u8 && i + 1 < b.len() {
            sw(b, i + 2, word.push(b[i + 1] as char), false, true)
        } else if b[i] == 34u8 {
            sw(b, i + 1, word, false, false)
        } else {
            sw(b, i + 1, word.push(b[i] as char), false, true)
        }
    } else if b[i] == 39u8 {
        sw(b, i + 1, word, true, false)
    } else if b[i] == 34u8 {
        sw(b, i + 1, word, false, true)
    } else if b[i] == 92u8 && i + 1 < b.len() {
        sw(b, i + 2, word.push(b[i + 1] as char), false, false)
    } else if b[i] == 32u8 {
        (if word.len() > 0 { seq![word] } else { seq![] }) + sw(b, i + 1, seq![], false, false)
    } else {
        sw(b, i + 1, word.push(b[i] as char), false, false)
    }
}

/// The shell words of a byte string.
pub open spec fn shell_words(b: Seq<u8>) -> Seq<Seq<char>> {
    sw(b, 0, seq![], false, false)
}

/// Splits arguments into words, respecting single quotes, double quotes and
/// backslash escapes (not a full POSIX shell parser).
pub fn shell_words_split(input: &str) -> (r: Vec<String>)
    ensures
        views(r@) == shell_words(vstd::utf8::encode_utf8(input@)),
{
    let b = input.as_bytes();
    let len = b.len();
    let mut words_out: Vec<String> = Vec::new();
    let mut word = String::new();
    let mut in_single = false;
    let mut in_double = false;
    let mut i: usize = 0;
    while i < len
        invariant
            len == b@.len(),
            b@ == vstd::utf8::encode_utf8(input@),
            i <= len,
            views(words_out@) + sw(b@, i as int, word@, in_single, in_double) == shell_words(b@),
        decreases len - i,
    {
        let ch = b[i];
        if in_single {
            if ch == 39u8 {
                in_single = false;
            } else {
                push_char(&mut word, ch as char);
            }
            i += 1;
        } else if in_double {
            if ch == 92u8 && i + 1 < len {
                push_char(&mut word, b[i + 1] as char);
                i += 2;
            } else {
                if ch == 34u8 {
                    in_double = false;
                } else {
                    push_char(&mut word, ch as char);
                }
                i += 1;
            }
        } else if ch == 39u8 {
            in_single = true;
            i += 1;
        } else if ch == 34u8 {
            in_double = true;
            i += 1;
        } else if ch == 92u8 && i + 1 < len {
            push_char(&mut word, b[i + 1] as char);
            i += 2;
        } else if ch == 32u8 {
            let ghost before = words_out@;
            let ghost w = word@;
            if word.as_str().is_empty() {
                assert(word@ =~= Seq::<char>::empty());
                assert(views(words_out@) + sw(b@, i + 1, seq![], false, false)
                    =~= views(before) + ((if w.len() > 0 { seq![w] } else { seq![] }) + sw(b@, i + 1, seq![], false, false)));
            } else {
                let done = word;
                words_out.push(done);
                word = String::new();
                assert(views(words_out@) =~= views(before).push(w));
                assert(views(words_out@) + sw(b@, i + 1, word@, false, false)
                    =~= views(before) + ((if w.len() > 0 { seq![w] } else { seq![] }) + sw(b@, i + 1, seq![], false, false)));
            }
            i += 1;
        } else {
            push_char(&mut word, ch as char);
            i += 1;
        }
    }
    let ghost before = words_out@;
    let ghost w = word@;
    if !word.as_str().is_empty() {
        words_out.push(word);
        assert(views(words_out@) =~= views(before).push(w));
    }
    assert(views(words_out@) =~= views(before) + (if w.len() > 0 { seq![w] } else { seq![] }));
    words_out
}

// ───────────────────────────── capture templates ─────────────────────────────

/// The placeholder `{k}` for a digit `k`.
pub open spec fn placeholder(k: nat) -> Seq<char> {
    seq!['{', digit_char(k), '}']
}

/// The template with `{k}`, `{k+1}`, … `{9}` replaced by the captured groups
/// that are present.
pub open spec fn fill(t: Seq<char>, groups: Seq<Option<Seq<char>>>, k: nat) -> Seq<char>
    decreases 10 - k,
{
    if k > 9 {
        t
    } else {
        let t2 = if k < groups.len() && groups[k as int] is Some {
            replace_lit(t, placeholder(k), groups[k as int]->0)
        } else {
            t
        };
        fill(t2, groups, k + 1)
    }
}

/// Fills the capture references `{1}` … `{9}` of a template with the
/// captured groups; a reference to a group that did not participate is kept.
pub fn fill_capture_refs(template: &str, groups: &Vec<Option<String>>) -> (r: String)
    ensures
        r@ == fill(template@, groups@.map_values(|g: Option<String>| crate::pattern::opt_view(g)), 1),
{
    let ghost gv = groups@.map_values(|g: Option<String>| crate::pattern::opt_view(g));
    let mut result = String::from_str(template);
    let mut i: u64 = 1;
    while i <= 9
        invariant
            1 <= i <= 10,
            gv == groups@.map_values(|g: Option<String>| crate::pattern::opt_view(g)),
            fill(result@, gv, i as nat) == fill(template@, gv, 1),
        decreases 10 - i,
    {
        let mut ph = String::new();
        push_char(&mut ph, '{');
        push_char(&mut ph, digit(i));
        push_char(&mut ph, '}');
        assert(ph@ =~= placeholder(i as nat));
        if (i as usize) < groups.len() {
            match &groups[i as usize] {
                Some(g) => {
                    assert(gv[i as int] == Some(g@));
                    result = replace_all_literal(result.as_str(), ph.as_str(), g.as_str());
                }
                None => {
                    assert(gv[i as int] is None);
                }
            }
        }
        i += 1;
    }
    result
}

// ───────────────────────────── classification ─────────────────────────────

/// Result of classifying a raw shell command.
#[derive(Debug, Clone)]
pub enum Classification {
    /// A rule or configured command matched.
    Matched {
        /// Target technology stack.
        tech_stack: TechStack,
        /// Subcommand extracted from the raw command.
        subcommand: String,
        /// Arguments after the matched part.
        extra_args: Vec<String>,
        /// Index of the matching rule in the whole rule table (`usize::MAX`
        /// for a configured command).
        rule_index: usize,
    },
    /// Nothing matched.
    Unmatched {
        /// The first word of the command.
        base_command: String,
    },
}

/// The mathematical content of a classification.
#[verifier::ext_equal]
pub enum ClassSpec {
    Matched { tech_stack: TechStack, subcommand: Seq<char>, extra_args: Seq<Seq<char>>, rule_index: int },
    Unmatched { base_command: Seq<char> },
}

impl Classification {
    pub open spec fn spec(&self) -> ClassSpec {
        match self {
            Classification::Matched { tech_stack, subcommand, extra_args, rule_index } => ClassSpec::Matched {
                tech_stack: *tech_stack,
                subcommand: subcommand@,
                extra_args: views(extra_args@),
                rule_index: *rule_index as int,
            },
            Classification::Unmatched { base_command } => ClassSpec::Unmatched { base_command: base_command@ },
        }
    }

    /// True when a rule or configured command matched.
    pub fn is_matched(&self) -> (r: bool)
        ensures
            r == (self.spec() is Matched),
    {
        match self {
            Classification::Matched { .. } => true,
            Classification::Unmatched { .. } => false,
        }
    }
}

/// The extra arguments after the matched part of a command.
pub open spec fn extra_of(rest: Seq<char>) -> Seq<Seq<char>> {
    let r = trim(rest);
    if r.len() == 0 { seq![] } else { shell_words(vstd::utf8::encode_utf8(r)) }
}

/// The outcome of one rule on a command without environment prefixes:
/// the subcommand and the extra arguments, when the rule matches.
pub open spec fn apply_rule(rule: RuleSpec, cleaned: Seq<char>) -> Option<(Seq<char>, Seq<Seq<char>>)> {
    match captures_of("(?i)"@ + rule.pattern, cleaned) {
        Some((groups, rest)) => {
            let full = groups[0]->0;
            let t = fill(replace_lit(rule.template, "{0}"@, full), groups, 1);
            Some((if t.len() == 0 { full } else { t }, extra_of(rest)))
        },
        None => None,
    }
}

/// Text without `{` is left alone by every replacement of a placeholder.
proof fn lemma_replace_no_brace(s: Seq<char>, from: Seq<char>, to: Seq<char>)
    requires
        from.len() > 0,
        from[0] == '{',
        !has_char(s, '{'),
    ensures
        replace_lit(s, from, to) == s,
    decreases s.len(),
{
    if s.len() >= from.len() {
        assert(s[0] != '{') by {
            crate::text::lemma_index_of_bounds(s, '{');
            if s[0] == '{' {
                assert(index_of(s, '{') == 0);
            }
        }
        assert(s.take(from.len() as int)[0] != from[0]);
        assert(!has_char(s.drop_first(), '{')) by {
            crate::text::lemma_index_of_bounds(s, '{');
            crate::text::lemma_index_of_bounds(s.drop_first(), '{');
            if has_char(s.drop_first(), '{') {
                let j = index_of(s.drop_first(), '{') as int;
                assert(s[j + 1] == '{');
                assert(index_of(s, '{') <= j + 1) by {
                    if index_of(s, '{') > j + 1 {
                        assert(s[j + 1] != '{');
                    }
                }
            }
        }
        lemma_replace_no_brace(s.drop_first(), from, to);
        assert(seq![s[0]] + s.drop_first() =~= s);
    }
}

/// Filling the placeholders from `k` on leaves text without `{` alone.
proof fn lemma_fill_no_brace(t: Seq<char>, groups: Seq<Option<Seq<char>>>, k: nat)
    requires
        !has_char(t, '{'),
    ensures
        fill(t, groups, k) == t,
    decreases 10 - k,
{
    if k <= 9 {
        if k < groups.len() && groups[k as int] is Some {
            lemma_replace_no_brace(t, placeholder(k), groups[k as int]->0);
        }
        lemma_fill_no_brace(t, groups, k + 1);
    }
}

/// The rules whose subcommand is the word their first group captures
/// (`{1}`): those of Pnpm, Mypy, Pytest, Ruff, Black, Maven, .NET,
/// RuboCop and CMake; and the rules with a fixed subcommand: `compile` for
/// GCC, Clang and MSVC, `format` for clang-format, `run` for
/// golangci-lint.
proof fn lemma_rule_templates(k: int)
    requires
        0 <= k < spec_rules().len(),
    ensures
        (spec_rules()[k].tech_stack == TechStack::Pnpm || spec_rules()[k].tech_stack == TechStack::Mypy
            || spec_rules()[k].tech_stack == TechStack::Pytest || spec_rules()[k].tech_stack == TechStack::Ruff
            || spec_rules()[k].tech_stack == TechStack::Black || spec_rules()[k].tech_stack == TechStack::Maven
            || spec_rules()[k].tech_stack == TechStack::Dotnet || spec_rules()[k].tech_stack == TechStack::Rubocop
            || spec_rules()[k].tech_stack == TechStack::CMake) ==> spec_rules()[k].template == "{1}"@,
        (spec_rules()[k].tech_stack == TechStack::Gcc || spec_rules()[k].tech_stack == TechStack::Clang
            || spec_rules()[k].tech_stack == TechStack::Msvc) ==> spec_rules()[k].template == "compile"@,
        spec_rules()[k].tech_stack == TechStack::ClangFormat ==> spec_rules()[k].template == "format"@,
        spec_rules()[k].tech_stack == TechStack::GolangciLint ==> spec_rules()[k].template == "run"@,
{
    let rs = spec_rules();
    assert(rs.len() == 24);
    assert(rs[0].tech_stack == TechStack::Cargo && rs[0].template == "{1}"@);
    assert(rs[1].tech_stack == TechStack::Cargo && rs[1].template == "nextest {1}"@);
    assert(rs[2].tech_stack == TechStack::Npm && rs[2].template == "run {2}"@);
    assert(rs[3].tech_stack == TechStack::Pnpm && rs[3].template == "{1}"@);
    assert(rs[4].tech_stack == TechStack::Yarn && rs[4].template == "run {2}"@);
    assert(rs[5].tech_stack == TechStack::Mypy && rs[5].template == "{1}"@);
    assert(rs[6].tech_stack == TechStack::Pytest && rs[6].template == "{1}"@);
    assert(rs[7].tech_stack == TechStack::Ruff && rs[7].template == "{1}"@);
    assert(rs[8].tech_stack == TechStack::Black && rs[8].template == "{1}"@);
    assert(rs[9].tech_stack == TechStack::GoBuild && rs[9].template == "{1}"@);
    assert(rs[10].tech_stack == TechStack::GoBuild && rs[10].template == "fmt"@);
    assert(rs[11].tech_stack == TechStack::GolangciLint && rs[11].template == "run"@);
    assert(rs[12].tech_stack == TechStack::Maven && rs[12].template == "{1}"@);
    assert(rs[13].tech_stack == TechStack::Gradle && rs[13].template == "{2}"@);
    assert(rs[14].tech_stack == TechStack::Dotnet && rs[14].template == "{1}"@);
    assert(rs[15].tech_stack == TechStack::Rubocop && rs[15].template == "{1}"@);
    assert(rs[16].tech_stack == TechStack::Rspec && rs[16].template == "{2}"@);
    assert(rs[17].tech_stack == TechStack::CMake && rs[17].template == "{1}"@);
    assert(rs[18].tech_stack == TechStack::Gcc && rs[18].template == "compile"@);
    assert(rs[19].tech_stack == TechStack::Clang && rs[19].template == "compile"@);
    assert(rs[20].tech_stack == TechStack::ClangFormat && rs[20].template == "format"@);
    assert(rs[21].tech_stack == TechStack::Msvc && rs[21].template == "compile"@);
    assert(rs[22].tech_stack == TechStack::Npm && rs[22].template == "run {1}"@);
    assert(rs[23].tech_stack == TechStack::Dotnet && rs[23].template == "{1}"@);
}

/// A Ruff command is classified under the word the user typed: whenever a
/// Ruff rule of the table matches a command, capturing as its first group a
/// word (without braces), the rule's subcommand is that very word, and the
/// rest of the command becomes the extra arguments.
pub proof fn lemma_ruff_keeps_typed_word(k: int, cmd: Seq<char>)
    requires
        0 <= k < spec_rules().len(),
        spec_rules()[k].tech_stack == TechStack::Ruff,
        captures_of("(?i)"@ + spec_rules()[k].pattern, cmd) is Some,
        ({
            let g = captures_of("(?i)"@ + spec_rules()[k].pattern, cmd)->0;
            let g = g.0;
            &&& g.len() >= 2
            &&& g[0] is Some
            &&& g[1] is Some
            &&& g[1]->0.len() > 0
            &&& !has_char(g[1]->0, '{')
        }),
    ensures
        ({
            let (g, rest) = captures_of("(?i)"@ + spec_rules()[k].pattern, cmd)->0;
            apply_rule(spec_rules()[k], cmd) == Some((g[1]->0, extra_of(rest)))
        }),
{
    lemma_passthrough_keeps_typed_word(k, cmd);
}

/// The rules of the stacks that pass the user's word through (Pnpm, Mypy,
/// Pytest, Ruff, Black, Maven, .NET, RuboCop, CMake) classify a command
/// under the word their first group captures: whenever such a rule matches,
/// capturing a word without braces as its first group, the rule's
/// subcommand is that word and the rest of the command the extra arguments.
pub proof fn lemma_passthrough_keeps_typed_word(k: int, cmd: Seq<char>)
    requires
        0 <= k < spec_rules().len(),
        spec_rules()[k].tech_stack == TechStack::Pnpm || spec_rules()[k].tech_stack == TechStack::Mypy
            || spec_rules()[k].tech_stack == TechStack::Pytest || spec_rules()[k].tech_stack == TechStack::Ruff
            || spec_rules()[k].tech_stack == TechStack::Black || spec_rules()[k].tech_stack == TechStack::Maven
            || spec_rules()[k].tech_stack == TechStack::Dotnet || spec_rules()[k].tech_stack == TechStack::Rubocop
            || spec_rules()[k].tech_stack == TechStack::CMake,
        captures_of("(?i)"@ + spec_rules()[k].pattern, cmd) is Some,
        ({
            let g = captures_of("(?i)"@ + spec_rules()[k].pattern, cmd)->0;
            let g = g.0;
            &&& g.len() >= 2
            &&& g[0] is Some
            &&& g[1] is Some
            &&& g[1]->0.len() > 0
            &&& !has_char(g[1]->0, '{')
        }),
    ensures
        ({
            let (g, rest) = captures_of("(?i)"@ + spec_rules()[k].pattern, cmd)->0;
            apply_rule(spec_rules()[k], cmd) == Some((g[1]->0, extra_of(rest)))
        }),
{
    lemma_rule_templates(k);
    let (g, rest) = captures_of("(?i)"@ + spec_rules()[k].pattern, cmd)->0;
    let w = g[1]->0;
    let full = g[0]->0;
    reveal_strlit("{1}");
    reveal_strlit("{0}");
    let t0 = "{1}"@;
    assert(replace_lit(t0, "{0}"@, full) == t0) by {
        assert(t0.take(3) != "{0}"@) by {
            assert(t0.take(3)[1] != "{0}"@[1]);
        }
        let r1 = t0.drop_first();
        assert(r1.len() < 3);
        assert(replace_lit(r1, "{0}"@, full) == r1);
        assert(seq![t0[0]] + r1 =~= t0);
    }
    assert(placeholder(1) =~= t0);
    assert(placeholder(1).len() == 3);
    assert(t0.take(placeholder(1).len() as int) == placeholder(1));
    assert(replace_lit(t0.skip(3), placeholder(1), w) == Seq::<char>::empty());
    assert(replace_lit(t0, placeholder(1), w) == w + replace_lit(t0.skip(3), placeholder(1), w));
    assert(replace_lit(t0, placeholder(1), w) =~= w);
    lemma_fill_no_brace(w, g, 2);
}

/// The compiler and formatter rules give fixed subcommands: whenever the
/// rule of GCC, Clang or MSVC matches a command, its subcommand is
/// `compile`; clang-format's is `format`, golangci-lint's `run`.
pub proof fn lemma_fixed_subcommands(k: int, cmd: Seq<char>)
    requires
        0 <= k < spec_rules().len(),
        captures_of("(?i)"@ + spec_rules()[k].pattern, cmd) is Some,
        ({
            let g = captures_of("(?i)"@ + spec_rules()[k].pattern, cmd)->0;
            let g = g.0;
            g.len() >= 1 && g[0] is Some
        }),
    ensures
        ({
            let t = spec_rules()[k].tech_stack;
            let sub = apply_rule(spec_rules()[k], cmd)->0;
            let sub = sub.0;
            &&& apply_rule(spec_rules()[k], cmd) is Some
            &&& (t == TechStack::Gcc || t == TechStack::Clang || t == TechStack::Msvc) ==> sub == "compile"@
            &&& t == TechStack::ClangFormat ==> sub == "format"@
            &&& t == TechStack::GolangciLint ==> sub == "run"@
        }),
{
    lemma_rule_templates(k);
    let (g, rest) = captures_of("(?i)"@ + spec_rules()[k].pattern, cmd)->0;
    let full = g[0]->0;
    let t = spec_rules()[k].template;
    let ts = spec_rules()[k].tech_stack;
    if ts == TechStack::Gcc || ts == TechStack::Clang || ts == TechStack::Msvc || ts == TechStack::ClangFormat
        || ts == TechStack::GolangciLint {
        reveal_strlit("compile");
        reveal_strlit("format");
        reveal_strlit("run");
        reveal_strlit("{0}");
        assert(!has_char(t, '{')) by {
            if has_char(t, '{') {
                let j = choose|j: int| 0 <= j < t.len() && t[j] == '{';
                assert(t[j] != '{');
            }
        }
        assert(placeholder(0) =~= "{0}"@);
        lemma_replace_no_brace(t, "{0}"@, full);
        lemma_fill_no_brace(t, g, 1);
    }
}

/// The first rule of `rs`, from index `k`, that matches.
pub open spec fn first_rule(rs: Seq<RuleSpec>, cleaned: Seq<char>, k: int) -> Option<(int, Seq<char>, Seq<Seq<char>>)>
    decreases rs.len() - k,
{
    if k < 0 || k >= rs.len() {
        None
    } else {
        match apply_rule(rs[k], cleaned) {
            Some((sub, extra)) => Some((k, sub, extra)),
            None => first_rule(rs, cleaned, k + 1),
        }
    }
}

proof fn lemma_first_rule_bounds(rs: Seq<RuleSpec>, cleaned: Seq<char>, k: int)
    ensures
        first_rule(rs, cleaned, k) matches Some((i, _, _)) ==> k <= i < rs.len(),
    decreases rs.len() - k,
{
    if 0 <= k < rs.len() && apply_rule(rs[k], cleaned) is None {
        lemma_first_rule_bounds(rs, cleaned, k + 1);
    }
}

/// The first word of a command, or the empty text.
pub open spec fn first_word(s: Seq<char>) -> Seq<char> {
    if words(s).len() > 0 { words(s)[0] } else { seq![] }
}

/// The configured command that a command's first word names, if it is
/// enabled and its first stack is a known stack.
pub open spec fn config_match(cleaned: Seq<char>, cmds: Seq<(String, CommandConfig)>) -> Option<(TechStack, Seq<char>, Seq<Seq<char>>)> {
    let base = first_word(cleaned);
    if base.len() == 0 {
        None
    } else {
        match lookup(cmds, base) {
            Some(c) => if c.enabled && c.tech_stacks@.len() > 0 {
                match stack_named(lowercase(c.tech_stacks@[0]@)) {
                    Some(ts) => Some((ts, c.command@, extra_of(cleaned.skip(base.len() as int)))),
                    None => None,
                }
            } else {
                None
            },
            None => None,
        }
    }
}

/// Classification of a command by the rules `rs`, then by the configured
/// commands (when given).
pub open spec fn classify_spec(raw: Seq<char>, rs: Seq<RuleSpec>, cmds: Option<Seq<(String, CommandConfig)>>) -> ClassSpec {
    let cleaned = strip_env(raw);
    match first_rule(rs, cleaned, 0) {
        Some((k, sub, extra)) => ClassSpec::Matched { tech_stack: rs[k].tech_stack, subcommand: sub, extra_args: extra, rule_index: k },
        None => {
            let fallback = match cmds {
                Some(c) => config_match(cleaned, c),
                None => None,
            };
            match fallback {
                Some((ts, sub, extra)) => ClassSpec::Matched { tech_stack: ts, subcommand: sub, extra_args: extra, rule_index: usize::MAX as int },
                None => ClassSpec::Unmatched { base_command: first_word(cleaned) },
            }
        },
    }
}

fn apply_rule_exec(rule: &CommandRule, cleaned: &str) -> (r: Option<(String, Vec<String>)>)
    ensures
        match apply_rule(rule.spec(), cleaned@) {
            Some((sub, extra)) => r is Some && (r->0).0@ == sub && views((r->0).1@) == extra,
            None => r is None,
        },
{
    let mut pat = String::from_str("(?i)");
    pat.append(rule.pattern);
    let caps = match regex_captures(pat.as_str(), cleaned) {
        Some(c) => c,
        None => return None,
    };
    let ghost gv = caps.groups_view();
    let full: String = match &caps.groups[0] {
        Some(f) => f.clone(),
        None => String::new(),
    };
    assert(gv[0] == Some(full@));
    proof {
        reveal_strlit("{0}");
    }
    let sub0 = replace_all_literal(rule.subcommand_template, "{0}", full.as_str());
    let sub = fill_capture_refs(sub0.as_str(), &caps.groups);
    let sub = if sub.as_str().is_empty() { full } else { sub };
    let rest = trim_str(caps.rest.as_str());
    let extra = if rest.as_str().is_empty() { Vec::new() } else { shell_words_split(rest.as_str()) };
    assert(views(extra@) =~= extra_of(caps.rest@));
    Some((sub, extra))
}

fn first_word_exec(s: &str) -> (r: String)
    ensures
        r@ == first_word(s@),
{
    let w = crate::text::words_of(s);
    if w.len() > 0 {
        assert(views(w@)[0] == w@[0]@);
        w[0].clone()
    } else {
        String::new()
    }
}

fn rest_after(s: &str, n: usize) -> (r: String)
    ensures
        n <= s@.len() ==> r@ == s@.skip(n as int),
{
    let v = chars_of(s);
    if n <= v.len() {
        string_from(&v, n, v.len())
    } else {
        String::new()
    }
}

fn config_match_exec(cleaned: &str, commands: &Vec<(String, CommandConfig)>) -> (r: Option<(TechStack, String, Vec<String>)>)
    ensures
        match config_match(cleaned@, commands@) {
            Some((ts, sub, extra)) => r is Some && (r->0).0 == ts && (r->0).1@ == sub && views((r->0).2@) == extra,
            None => r is None,
        },
{
    let base = first_word_exec(cleaned);
    if base.as_str().is_empty() {
        return None;
    }
    let cfg = match lookup_key(commands, base.as_str()) {
        Some(c) => c,
        None => return None,
    };
    if !cfg.enabled || cfg.tech_stacks.len() == 0 {
        return None;
    }
    let ts = match TechStack::parse_name(cfg.tech_stacks[0].as_str()) {
        Ok(t) => t,
        Err(_) => return None,
    };
    proof {
        crate::text::lemma_words_bounded(cleaned@);
    }
    let rest = trim_str(rest_after(cleaned, base.as_str().unicode_len()).as_str());
    let extra = if rest.as_str().is_empty() { Vec::new() } else { shell_words_split(rest.as_str()) };
    Some((ts, cfg.command.clone(), extra))
}


fn classify_command_inner(raw_cmd: &str, commands: Option<&Vec<(String, CommandConfig)>>) -> (r: Classification)
    ensures
        r.spec() =~~= classify_spec(raw_cmd@, spec_rules(), match commands {
            Some(c) => Some(c@),
            None => None,
        }),
{
    let cleaned = strip_env_prefixes(raw_cmd);
    let table = rules();
    let mut idx: usize = 0;
    while idx < table.len()
        invariant
            idx <= table@.len(),
            rule_specs(table@) =~~= spec_rules(),
            cleaned@ == strip_env(raw_cmd@),
            first_rule(spec_rules(), cleaned@, idx as int) == first_rule(spec_rules(), cleaned@, 0),
        decreases table@.len() - idx,
    {
        assert(rule_specs(table@)[idx as int] == table@[idx as int].spec());
        assert(spec_rules()[idx as int] == table@[idx as int].spec());
        match apply_rule_exec(&table[idx], cleaned.as_str()) {
            Some((subcommand, extra_args)) => {
                assert(first_rule(spec_rules(), cleaned@, idx as int) == Some((idx as int, subcommand@, views(extra_args@))));
                return Classification::Matched {
                    tech_stack: table[idx].tech_stack,
                    subcommand,
                    extra_args,
                    rule_index: idx,
                };
            }
            None => {}
        }
        idx += 1;
    }
    if let Some(cmds) = commands {
        match config_match_exec(cleaned.as_str(), cmds) {
            Some((tech_stack, subcommand, extra_args)) => {
                return Classification::Matched { tech_stack, subcommand, extra_args, rule_index: usize::MAX };
            }
            None => {}
        }
    }
    Classification::Unmatched { base_command: first_word_exec(cleaned.as_str()) }
}

/// Classifies a raw shell command by the rule table.
pub fn classify_command(raw_cmd: &str) -> (r: Classification)
    ensures
        r.spec() =~~= classify_spec(raw_cmd@, spec_rules(), None),
{
    classify_command_inner(raw_cmd, None)
}

/// Classifies a raw shell command by the rule table, then by the configured
/// command aliases.
pub fn classify_command_with_config(raw_cmd: &str, commands: &Vec<(String, CommandConfig)>) -> (r: Classification)
    ensures
        r.spec() =~~= classify_spec(raw_cmd@, spec_rules(), Some(commands@)),
{
    classify_command_inner(raw_cmd, Some(commands))
}

/// The rewrite that a classification gives: stack, subcommand and extra
/// arguments of a match.
pub open spec fn rewrite_of(c: ClassSpec) -> Option<(TechStack, Seq<char>, Seq<Seq<char>>)> {
    match c {
        ClassSpec::Matched { tech_stack, subcommand, extra_args, .. } => Some((tech_stack, subcommand, extra_args)),
        ClassSpec::Unmatched { .. } => None,
    }
}

/// The view of a rewrite result.
pub open spec fn rewrite_view(r: Option<(TechStack, String, Vec<String>)>) -> Option<(TechStack, Seq<char>, Seq<Seq<char>>)> {
    match r {
        Some((t, s, e)) => Some((t, s@, views(e@))),
        None => None,
    }
}

fn to_rewrite(c: Classification) -> (r: Option<(TechStack, String, Vec<String>)>)
    ensures
        rewrite_view(r) =~~= rewrite_of(c.spec()),
{
    match c {
        Classification::Matched { tech_stack, subcommand, extra_args, .. } => Some((tech_stack, subcommand, extra_args)),
        Classification::Unmatched { .. } => None,
    }
}

/// Rewrites a raw shell command into stack, subcommand and extra arguments.
pub fn rewrite_command(raw_cmd: &str) -> (r: Option<(TechStack, String, Vec<String>)>)
    ensures
        rewrite_view(r) =~~= rewrite_of(classify_spec(raw_cmd@, spec_rules(), None)),
{
    to_rewrite(classify_command(raw_cmd))
}

/// Rewrites with the configured command aliases as fallback.
pub fn rewrite_command_with_config(raw_cmd: &str, commands: &Vec<(String, CommandConfig)>) -> (r: Option<(TechStack, String, Vec<String>)>)
    ensures
        rewrite_view(r) =~~= rewrite_of(classify_spec(raw_cmd@, spec_rules(), Some(commands@))),
{
    to_rewrite(classify_command_with_config(raw_cmd, commands))
}

/// Rewrites the first segment of a compound command (up to the first shell
/// operator); `None` when there is no segment.
pub fn rewrite_first_segment(raw_cmd: &str) -> (r: Option<(TechStack, String, Vec<String>)>)
    ensures
        split_segments(raw_cmd@).len() == 0 ==> r is None,
        split_segments(raw_cmd@).len() > 0 ==> rewrite_view(r) =~~= rewrite_of(classify_spec(split_segments(raw_cmd@)[0], spec_rules(), None)),
{
    let segments = split_on_operators(raw_cmd);
    if segments.len() > 0 {
        assert(views(segments@)[0] == segments@[0]@);
        rewrite_command(segments[0].as_str())
    } else {
        None
    }
}

/// `start + k`, or `usize::MAX` when that does not fit.
pub open spec fn offset_index(start: int, k: int) -> int {
    if start + k <= usize::MAX { start + k } else { usize::MAX as int }
}

/// Classifies by the rules of `rule_set`, numbering its rules from `start`;
/// by the whole table when none of them matches.
fn classify_in_set(raw_cmd: &str, rule_set: &RuleSet, start: usize) -> (r: Classification)
    ensures
        ({
            let cleaned = strip_env(raw_cmd@);
            match first_rule(rule_specs(rule_set.rules@), cleaned, 0) {
                Some((k, sub, extra)) => r.spec() =~~= ClassSpec::Matched {
                    tech_stack: rule_specs(rule_set.rules@)[k].tech_stack, subcommand: sub, extra_args: extra,
                    rule_index: offset_index(start as int, k) },
                None => r.spec() =~~= classify_spec(raw_cmd@, spec_rules(), None),
            }
        }),
{
    let cleaned = strip_env_prefixes(raw_cmd);
    let set_rules = rule_set.iter();
    let mut idx: usize = 0;
    while idx < set_rules.len()
        invariant
            idx <= set_rules@.len(),
            set_rules@ == rule_set.rules@,
            cleaned@ == strip_env(raw_cmd@),
            first_rule(rule_specs(rule_set.rules@), cleaned@, idx as int) == first_rule(rule_specs(rule_set.rules@), cleaned@, 0),
        decreases set_rules@.len() - idx,
    {
        assert(rule_specs(rule_set.rules@)[idx as int] == set_rules@[idx as int].spec());
        match apply_rule_exec(&set_rules[idx], cleaned.as_str()) {
            Some((subcommand, extra_args)) => {
                assert(first_rule(rule_specs(rule_set.rules@), cleaned@, idx as int) == Some((idx as int, subcommand@, views(extra_args@))));
                let rule_index: usize = if idx <= usize::MAX - start { start + idx } else { usize::MAX };
                return Classification::Matched {
                    tech_stack: set_rules[idx].tech_stack,
                    subcommand,
                    extra_args,
                    rule_index,
                };
            }
            None => {}
        }
        idx += 1;
    }
    classify_command(raw_cmd)
}

/// Classifies by the rules of one rule set; when none of them matches,
/// classifies by the whole table. The rule index counts in the whole table,
/// from where the rules of the set's category begin there.
pub fn classify_with_ruleset(raw_cmd: &str, rule_set: &RuleSet) -> (r: Classification)
    ensures
        ({
            let cleaned = strip_env(raw_cmd@);
            match first_rule(rule_specs(rule_set.rules@), cleaned, 0) {
                Some((k, sub, extra)) => r.spec() =~~= ClassSpec::Matched {
                    tech_stack: rule_specs(rule_set.rules@)[k].tech_stack, subcommand: sub, extra_args: extra,
                    rule_index: offset_index(set_start(rule_set.category@) as int, k) },
                None => r.spec() =~~= classify_spec(raw_cmd@, spec_rules(), None),
            }
        }),
{
    let start = category_start(rule_set.category);
    classify_in_set(raw_cmd, rule_set, start)
}

/// Classifies by the rule set of a category (by the whole table when there
/// is no such category, or when no rule of the set matches). A match
/// carries the index of its rule in the whole table.
pub fn classify_by_category(raw_cmd: &str, category: &str) -> (r: Classification)
    ensures
        ({
            let sets = spec_rule_sets();
            let k = set_index(sets, category@);
            let cleaned = strip_env(raw_cmd@);
            if k < sets.len() {
                match first_rule(sets[k as int].1, cleaned, 0) {
                    Some((i, sub, extra)) => {
                        let at = flatten_sets(sets.take(k as int)).len() + i;
                        &&& r.spec() =~~= ClassSpec::Matched {
                            tech_stack: sets[k as int].1[i].tech_stack, subcommand: sub, extra_args: extra, rule_index: at }
                        &&& 0 <= at < spec_rules().len()
                        &&& spec_rules()[at] == sets[k as int].1[i]
                    },
                    None => r.spec() =~~= classify_spec(raw_cmd@, spec_rules(), None),
                }
            } else {
                r.spec() =~~= classify_spec(raw_cmd@, spec_rules(), None)
            }
        }),
{
    match rule_set_by_category(category) {
        Some(rs) => {
            let start = category_start(category);
            let r = classify_in_set(raw_cmd, &rs, start);
            proof {
                let sets = spec_rule_sets();
                let k = set_index(sets, category@);
                let cleaned = strip_env(raw_cmd@);
                assert(rule_specs(rs.rules@) == sets[k as int].1);
                match first_rule(sets[k as int].1, cleaned, 0) {
                    Some((i, sub, extra)) => {
                        lemma_first_rule_bounds(sets[k as int].1, cleaned, 0);
                        lemma_flatten_index(sets, k as int, i);
                        lemma_rules_are_the_sets();
                    },
                    None => {},
                }
            }
            r
        }
        None => classify_command(raw_cmd),
    }
}

/// Whether a rule's pattern, matched case-insensitively, finds `cmd` (a
/// pattern that does not compile finds nothing).
pub open spec fn rule_hits(r: RuleSpec, cmd: Seq<char>) -> bool {
    match_result("(?i)"@ + r.pattern, cmd) == Some(true)
}

/// Whether some rule of the table finds `cmd` (a quick classification check).
pub fn has_matching_rule(cmd: &str) -> (r: bool)
    ensures
        r == exists|i: int| 0 <= i < spec_rules().len() && rule_hits(#[trigger] spec_rules()[i], cmd@),
{
    let table = rules();
    let mut i: usize = 0;
    while i < table.len()
        invariant
            i <= table@.len(),
            rule_specs(table@) =~~= spec_rules(),
            forall|j: int| 0 <= j < i ==> !rule_hits(#[trigger] spec_rules()[j], cmd@),
        decreases table@.len() - i,
    {
        assert(spec_rules()[i as int] == table@[i as int].spec());
        let mut pat = String::from_str("(?i)");
        pat.append(table[i].pattern);
        match regex_is_match(pat.as_str(), cmd) {
            Some(true) => {
                assert(rule_hits(spec_rules()[i as int], cmd@));
                return true;
            },
            _ => {},
        }
        i += 1;
    }
    false
}

} // verus!
