//! Text processing of command output: escape codes, terminal-UI frames,
//! noise and keep patterns, replacements and truncation.

use vstd::prelude::*;
use crate::pattern::{match_result, regex_compiles, regex_is_match, regex_replace_all, regex_valid, replace_result};
use crate::text::{
    chars_of, is_ws, join, join_strings, lines, lines_of, push_char, string_from, trim, trim_str, views,
};

verus! {

// ───────────────────────────── escape codes ─────────────────────────────

/// The pattern of an ANSI escape sequence (CSI, parameters, final letter).
pub open spec fn ansi_pattern() -> Seq<char> {
    "\x1b\\[[0-9;]*[a-zA-Z]"@
}

/// `text` with its ANSI escape sequences removed.
pub open spec fn without_ansi(text: Seq<char>) -> Seq<char> {
    match replace_result(ansi_pattern(), text, ""@) {
        Some(r) => r,
        None => text,
    }
}

/// Strips ANSI escape sequences (`\x1b[` parameters and a final letter).
pub fn strip_ansi(text: &str) -> (r: String)
    ensures
        r@ == without_ansi(text@),
{
    let pat = "\x1b\\[[0-9;]*[a-zA-Z]";
    proof { reveal_strlit("\x1b\\[[0-9;]*[a-zA-Z]"); }
    assert(pat@ == ansi_pattern());
    match regex_replace_all(pat, text, "") {
        Some(s) => {
            proof { reveal_strlit(""); }
            s
        },
        None => String::from_str(text),
    }
}

// ───────────────────────────── truncation ─────────────────────────────

/// `s` cut to `max_len` characters, the last three replaced by `...` when
/// it was longer; just `...` when `max_len` leaves no room for text.
pub open spec fn truncated(s: Seq<char>, max_len: nat) -> Seq<char> {
    if s.len() <= max_len {
        s
    } else if max_len < 3 {
        "..."@
    } else {
        s.take(max_len - 3) + "..."@
    }
}

/// A text that fits is kept; a cut text fits in `max_len` characters when
/// there is room for the `...`.
pub proof fn lemma_truncated_fits(s: Seq<char>, max_len: nat)
    ensures
        s.len() <= max_len ==> truncated(s, max_len) == s,
        max_len >= 3 ==> truncated(s, max_len).len() <= max_len,
{
    reveal_strlit("...");
}

/// Truncates `s` to `max_len` characters, ending in `...` when cut.
pub fn truncate(s: &str, max_len: usize) -> (r: String)
    ensures
        r@ == truncated(s@, max_len as nat),
{
    let v = chars_of(s);
    proof { reveal_strlit("..."); }
    if v.len() <= max_len {
        String::from_str(s)
    } else if max_len < 3 {
        String::from_str("...")
    } else {
        let mut r = string_from(&v, 0, max_len - 3);
        r.append("...");
        assert(v@.subrange(0, max_len - 3) =~= s@.take(max_len - 3));
        r
    }
}

// ───────────────────────────── line lists ─────────────────────────────

/// Lines joined with `\n`.
pub open spec fn unlines(ls: Seq<Seq<char>>) -> Seq<char> {
    join(ls, "\n"@)
}

/// Whether one of `patterns` matches `text`.
pub open spec fn any_matches(patterns: Seq<String>, text: Seq<char>) -> bool {
    exists|k: int| 0 <= k < patterns.len() && match_result((#[trigger] patterns[k])@, text) == Some(true)
}

/// Every pattern of the list compiles.
pub open spec fn all_compile(patterns: Seq<String>) -> bool {
    forall|k: int| 0 <= k < patterns.len() ==> regex_compiles((#[trigger] patterns[k])@)
}

/// The lines whose trimmed text no pattern matches.
pub open spec fn drop_noise(ls: Seq<Seq<char>>, patterns: Seq<String>) -> Seq<Seq<char>>
    decreases ls.len(),
{
    if ls.len() == 0 {
        seq![]
    } else if any_matches(patterns, trim(ls.last())) {
        drop_noise(ls.drop_last(), patterns)
    } else {
        drop_noise(ls.drop_last(), patterns).push(ls.last())
    }
}

/// The lines that some pattern matches.
pub open spec fn keep_matching(ls: Seq<Seq<char>>, patterns: Seq<String>) -> Seq<Seq<char>>
    decreases ls.len(),
{
    if ls.len() == 0 {
        seq![]
    } else if any_matches(patterns, ls.last()) {
        keep_matching(ls.drop_last(), patterns).push(ls.last())
    } else {
        keep_matching(ls.drop_last(), patterns)
    }
}

/// Whether some pattern matches `text`; every pattern compiles.
pub fn matches_any(patterns: &Vec<String>, text: &str) -> (r: bool)
    requires
        all_compile(patterns@),
    ensures
        r == any_matches(patterns@, text@),
{
    let mut i: usize = 0;
    while i < patterns.len()
        invariant
            i <= patterns@.len(),
            all_compile(patterns@),
            forall|k: int| 0 <= k < i ==> match_result((#[trigger] patterns@[k])@, text@) != Some(true),
        decreases patterns@.len() - i,
    {
        assert(regex_compiles(patterns@[i as int]@));
        match regex_is_match(patterns[i].as_str(), text) {
            Some(true) => {
                return true;
            },
            _ => {},
        }
        i += 1;
    }
    false
}

/// Whether some pattern matches `text`; patterns that do not compile match nothing.
pub fn matches_any_valid(patterns: &Vec<String>, text: &str) -> (r: bool)
    ensures
        r == any_matches(patterns@, text@),
{
    let mut i: usize = 0;
    while i < patterns.len()
        invariant
            i <= patterns@.len(),
            forall|k: int| 0 <= k < i ==> match_result((#[trigger] patterns@[k])@, text@) != Some(true),
        decreases patterns@.len() - i,
    {
        match regex_is_match(patterns[i].as_str(), text) {
            Some(true) => {
                return true;
            },
            _ => {},
        }
        i += 1;
    }
    false
}

/// Whether every pattern of the list compiles.
pub fn patterns_compile(patterns: &Vec<String>) -> (r: bool)
    ensures
        r == all_compile(patterns@),
{
    let mut i: usize = 0;
    while i < patterns.len()
        invariant
            i <= patterns@.len(),
            forall|k: int| 0 <= k < i ==> regex_compiles((#[trigger] patterns@[k])@),
        decreases patterns@.len() - i,
    {
        if !regex_valid(patterns[i].as_str()) {
            return false;
        }
        i += 1;
    }
    true
}

/// Drops the lines whose trimmed text matches one of `patterns`; the kept
/// lines are joined with `\n`. Without patterns the output is unchanged.
pub fn filter_noise_lines(output: &str, patterns: &Vec<String>) -> (r: String)
    requires
        all_compile(patterns@),
    ensures
        r@ == if patterns@.len() == 0 { output@ } else { unlines(drop_noise(lines(output@), patterns@)) },
{
    if patterns.len() == 0 {
        return String::from_str(output);
    }
    let ls = lines_of(output);
    let mut kept: Vec<String> = Vec::new();
    let mut i: usize = 0;
    while i < ls.len()
        invariant
            i <= ls@.len(),
            all_compile(patterns@),
            views(kept@) == drop_noise(views(ls@).take(i as int), patterns@),
        decreases ls@.len() - i,
    {
        let ghost before = kept@;
        assert(views(ls@).take(i + 1).drop_last() =~= views(ls@).take(i as int));
        let t = trim_str(ls[i].as_str());
        if !matches_any(patterns, t.as_str()) {
            kept.push(ls[i].clone());
            assert(views(kept@) =~= views(before).push(ls@[i as int]@));
        }
        i += 1;
    }
    assert(views(ls@).take(ls@.len() as int) =~= views(ls@));
    join_strings(&kept, "\n")
}

/// Keeps only the lines that one of `patterns` matches, joined with `\n`.
/// Without patterns the output is unchanged.
pub fn keep_matching_lines(output: &str, patterns: &Vec<String>) -> (r: String)
    requires
        all_compile(patterns@),
    ensures
        r@ == if patterns@.len() == 0 { output@ } else { unlines(keep_matching(lines(output@), patterns@)) },
{
    if patterns.len() == 0 {
        return String::from_str(output);
    }
    let ls = lines_of(output);
    let mut kept: Vec<String> = Vec::new();
    let mut i: usize = 0;
    while i < ls.len()
        invariant
            i <= ls@.len(),
            all_compile(patterns@),
            views(kept@) == keep_matching(views(ls@).take(i as int), patterns@),
        decreases ls@.len() - i,
    {
        let ghost before = kept@;
        assert(views(ls@).take(i + 1).drop_last() =~= views(ls@).take(i as int));
        if matches_any(patterns, ls[i].as_str()) {
            kept.push(ls[i].clone());
            assert(views(kept@) =~= views(before).push(ls@[i as int]@));
        }
        i += 1;
    }
    assert(views(ls@).take(ls@.len() as int) =~= views(ls@));
    join_strings(&kept, "\n")
}

// ───────────────────────────── replacements ─────────────────────────────

/// `line` with each `(pattern, replacement)` applied in turn, every match
/// of the pattern replaced.
pub open spec fn replace_chain(line: Seq<char>, pats: Seq<(String, String)>) -> Seq<char>
    decreases pats.len(),
{
    if pats.len() == 0 {
        line
    } else {
        let prev = replace_chain(line, pats.drop_last());
        match replace_result(pats.last().0@, prev, pats.last().1@) {
            Some(r) => r,
            None => prev,
        }
    }
}

/// Every pattern of a replacement list compiles.
pub open spec fn all_replacements_compile(pats: Seq<(String, String)>) -> bool {
    forall|k: int| 0 <= k < pats.len() ==> regex_compiles((#[trigger] pats[k]).0@)
}

/// The lines of a text, each mapped through the replacements.
pub open spec fn replace_lines(ls: Seq<Seq<char>>, pats: Seq<(String, String)>) -> Seq<Seq<char>> {
    ls.map_values(|l: Seq<char>| replace_chain(l, pats))
}

/// Applies the replacements in turn to one line.
fn replace_line(line: &str, pats: &Vec<(String, String)>) -> (r: String)
    ensures
        r@ == replace_chain(line@, pats@),
{
    let mut cur = String::from_str(line);
    let mut i: usize = 0;
    while i < pats.len()
        invariant
            i <= pats@.len(),
            cur@ == replace_chain(line@, pats@.take(i as int)),
        decreases pats@.len() - i,
    {
        assert(pats@.take(i + 1).drop_last() =~= pats@.take(i as int));
        match regex_replace_all(pats[i].0.as_str(), cur.as_str(), pats[i].1.as_str()) {
            Some(s) => {
                cur = s;
            },
            None => {},
        }
        i += 1;
    }
    assert(pats@.take(pats@.len() as int) =~= pats@);
    cur
}

/// Applies the `(pattern, replacement)` pairs, in order, to every line; the
/// lines are joined with `\n`. Without pairs the output is unchanged.
pub fn apply_replace_patterns(output: &str, patterns: &Vec<(String, String)>) -> (r: String)
    requires
        all_replacements_compile(patterns@),
    ensures
        r@ == if patterns@.len() == 0 { output@ } else { unlines(replace_lines(lines(output@), patterns@)) },
{
    if patterns.len() == 0 {
        return String::from_str(output);
    }
    let ls = lines_of(output);
    let mut out: Vec<String> = Vec::new();
    let mut i: usize = 0;
    while i < ls.len()
        invariant
            i <= ls@.len(),
            views(out@) == replace_lines(views(ls@).take(i as int), patterns@),
        decreases ls@.len() - i,
    {
        let ghost before = out@;
        let line = replace_line(ls[i].as_str(), patterns);
        out.push(line);
        assert(views(out@) =~= views(before).push(line@));
        assert(views(ls@).take(i + 1) =~= views(ls@).take(i as int).push(ls@[i as int]@));
        assert(views(out@) =~= replace_lines(views(ls@).take(i + 1), patterns@));
        i += 1;
    }
    assert(views(ls@).take(ls@.len() as int) =~= views(ls@));
    join_strings(&out, "\n")
}

// ───────────────────────────── terminal-UI frames ─────────────────────────────

/// The box-drawing and bullet characters that terminal UIs (Turborepo, Nx
/// and other monorepo runners) draw frames with.
pub open spec fn is_tui_char(c: char) -> bool {
    ||| c == '\u{256d}' || c == '\u{2570}' || c == '\u{256e}' || c == '\u{256f}'
    ||| c == '\u{250c}' || c == '\u{2514}' || c == '\u{2510}' || c == '\u{2518}'
    ||| c == '\u{2502}' || c == '\u{2500}' || c == '\u{251c}' || c == '\u{2524}'
    ||| c == '\u{250f}' || c == '\u{2517}' || c == '\u{2513}' || c == '\u{2516}'
    ||| c == '\u{2503}' || c == '\u{2501}' || c == '\u{2523}' || c == '\u{252b}'
    ||| c == '\u{254b}' || c == '\u{2533}' || c == '\u{253b}' || c == '\u{2527}' || c == '\u{2528}'
    ||| c == '\u{2022}' || c == '\u{2716}' || c == '\u{25c6}' || c == '\u{25b8}' || c == '\u{25b9}'
}

/// Whether `c` is one of the frame characters.
pub fn tui_char(c: char) -> (r: bool)
    ensures
        r == is_tui_char(c),
{
    c == '\u{256d}' || c == '\u{2570}' || c == '\u{256e}' || c == '\u{256f}'
    || c == '\u{250c}' || c == '\u{2514}' || c == '\u{2510}' || c == '\u{2518}'
    || c == '\u{2502}' || c == '\u{2500}' || c == '\u{251c}' || c == '\u{2524}'
    || c == '\u{250f}' || c == '\u{2517}' || c == '\u{2513}' || c == '\u{2516}'
    || c == '\u{2503}' || c == '\u{2501}' || c == '\u{2523}' || c == '\u{252b}'
    || c == '\u{254b}' || c == '\u{2533}' || c == '\u{253b}' || c == '\u{2527}' || c == '\u{2528}'
    || c == '\u{2022}' || c == '\u{2716}' || c == '\u{25c6}' || c == '\u{25b8}' || c == '\u{25b9}'
}

/// A line that is nothing but frame characters and whitespace (or empty).
pub open spec fn is_border(line: Seq<char>) -> bool {
    forall|k: int| 0 <= k < line.len() ==> is_ws(#[trigger] line[k]) || is_tui_char(line[k])
}

/// Whether a line is pure terminal-UI decoration: empty, or made only of
/// whitespace and frame characters.
pub fn is_tui_border_line(line: &str) -> (r: bool)
    ensures
        r == is_border(line@),
{
    let v = chars_of(line);
    let mut i: usize = 0;
    while i < v.len()
        invariant
            i <= v@.len(),
            v@ == line@,
            forall|k: int| 0 <= k < i ==> is_ws(#[trigger] v@[k]) || is_tui_char(v@[k]),
        decreases v@.len() - i,
    {
        if !(crate::text::is_whitespace(v[i]) || tui_char(v[i])) {
            return false;
        }
        i += 1;
    }
    true
}

/// Length of the leading run of frame characters and spaces.
pub open spec fn frame_prefix_len(line: Seq<char>) -> nat
    decreases line.len(),
{
    if line.len() > 0 && (is_tui_char(line[0]) || line[0] == ' ') {
        1 + frame_prefix_len(line.drop_first())
    } else {
        0
    }
}

/// The line after its leading frame (frame characters and the spaces among
/// and after them), when it starts with a frame character.
pub open spec fn after_frame(line: Seq<char>) -> Option<Seq<char>> {
    if line.len() > 0 && is_tui_char(line[0]) {
        Some(line.skip(frame_prefix_len(line) as int))
    } else {
        None
    }
}

proof fn lemma_frame_prefix(line: Seq<char>, k: int)
    requires
        0 <= k <= line.len(),
        forall|j: int| 0 <= j < k ==> is_tui_char(#[trigger] line[j]) || line[j] == ' ',
        k < line.len() ==> !(is_tui_char(line[k]) || line[k] == ' '),
    ensures
        frame_prefix_len(line) == k,
    decreases k,
{
    if k > 0 {
        assert forall|j: int| 0 <= j < k - 1 implies is_tui_char(#[trigger] line.drop_first()[j]) || line.drop_first()[j] == ' ' by {
            assert(line.drop_first()[j] == line[j + 1]);
        }
        lemma_frame_prefix(line.drop_first(), k - 1);
    }
}

/// Strips a leading frame (frame characters and spaces) from a line that
/// starts with a frame character; `None` for any other line.
pub fn strip_tui_prefix(line: &str) -> (r: Option<String>)
    ensures
        opt_text(r) == after_frame(line@),
{
    let v = chars_of(line);
    if v.len() == 0 || !tui_char(v[0]) {
        return None;
    }
    let mut k: usize = 0;
    while k < v.len() && (tui_char(v[k]) || v[k] == ' ')
        invariant
            k <= v@.len(),
            forall|j: int| 0 <= j < k ==> is_tui_char(#[trigger] v@[j]) || v@[j] == ' ',
        decreases v@.len() - k,
    {
        k += 1;
    }
    proof { lemma_frame_prefix(v@, k as int); }
    let s = string_from(&v, k, v.len());
    assert(s@ =~= v@.skip(k as int));
    Some(s)
}

/// The view of an optional string.
pub open spec fn opt_text(o: Option<String>) -> Option<Seq<char>> {
    crate::pattern::opt_view(o)
}

/// What frame filtering makes of one line: nothing for a border line, the
/// text after the frame for a framed line, the line itself otherwise.
pub open spec fn unframed(line: Seq<char>) -> Seq<char> {
    if is_border(trim(line)) {
        seq![]
    } else {
        match after_frame(line) {
            Some(c) => c,
            None => line,
        }
    }
}

/// A line that is not decoration and does not open with a frame character
/// is kept as it is, leading whitespace included.
pub proof fn lemma_plain_line_kept(line: Seq<char>)
    requires
        !is_border(trim(line)),
        !(line.len() > 0 && is_tui_char(line[0])),
    ensures
        unframed(line) == line,
{
}

/// The unframed lines that are not empty.
pub open spec fn unframe_lines(ls: Seq<Seq<char>>) -> Seq<Seq<char>>
    decreases ls.len(),
{
    if ls.len() == 0 {
        seq![]
    } else if unframed(ls.last()).len() == 0 {
        unframe_lines(ls.drop_last())
    } else {
        unframe_lines(ls.drop_last()).push(unframed(ls.last()))
    }
}

/// Removes terminal-UI border lines and strips leading frames (`│ `, `┃ `)
/// from content lines; lines without a frame keep their indentation. Empty
/// results are dropped and the rest joined with `\n`.
pub fn filter_tui_frame_lines(output: &str) -> (r: String)
    ensures
        r@ == unlines(unframe_lines(lines(output@))),
{
    let ls = lines_of(output);
    let mut out: Vec<String> = Vec::new();
    let mut i: usize = 0;
    while i < ls.len()
        invariant
            i <= ls@.len(),
            views(out@) == unframe_lines(views(ls@).take(i as int)),
        decreases ls@.len() - i,
    {
        let ghost before = out@;
        assert(views(ls@).take(i + 1).drop_last() =~= views(ls@).take(i as int));
        let line = ls[i].as_str();
        let t = trim_str(line);
        let cleaned: String = if is_tui_border_line(t.as_str()) {
            String::new()
        } else {
            match strip_tui_prefix(line) {
                Some(c) => c,
                None => String::from_str(line),
            }
        };
        assert(cleaned@ == unframed(ls@[i as int]@));
        if cleaned.as_str().unicode_len() > 0 {
            out.push(cleaned);
            assert(views(out@) =~= views(before).push(unframed(ls@[i as int]@)));
        }
        i += 1;
    }
    assert(views(ls@).take(ls@.len() as int) =~= views(ls@));
    join_strings(&out, "\n")
}

// ───────────────────────────── line count ─────────────────────────────

/// The output cut to `max_lines` lines, followed by a line telling how many
/// were left out; unchanged when it has no more lines than that.
pub open spec fn truncated_output(output: Seq<char>, max_lines: nat) -> Seq<char> {
    let ls = lines(output);
    if ls.len() <= max_lines {
        output
    } else {
        unlines(ls.take(max_lines as int)) + "\n... (+"@ + crate::text::decimal((ls.len() - max_lines) as nat) + " more lines)"@
    }
}

/// Truncates output to at most `max_lines` lines, noting `... (+N more lines)`.
pub fn truncate_output(output: &str, max_lines: usize) -> (r: String)
    ensures
        r@ == truncated_output(output@, max_lines as nat),
{
    let ls = lines_of(output);
    if ls.len() <= max_lines {
        return String::from_str(output);
    }
    let mut head: Vec<String> = Vec::new();
    let mut i: usize = 0;
    while i < max_lines
        invariant
            i <= max_lines < ls@.len(),
            views(head@) == views(ls@).take(i as int),
        decreases max_lines - i,
    {
        let ghost before = head@;
        let line = ls[i].clone();
        head.push(line);
        assert(views(head@) =~= views(before).push(line@));
        assert(views(head@) =~= views(ls@).take(i + 1));
        i += 1;
    }
    let mut r = join_strings(&head, "\n");
    r.append("\n... (+");
    let n = crate::text::decimal_string((ls.len() - max_lines) as u64);
    r.append(n.as_str());
    r.append(" more lines)");
    proof {
        reveal_strlit("\n... (+");
        reveal_strlit(" more lines)");
    }
    r
}

// ───────────────────────────── the post-processor ─────────────────────────────

/// Ends the filtering early: when the output matches `pattern` and does not
/// match `unless`, the output is replaced by `message`.
#[derive(Debug, Clone)]
pub struct ShortCircuitRule {
    pub pattern: String,
    pub message: String,
    pub unless: Option<String>,
}

/// Whether a rule fires on `text`: its pattern matches and its `unless`
/// pattern, when present and valid, does not.
pub open spec fn fires(rule: ShortCircuitRule, text: Seq<char>) -> bool {
    &&& match_result(rule.pattern@, text) == Some(true)
    &&& !(rule.unless is Some && match_result(rule.unless->0@, text) == Some(true))
}

/// The message of the first rule that fires on `text`.
pub open spec fn short_circuit(rules: Seq<ShortCircuitRule>, text: Seq<char>) -> Option<Seq<char>>
    decreases rules.len(),
{
    if rules.len() == 0 {
        None
    } else if fires(rules[0], text) {
        Some(rules[0].message@)
    } else {
        short_circuit(rules.drop_first(), text)
    }
}

/// The rules are tried in order on `text` without reaching one whose
/// pattern does not compile.
pub open spec fn short_circuit_ok(rules: Seq<ShortCircuitRule>, text: Seq<char>) -> bool
    decreases rules.len(),
{
    rules.len() == 0 || (regex_compiles(rules[0].pattern@) && (fires(rules[0], text) || short_circuit_ok(rules.drop_first(), text)))
}

/// Whether trying the rules in order on `text` reaches no invalid pattern.
pub fn short_circuits_usable(rules: &Vec<ShortCircuitRule>, text: &str) -> (r: bool)
    ensures
        r == short_circuit_ok(rules@, text@),
{
    let mut i: usize = 0;
    assert(rules@.skip(0) =~= rules@);
    while i < rules.len()
        invariant
            i <= rules@.len(),
            short_circuit_ok(rules@, text@) == short_circuit_ok(rules@.skip(i as int), text@),
        decreases rules@.len() - i,
    {
        let rule = &rules[i];
        assert(rules@.skip(i as int)[0] == rules@[i as int]);
        assert(rules@.skip(i as int).drop_first() =~= rules@.skip(i + 1));
        if !regex_valid(rule.pattern.as_str()) {
            return false;
        }
        if rule_fires(rule, text) {
            return true;
        }
        i += 1;
    }
    true
}

/// Whether one rule fires on `text`; its pattern compiles.
fn rule_fires(rule: &ShortCircuitRule, text: &str) -> (r: bool)
    requires
        regex_compiles(rule.pattern@),
    ensures
        r == fires(*rule, text@),
{
    match regex_is_match(rule.pattern.as_str(), text) {
        Some(true) => {
            match &rule.unless {
                Some(u) => match regex_is_match(u.as_str(), text) {
                    Some(true) => false,
                    _ => true,
                },
                None => true,
            }
        },
        _ => false,
    }
}

/// The output post-processor: escape-code stripping, replacements, frame
/// removal, noise and keep patterns, line and length limits, short-circuit
/// rules and a message for empty output.
#[derive(Debug, Clone)]
pub struct OutputPostProcessor {
    pub strip_ansi: bool,
    pub strip_tui_frames: bool,
    pub replace_patterns: Vec<(String, String)>,
    pub short_circuits: Vec<ShortCircuitRule>,
    pub max_lines: Option<usize>,
    pub max_line_length: Option<usize>,
    pub noise_patterns: Vec<String>,
    pub keep_patterns: Vec<String>,
    pub on_empty_message: Option<String>,
}

/// The pattern that stands for a replacement pattern that does not compile.
pub open spec fn never_pattern() -> Seq<char> {
    "$^"@
}

/// Replacements applied one line at a time, as the streaming filter does: a
/// pattern that does not compile is replaced by `$^`.
pub open spec fn replace_chain_lenient(line: Seq<char>, pats: Seq<(String, String)>) -> Seq<char>
    decreases pats.len(),
{
    if pats.len() == 0 {
        line
    } else {
        let prev = replace_chain_lenient(line, pats.drop_last());
        let p = if regex_compiles(pats.last().0@) { pats.last().0@ } else { never_pattern() };
        match replace_result(p, prev, pats.last().1@) {
            Some(r) => r,
            None => prev,
        }
    }
}

/// Each line of a text cut to `max` characters.
pub open spec fn truncate_lines(ls: Seq<Seq<char>>, max: nat) -> Seq<Seq<char>> {
    ls.map_values(|l: Seq<char>| truncated(l, max))
}

/// The patterns of the turborepo preset.
pub open spec fn turbo_noise() -> Seq<Seq<char>> {
    seq![
        "^\\s*cache (hit|miss|bypass)"@,
        "^\\s*replaying logs"@,
        "^\\s*\\d+ packages in scope"@,
        "^\\s*Running \\w+ in \\d+ packages"@,
        "^\\s*Remote caching"@,
        "^\\s*Tasks:\\s*\\d+"@,
        "^\\s*Cached:\\s*"@,
        "^\\s*Time:\\s*"@,
        "^\\s*Duration:\\s*"@,
        "^\\s*Failed:\\s*"@,
        "^\\s*ERROR\\s+run failed:"@,
        "^\\s*\\d+ problems?\\s*\\("@,
        "^\\s*Update available"@,
        "^\\s*Changelog:"@,
        "^\\s*Follow @turborepo"@,
        "^\\s*> .+@\\d+\\.\\d+\\.\\d+ \\w+"@,
        "cache (hit|miss|bypass|output)"@,
        "replaying logs"@
    ]
}

impl OutputPostProcessor {
    /// Stages one to seven of `process`: escape codes, replacements, frames,
    /// noise, keep, line length and line count.
    pub open spec fn prepared(&self, output: Seq<char>) -> Seq<char> {
        let s1 = if self.strip_ansi { without_ansi(output) } else { output };
        let s2 = if self.replace_patterns@.len() > 0 { unlines(replace_lines(lines(s1), self.replace_patterns@)) } else { s1 };
        let s3 = if self.strip_tui_frames { unlines(unframe_lines(lines(s2))) } else { s2 };
        let s4 = if self.noise_patterns@.len() > 0 { unlines(drop_noise(lines(s3), self.noise_patterns@)) } else { s3 };
        let s5 = if self.keep_patterns@.len() > 0 { unlines(keep_matching(lines(s4), self.keep_patterns@)) } else { s4 };
        let s6 = match self.max_line_length {
            Some(m) => unlines(truncate_lines(lines(s5), m as nat)),
            None => s5,
        };
        match self.max_lines {
            Some(n) => truncated_output(s6, n as nat),
            None => s6,
        }
    }

    /// Stages eight and nine of `process`: a firing short-circuit rule's
    /// message, else the on-empty message for blank text, else the text.
    pub open spec fn finished(&self, text: Seq<char>) -> Seq<char> {
        match short_circuit(self.short_circuits@, text) {
            Some(m) => m,
            None => if trim(text).len() == 0 && self.on_empty_message is Some {
                self.on_empty_message->0@
            } else {
                text
            },
        }
    }

    /// The configured patterns compile, as the batch pipeline needs.
    pub open spec fn patterns_valid(&self) -> bool {
        all_replacements_compile(self.replace_patterns@) && all_compile(self.noise_patterns@) && all_compile(self.keep_patterns@)
    }

    /// A processor that strips escape codes and frames and does nothing else.
    pub fn new() -> (r: OutputPostProcessor)
        ensures
            r.strip_ansi,
            r.strip_tui_frames,
            r.replace_patterns@.len() == 0,
            r.short_circuits@.len() == 0,
            r.max_lines is None,
            r.max_line_length is None,
            r.noise_patterns@.len() == 0,
            r.keep_patterns@.len() == 0,
            r.on_empty_message is None,
    {
        OutputPostProcessor {
            strip_ansi: true,
            strip_tui_frames: true,
            replace_patterns: Vec::new(),
            short_circuits: Vec::new(),
            max_lines: None,
            max_line_length: None,
            noise_patterns: Vec::new(),
            keep_patterns: Vec::new(),
            on_empty_message: None,
        }
    }

    pub fn with_strip_ansi(self, enabled: bool) -> (r: OutputPostProcessor)
        ensures
            r == (OutputPostProcessor { strip_ansi: enabled, ..self }),
    {
        OutputPostProcessor { strip_ansi: enabled, ..self }
    }

    pub fn with_strip_tui_frames(self, enabled: bool) -> (r: OutputPostProcessor)
        ensures
            r == (OutputPostProcessor { strip_tui_frames: enabled, ..self }),
    {
        OutputPostProcessor { strip_tui_frames: enabled, ..self }
    }

    pub fn with_replace_patterns(self, patterns: Vec<(String, String)>) -> (r: OutputPostProcessor)
        ensures
            r == (OutputPostProcessor { replace_patterns: patterns, ..self }),
    {
        OutputPostProcessor { replace_patterns: patterns, ..self }
    }

    pub fn with_short_circuits(self, rules: Vec<ShortCircuitRule>) -> (r: OutputPostProcessor)
        ensures
            r == (OutputPostProcessor { short_circuits: rules, ..self }),
    {
        OutputPostProcessor { short_circuits: rules, ..self }
    }

    pub fn with_max_lines(self, n: usize) -> (r: OutputPostProcessor)
        ensures
            r == (OutputPostProcessor { max_lines: Some(n), ..self }),
    {
        OutputPostProcessor { max_lines: Some(n), ..self }
    }

    pub fn with_max_line_length(self, n: usize) -> (r: OutputPostProcessor)
        ensures
            r == (OutputPostProcessor { max_line_length: Some(n), ..self }),
    {
        OutputPostProcessor { max_line_length: Some(n), ..self }
    }

    pub fn with_noise_patterns(self, patterns: Vec<String>) -> (r: OutputPostProcessor)
        ensures
            r == (OutputPostProcessor { noise_patterns: patterns, ..self }),
    {
        OutputPostProcessor { noise_patterns: patterns, ..self }
    }

    pub fn with_keep_patterns(self, patterns: Vec<String>) -> (r: OutputPostProcessor)
        ensures
            r == (OutputPostProcessor { keep_patterns: patterns, ..self }),
    {
        OutputPostProcessor { keep_patterns: patterns, ..self }
    }

    pub fn with_on_empty(self, message: &str) -> (r: OutputPostProcessor)
        ensures
            r.on_empty_message is Some && r.on_empty_message->0@ == message@,
            r == (OutputPostProcessor { on_empty_message: r.on_empty_message, ..self }),
    {
        OutputPostProcessor { on_empty_message: Some(String::from_str(message)), ..self }
    }

    /// A processor from the analysis options, without replacements,
    /// short-circuit rules or on-empty message (those come from filter
    /// files); a limit of 0 means none.
    pub fn from_options(options: &crate::analysis::options::AnalyzeOptions) -> (r: OutputPostProcessor)
        ensures
            r.strip_ansi == options.strip_ansi,
            r.strip_tui_frames == options.strip_tui_frames,
            r.replace_patterns@.len() == 0,
            r.short_circuits@.len() == 0,
            r.max_lines == (if options.max_output_lines > 0 { Some(options.max_output_lines) } else { None }),
            r.max_line_length == (if options.max_line_length > 0 { Some(options.max_line_length) } else { None }),
            r.noise_patterns@ == options.noise_patterns@,
            r.keep_patterns@ == options.keep_patterns@,
            r.on_empty_message is None,
    {
        OutputPostProcessor {
            strip_ansi: options.strip_ansi,
            strip_tui_frames: options.strip_tui_frames,
            replace_patterns: Vec::new(),
            short_circuits: Vec::new(),
            max_lines: if options.max_output_lines > 0 { Some(options.max_output_lines) } else { None },
            max_line_length: if options.max_line_length > 0 { Some(options.max_line_length) } else { None },
            noise_patterns: crate::analysis::options::copy_strings(&options.noise_patterns),
            keep_patterns: crate::analysis::options::copy_strings(&options.keep_patterns),
            on_empty_message: None,
        }
    }

    /// Merges two processors: the flags are or-ed, the override's lists and
    /// limits win where it has them, except noise patterns, which add up.
    pub fn merge(base: OutputPostProcessor, override_proc: OutputPostProcessor) -> (r: OutputPostProcessor)
        ensures
            r.strip_ansi == (base.strip_ansi || override_proc.strip_ansi),
            r.strip_tui_frames == (base.strip_tui_frames || override_proc.strip_tui_frames),
            r.replace_patterns == (if override_proc.replace_patterns@.len() == 0 { base.replace_patterns } else { override_proc.replace_patterns }),
            r.short_circuits == (if override_proc.short_circuits@.len() == 0 { base.short_circuits } else { override_proc.short_circuits }),
            r.max_lines == (if override_proc.max_lines is Some { override_proc.max_lines } else { base.max_lines }),
            r.max_line_length == (if override_proc.max_line_length is Some { override_proc.max_line_length } else { base.max_line_length }),
            r.noise_patterns@ == base.noise_patterns@ + override_proc.noise_patterns@,
            r.keep_patterns == (if override_proc.keep_patterns@.len() == 0 { base.keep_patterns } else { override_proc.keep_patterns }),
            r.on_empty_message == (if override_proc.on_empty_message is Some { override_proc.on_empty_message } else { base.on_empty_message }),
    {
        let mut noise = base.noise_patterns;
        let mut extra = override_proc.noise_patterns;
        if extra.len() > 0 {
            noise.append(&mut extra);
        } else {
            assert(noise@ =~= noise@ + extra@);
        }
        OutputPostProcessor {
            strip_ansi: base.strip_ansi || override_proc.strip_ansi,
            strip_tui_frames: base.strip_tui_frames || override_proc.strip_tui_frames,
            replace_patterns: if override_proc.replace_patterns.len() == 0 { base.replace_patterns } else { override_proc.replace_patterns },
            short_circuits: if override_proc.short_circuits.len() == 0 { base.short_circuits } else { override_proc.short_circuits },
            max_lines: match override_proc.max_lines { Some(n) => Some(n), None => base.max_lines },
            max_line_length: match override_proc.max_line_length { Some(n) => Some(n), None => base.max_line_length },
            noise_patterns: noise,
            keep_patterns: if override_proc.keep_patterns.len() == 0 { base.keep_patterns } else { override_proc.keep_patterns },
            on_empty_message: match override_proc.on_empty_message { Some(m) => Some(m), None => base.on_empty_message },
        }
    }

    /// One line, its escape codes stripped when enabled.
    pub fn process_line_ansi(&self, line: &str) -> (r: String)
        ensures
            r@ == if self.strip_ansi { without_ansi(line@) } else { line@ },
    {
        if self.strip_ansi { strip_ansi(line) } else { String::from_str(line) }
    }

    /// One line through the replacements (a pattern that does not compile
    /// stands for `$^`).
    pub fn process_line_replace(&self, line: &str) -> (r: String)
        ensures
            r@ == replace_chain_lenient(line@, self.replace_patterns@),
    {
        let pats = &self.replace_patterns;
        let mut cur = String::from_str(line);
        let mut i: usize = 0;
        while i < pats.len()
            invariant
                i <= pats@.len(),
                cur@ == replace_chain_lenient(line@, pats@.take(i as int)),
            decreases pats@.len() - i,
        {
            assert(pats@.take(i + 1).drop_last() =~= pats@.take(i as int));
            let valid = regex_valid(pats[i].0.as_str());
            let out = if valid {
                regex_replace_all(pats[i].0.as_str(), cur.as_str(), pats[i].1.as_str())
            } else {
                proof { reveal_strlit("$^"); }
                regex_replace_all("$^", cur.as_str(), pats[i].1.as_str())
            };
            match out {
                Some(s) => {
                    cur = s;
                },
                None => {},
            }
            i += 1;
        }
        assert(pats@.take(pats@.len() as int) =~= pats@);
        cur
    }

    /// One line with frames removed: `None` for decoration lines and lines
    /// left blank; unchanged when frame stripping is off.
    pub fn process_line_tui(&self, line: &str) -> (r: Option<String>)
        ensures
            opt_text(r) == if !self.strip_tui_frames {
                Some(line@)
            } else if is_border(trim(line@)) {
                None
            } else {
                let c = match after_frame(line@) { Some(c) => c, None => line@ };
                if trim(c).len() == 0 { None } else { Some(c) }
            },
    {
        if !self.strip_tui_frames {
            return Some(String::from_str(line));
        }
        let t = trim_str(line);
        if is_tui_border_line(t.as_str()) {
            return None;
        }
        let cleaned = match strip_tui_prefix(line) {
            Some(c) => c,
            None => String::from_str(line),
        };
        let ct = trim_str(cleaned.as_str());
        if ct.as_str().unicode_len() == 0 { None } else { Some(cleaned) }
    }

    /// Whether a noise pattern matches the trimmed line (patterns that do
    /// not compile match nothing).
    pub fn is_noise_line(&self, line: &str) -> (r: bool)
        ensures
            r == any_matches(self.noise_patterns@, trim(line@)),
    {
        let t = trim_str(line);
        matches_any_valid(&self.noise_patterns, t.as_str())
    }

    /// Whether the line is kept: always without keep patterns, else when one
    /// of them matches it.
    pub fn is_keep_line(&self, line: &str) -> (r: bool)
        ensures
            r == (self.keep_patterns@.len() == 0 || any_matches(self.keep_patterns@, line@)),
    {
        if self.keep_patterns.len() == 0 {
            return true;
        }
        matches_any_valid(&self.keep_patterns, line)
    }

    /// One line cut to the maximum line length, when there is one.
    pub fn process_line_truncate(&self, line: &str) -> (r: String)
        ensures
            r@ == match self.max_line_length {
                Some(m) => truncated(line@, m as nat),
                None => line@,
            },
    {
        match self.max_line_length {
            Some(m) => truncate(line, m),
            None => String::from_str(line),
        }
    }

    /// The message of the first short-circuit rule that fires on `text`.
    pub fn check_short_circuit(&self, text: &str) -> (r: Option<String>)
        requires
            short_circuit_ok(self.short_circuits@, text@),
        ensures
            opt_text(r) == short_circuit(self.short_circuits@, text@),
    {
        let rules = &self.short_circuits;
        let mut i: usize = 0;
        assert(rules@.skip(0) =~= rules@);
        while i < rules.len()
            invariant
                i <= rules@.len(),
                rules@ == self.short_circuits@,
                short_circuit_ok(rules@.skip(i as int), text@),
                short_circuit(rules@, text@) == short_circuit(rules@.skip(i as int), text@),
            decreases rules@.len() - i,
        {
            assert(rules@.skip(i as int)[0] == rules@[i as int]);
            assert(rules@.skip(i as int).drop_first() =~= rules@.skip(i + 1));
            if rule_fires(&rules[i], text) {
                return Some(rules[i].message.clone());
            }
            i += 1;
        }
        None
    }

    /// The preset for Turborepo output: escape codes and frames stripped,
    /// cache, statistics and update notices dropped, lines cut at 200
    /// characters, 100 lines at most, and a message for empty output.
    pub fn for_turbo() -> (r: OutputPostProcessor)
        ensures
            r.strip_ansi,
            r.strip_tui_frames,
            r.replace_patterns@.len() == 0,
            r.short_circuits@.len() == 0,
            views(r.noise_patterns@) == turbo_noise(),
            r.keep_patterns@.len() == 0,
            r.max_line_length == Some(200usize),
            r.max_lines == Some(100usize),
            r.on_empty_message is Some,
            r.on_empty_message->0@ == "turbo: all tasks completed successfully"@,
    {
        let mut noise: Vec<String> = Vec::new();
        noise.push(String::from_str("^\\s*cache (hit|miss|bypass)"));
        noise.push(String::from_str("^\\s*replaying logs"));
        noise.push(String::from_str("^\\s*\\d+ packages in scope"));
        noise.push(String::from_str("^\\s*Running \\w+ in \\d+ packages"));
        noise.push(String::from_str("^\\s*Remote caching"));
        noise.push(String::from_str("^\\s*Tasks:\\s*\\d+"));
        noise.push(String::from_str("^\\s*Cached:\\s*"));
        noise.push(String::from_str("^\\s*Time:\\s*"));
        noise.push(String::from_str("^\\s*Duration:\\s*"));
        noise.push(String::from_str("^\\s*Failed:\\s*"));
        noise.push(String::from_str("^\\s*ERROR\\s+run failed:"));
        noise.push(String::from_str("^\\s*\\d+ problems?\\s*\\("));
        noise.push(String::from_str("^\\s*Update available"));
        noise.push(String::from_str("^\\s*Changelog:"));
        noise.push(String::from_str("^\\s*Follow @turborepo"));
        noise.push(String::from_str("^\\s*> .+@\\d+\\.\\d+\\.\\d+ \\w+"));
        noise.push(String::from_str("cache (hit|miss|bypass|output)"));
        noise.push(String::from_str("replaying logs"));
        assert(views(noise@) =~= turbo_noise());
        OutputPostProcessor::new()
            .with_strip_ansi(true)
            .with_strip_tui_frames(true)
            .with_noise_patterns(noise)
            .with_max_line_length(200)
            .with_max_lines(100)
            .with_on_empty("turbo: all tasks completed successfully")
    }

    /// Stages one to seven of `process`.
    fn prepare(&self, output: &str) -> (r: String)
        requires
            self.patterns_valid(),
        ensures
            r@ == self.prepared(output@),
    {
        let mut result = String::from_str(output);
        if self.strip_ansi {
            result = strip_ansi(result.as_str());
        }
        if self.replace_patterns.len() > 0 {
            result = apply_replace_patterns(result.as_str(), &self.replace_patterns);
        }
        if self.strip_tui_frames {
            result = filter_tui_frame_lines(result.as_str());
        }
        if self.noise_patterns.len() > 0 {
            result = filter_noise_lines(result.as_str(), &self.noise_patterns);
        }
        if self.keep_patterns.len() > 0 {
            result = keep_matching_lines(result.as_str(), &self.keep_patterns);
        }
        match self.max_line_length {
            Some(m) => {
                let ls = lines_of(result.as_str());
                let mut out: Vec<String> = Vec::new();
                let mut i: usize = 0;
                while i < ls.len()
                    invariant
                        i <= ls@.len(),
                        views(out@) == truncate_lines(views(ls@).take(i as int), m as nat),
                    decreases ls@.len() - i,
                {
                    let ghost before = out@;
                    let line = truncate(ls[i].as_str(), m);
                    out.push(line);
                    assert(views(out@) =~= views(before).push(line@));
                    assert(views(ls@).take(i + 1) =~= views(ls@).take(i as int).push(ls@[i as int]@));
                    assert(views(out@) =~= truncate_lines(views(ls@).take(i + 1), m as nat));
                    i += 1;
                }
                assert(views(ls@).take(ls@.len() as int) =~= views(ls@));
                result = join_strings(&out, "\n");
            },
            None => {},
        }
        match self.max_lines {
            Some(n) => {
                result = truncate_output(result.as_str(), n);
            },
            None => {},
        }
        result
    }

    /// Runs the whole pipeline: escape codes, replacements, frames, noise,
    /// keep, line length, line count, then the first firing short-circuit
    /// rule's message, or the on-empty message when nothing is left.
    pub fn process(&self, output: &str) -> (r: String)
        requires
            self.patterns_valid(),
            short_circuit_ok(self.short_circuits@, self.prepared(output@)),
        ensures
            r@ == self.finished(self.prepared(output@)),
    {
        let result = self.prepare(output);
        match self.check_short_circuit(result.as_str()) {
            Some(m) => {
                return m;
            },
            None => {},
        }
        let t = trim_str(result.as_str());
        if t.as_str().unicode_len() == 0 {
            match &self.on_empty_message {
                Some(m) => {
                    return m.clone();
                },
                None => {},
            }
        }
        result
    }

    /// `process`, when every pattern it would compile compiles; `None` otherwise.
    pub fn try_process(&self, output: &str) -> (r: Option<String>)
        ensures
            r is Some <==> (self.patterns_valid() && short_circuit_ok(self.short_circuits@, self.prepared(output@))),
            r is Some ==> r->0@ == self.finished(self.prepared(output@)),
    {
        let mut valid = patterns_compile(&self.noise_patterns) && patterns_compile(&self.keep_patterns);
        let mut i: usize = 0;
        while i < self.replace_patterns.len()
            invariant
                i <= self.replace_patterns@.len(),
                forall|k: int| 0 <= k < i ==> regex_compiles((#[trigger] self.replace_patterns@[k]).0@),
            decreases self.replace_patterns@.len() - i,
        {
            if !regex_valid(self.replace_patterns[i].0.as_str()) {
                return None;
            }
            i += 1;
        }
        if !valid {
            return None;
        }
        let prepared = self.prepare(output);
        if !short_circuits_usable(&self.short_circuits, prepared.as_str()) {
            return None;
        }
        Some(self.process(output))
    }
}

impl Default for OutputPostProcessor {
    fn default() -> (r: OutputPostProcessor)
        ensures
            r.strip_ansi,
            r.strip_tui_frames,
            r.replace_patterns@.len() == 0,
            r.short_circuits@.len() == 0,
            r.max_lines is None,
            r.max_line_length is None,
            r.noise_patterns@.len() == 0,
            r.keep_patterns@.len() == 0,
            r.on_empty_message is None,
    {
        OutputPostProcessor::new()
    }
}

} // verus!
