//! Parsing of command output into issues.

use vstd::prelude::*;
use crate::analysis::options::copy_strings;
use crate::analysis::types::{Issue, IssueLevel, Location};
use crate::text::{
    chars_of, contains, decimal, digits_value, has_char, index_of, is_alphanumeric, is_ascii_alnum, join, join_strings,
    lemma_index_of_bounds, lines, lines_of, lowercase, parse_u32, parses_as_u32, str_contains, string_from, to_lowercase,
    trim, trim_str, unicode_alnum, unsigned_digits, utf8_len, views, words, words_of,
};

verus! {

// ───────────────────────────── parse results ─────────────────────────────

/// The outcome of parsing, by how well it went: complete data, data with
/// warnings about what could not be parsed, or the raw text.
#[derive(Debug)]
pub enum ParseResult<T> {
    Full(T),
    Degraded(T, Vec<String>),
    Passthrough(String),
}

/// The tier of a parse result: 1 for full, 2 for degraded, 3 for passthrough.
pub open spec fn tier_of<T>(p: ParseResult<T>) -> u8 {
    match p {
        ParseResult::Full(_) => 1u8,
        ParseResult::Degraded(_, _) => 2u8,
        ParseResult::Passthrough(_) => 3u8,
    }
}

/// The data of a full or degraded parse result.
pub open spec fn data_of<T>(p: ParseResult<T>) -> Option<T> {
    match p {
        ParseResult::Full(d) => Some(d),
        ParseResult::Degraded(d, _) => Some(d),
        ParseResult::Passthrough(_) => None,
    }
}

/// The warnings of a parse result (none but for a degraded one).
pub open spec fn warnings_of<T>(p: ParseResult<T>) -> Seq<String> {
    match p {
        ParseResult::Degraded(_, w) => w@,
        _ => Seq::<String>::empty(),
    }
}

impl<T> ParseResult<T> {
    pub fn is_full(&self) -> (r: bool)
        ensures
            r == (*self is Full),
    {
        match self {
            ParseResult::Full(_) => true,
            _ => false,
        }
    }

    /// 1 for full, 2 for degraded, 3 for passthrough.
    pub fn tier(&self) -> (r: u8)
        ensures
            r == tier_of(*self),
    {
        match self {
            ParseResult::Full(_) => 1,
            ParseResult::Degraded(_, _) => 2,
            ParseResult::Passthrough(_) => 3,
        }
    }

    /// The data of a full or degraded result, else `default`.
    pub fn data_or_default(self, default: T) -> (r: T)
        ensures
            r == match self {
                ParseResult::Full(d) => d,
                ParseResult::Degraded(d, _) => d,
                ParseResult::Passthrough(_) => default,
            },
    {
        match self {
            ParseResult::Full(data) => data,
            ParseResult::Degraded(data, _) => data,
            ParseResult::Passthrough(_) => default,
        }
    }

    /// The data of a full or degraded result.
    pub fn data(self) -> (r: Option<T>)
        ensures
            r == data_of(self),
    {
        match self {
            ParseResult::Full(data) => Some(data),
            ParseResult::Degraded(data, _) => Some(data),
            ParseResult::Passthrough(_) => None,
        }
    }

    /// The same tier with `f` applied to the data: the tier, the warnings
    /// and passed-through text are kept, and the data of the result is what
    /// `f` gives for the data.
    pub fn map<U, F: FnOnce(T) -> U>(self, f: F) -> (r: ParseResult<U>)
        requires
            match self {
                ParseResult::Full(d) => call_requires(f, (d,)),
                ParseResult::Degraded(d, _) => call_requires(f, (d,)),
                ParseResult::Passthrough(_) => true,
            },
        ensures
            match (self, r) {
                (ParseResult::Full(d), ParseResult::Full(u)) => call_ensures(f, (d,), u),
                (ParseResult::Degraded(d, w), ParseResult::Degraded(u, w2)) => call_ensures(f, (d,), u) && w2 == w,
                (ParseResult::Passthrough(raw), ParseResult::Passthrough(raw2)) => raw2 == raw,
                _ => false,
            },
            tier_of(r) == tier_of(self),
            warnings_of(r) == warnings_of(self),
            data_of(r) is Some <==> data_of(self) is Some,
            data_of(self) matches Some(d) ==> call_ensures(f, (d,), data_of(r)->0),
    {
        match self {
            ParseResult::Full(data) => ParseResult::Full(f(data)),
            ParseResult::Degraded(data, warnings) => ParseResult::Degraded(f(data), warnings),
            ParseResult::Passthrough(raw) => ParseResult::Passthrough(raw),
        }
    }

    /// The warnings of a degraded result (none for the other tiers).
    pub fn warnings(&self) -> (r: Vec<String>)
        ensures
            r@ == warnings_of(*self),
    {
        match self {
            ParseResult::Degraded(_, warnings) => copy_strings(warnings),
            _ => Vec::new(),
        }
    }
}

impl<T: Default> ParseResult<T> {
    /// The data of a full or degraded result, else `T::default()`.
    pub fn data_or_default_owned(self) -> (r: T)
        ensures
            match self {
                ParseResult::Full(d) => r == d,
                ParseResult::Degraded(d, _) => r == d,
                ParseResult::Passthrough(_) => true,
            },
    {
        match self {
            ParseResult::Full(data) => data,
            ParseResult::Degraded(data, _) => data,
            ParseResult::Passthrough(_) => T::default(),
        }
    }
}

// ───────────────────────────── output parsers ─────────────────────────────

/// The view of a parse result: the issues as a sequence.
pub open spec fn parse_view(p: ParseResult<Vec<Issue>>) -> ParseResult<Seq<Issue>> {
    match p {
        ParseResult::Full(v) => ParseResult::Full(v@),
        ParseResult::Degraded(v, w) => ParseResult::Degraded(v@, w),
        ParseResult::Passthrough(raw) => ParseResult::Passthrough(raw),
    }
}

/// A parser of one tool's output. Implementations give `parse`: their own,
/// or the line scan of `scan_lines` over the hooks `is_issue_start`,
/// `parse_issue` and `parse_single_line`.
pub trait OutputParser {
    /// What this parser makes of `output`. A parser verified against this
    /// trait defines it as its `parse` does. The default (no issues) exists
    /// only so that parsers written in unverified code compile; for such a
    /// parser the contract of `parse` is assumed, not checked, and its
    /// `parsed` says nothing true of it.
    open spec fn parsed(&self, output: Seq<char>) -> ParseResult<Seq<Issue>> {
        ParseResult::Full(Seq::empty())
    }

    /// Parses the whole output.
    fn parse(&self, output: &str) -> (r: ParseResult<Vec<Issue>>)
        ensures
            parse_view(r) == self.parsed(output@),
    ;

    /// Whether a line starts an issue (for `scan_lines`).
    fn is_issue_start(&self, line: &str) -> (r: bool)
        default_ensures
            !r,
    {
        false
    }

    /// Parses the issue that starts at `start`, returning it and the number
    /// of lines it takes (for `scan_lines`).
    fn parse_issue(&self, lines: &Vec<String>, start: usize) -> (r: (Option<Issue>, usize))
        default_ensures
            r.0 is None,
            r.1 == 1,
    {
        (None, 1)
    }

    /// Parses a line that starts no issue (for `scan_lines`).
    fn parse_single_line(&self, line: &str) -> (r: Option<Issue>)
        default_ensures
            r is None,
    {
        None
    }
}

/// The line scan of a parser's hooks: at an issue start, `parse_issue`
/// takes the issue and says how many lines it used (at least one line is
/// always consumed); other lines go to `parse_single_line`. The result is
/// always full, with at most one issue per line.
pub fn scan_lines<P: OutputParser>(parser: &P, output: &str) -> (r: ParseResult<Vec<Issue>>)
    ensures
        r is Full,
        r->Full_0@.len() <= lines(output@).len(),
{
    let lines = lines_of(output);
    let mut issues: Vec<Issue> = Vec::new();
    let mut i: usize = 0;
    while i < lines.len()
        invariant
            i <= lines@.len(),
            issues@.len() <= i,
        decreases lines@.len() - i,
    {
        if parser.is_issue_start(lines[i].as_str()) {
            let (issue, consumed) = parser.parse_issue(&lines, i);
            match issue {
                Some(x) => issues.push(x),
                None => {},
            }
            let step: usize = if consumed == 0 { 1 } else { consumed };
            i = if step > lines.len() - i { lines.len() } else { i + step };
        } else {
            match parser.parse_single_line(lines[i].as_str()) {
                Some(x) => issues.push(x),
                None => {},
            }
            i += 1;
        }
    }
    ParseResult::Full(issues)
}

// ───────────────────────────── generic helpers ─────────────────────────────

/// The level that a text names: `error`, then `warning`/`warn`, `info`,
/// `hint`, `note` (as info), looked for anywhere in the lower-cased text.
pub open spec fn level_in(text: Seq<char>) -> Option<IssueLevel> {
    let l = lowercase(text);
    if contains(l, "error"@) {
        Some(IssueLevel::Error)
    } else if contains(l, "warning"@) || contains(l, "warn"@) {
        Some(IssueLevel::Warning)
    } else if contains(l, "info"@) {
        Some(IssueLevel::Info)
    } else if contains(l, "hint"@) {
        Some(IssueLevel::Hint)
    } else if contains(l, "note"@) {
        Some(IssueLevel::Info)
    } else {
        None
    }
}

/// The bracketed code of a text: from its first `[` to its first `]`, when
/// the `]` comes later and only ASCII letters and digits (or nothing) stand
/// between.
pub open spec fn code_in(t: Seq<char>) -> Option<Seq<char>> {
    let s = index_of(t, '[');
    let e = index_of(t, ']');
    if s < t.len() && e < t.len() && s < e
        && forall|k: int| s < k < e ==> is_ascii_alnum(#[trigger] t[k]) {
        Some(t.subrange(s as int, (e + 1) as int))
    } else {
        None
    }
}

/// `s` split at `c` into at most `n` pieces (`str::splitn`), `n >= 1`.
pub open spec fn split_n(s: Seq<char>, c: char, n: nat) -> Seq<Seq<char>>
    decreases n,
{
    let i = index_of(s, c);
    if n <= 1 || i >= s.len() {
        seq![s]
    } else {
        seq![s.take(i as int)] + split_n(s.skip((i + 1) as int), c, (n - 1) as nat)
    }
}

/// `s` split at every `c` (`str::split`).
pub open spec fn split_all(s: Seq<char>, c: char) -> Seq<Seq<char>>
    decreases s.len(),
{
    let i = index_of(s, c);
    if i >= s.len() {
        seq![s]
    } else {
        seq![s.take(i as int)] + split_all(s.skip((i + 1) as int), c)
    }
}

/// What `parse_standard_format` reads from `file:line[:col]: level: message`:
/// the level, the message, the file, the line, the column and the code.
pub open spec fn standard_issue(line: Seq<char>) -> Option<(IssueLevel, Seq<char>, Seq<char>, u32, Option<u32>, Option<Seq<char>>)> {
    let t = trim(line);
    let parts = split_n(t, ':', 5);
    if t.len() == 0 || parts.len() < 4 || !parses_as_u32(trim(parts[1])) {
        None
    } else if parts.len() >= 5 && !parses_as_u32(trim(parts[2])) {
        None
    } else {
        let line_num = digits_value(unsigned_digits(trim(parts[1]))) as u32;
        let col = if parts.len() >= 5 { Some(digits_value(unsigned_digits(trim(parts[2]))) as u32) } else { None };
        let level_str = if parts.len() >= 5 { trim(parts[3]) } else { trim(parts[2]) };
        let message = if parts.len() >= 5 { trim(parts[4]) } else { trim(parts[3]) };
        match level_in(level_str) {
            None => None,
            Some(level) => Some((level, message, trim(parts[0]), line_num, col, code_in(message))),
        }
    }
}

proof fn lemma_index_after(a: Seq<char>, rest: Seq<char>, c: char)
    requires
        !has_char(a, c),
    ensures
        index_of(a + seq![c] + rest, c) == a.len(),
    decreases a.len(),
{
    let s = a + seq![c] + rest;
    if a.len() > 0 {
        assert(a[0] != c);
        assert(!has_char(a.drop_first(), c)) by {
            if has_char(a.drop_first(), c) {
                let j = choose|j: int| 0 <= j < a.drop_first().len() && a.drop_first()[j] == c;
                assert(a[j + 1] == c);
            }
        }
        lemma_index_after(a.drop_first(), rest, c);
        assert(s.drop_first() =~= a.drop_first() + seq![c] + rest);
    }
}

proof fn lemma_split_step(a: Seq<char>, rest: Seq<char>, n: nat)
    requires
        !has_char(a, ':'),
        n > 1,
    ensures
        split_n(a + seq![':'] + rest, ':', n) == seq![a] + split_n(rest, ':', (n - 1) as nat),
{
    let s = a + seq![':'] + rest;
    lemma_index_after(a, rest, ':');
    assert(s.take(a.len() as int) =~= a);
    assert(s.skip(a.len() as int + 1) =~= rest);
}

proof fn lemma_digits_text(n: u32)
    ensures
        !has_char(decimal(n as nat), ':'),
        trim(decimal(n as nat)) == decimal(n as nat),
        parses_as_u32(decimal(n as nat)),
        digits_value(unsigned_digits(decimal(n as nat))) == n,
{
    let t = decimal(n as nat);
    crate::text::lemma_decimal_digits(n as nat);
    assert(crate::text::is_digit(t[0]));
    assert(unsigned_digits(t) == t);
    assert(!has_char(t, ':')) by {
        if has_char(t, ':') {
            let j = choose|j: int| 0 <= j < t.len() && t[j] == ':';
            assert(crate::text::is_digit(t[j]));
        }
    }
    assert(!crate::text::is_ws(t[0]));
    assert(!crate::text::is_ws(t.last())) by {
        assert(crate::text::is_digit(t[t.len() - 1]));
    }
    assert(crate::text::trim_start(t) == t);
    assert(crate::text::trim_end(t) == t);
}

/// A line `file:L:C:level:message` is read at line `L`, column `C`: for a
/// file name without colons and not starting with whitespace, numbers `L`
/// and `C` written in decimal, a level text without colons that names a
/// level, and a message that does not end in whitespace, the parsed issue
/// has that level, line `L`, column `C`, the trimmed file name and the
/// trimmed message.
pub proof fn lemma_standard_line_and_column(f: Seq<char>, l: u32, col: u32, lv: Seq<char>, m: Seq<char>)
    requires
        f.len() > 0,
        !crate::text::is_ws(f[0]),
        !has_char(f, ':'),
        !has_char(lv, ':'),
        level_in(trim(lv)) is Some,
        m.len() > 0,
        !crate::text::is_ws(m.last()),
    ensures
        ({
            let line = f + seq![':'] + crate::text::decimal(l as nat) + seq![':'] + crate::text::decimal(col as nat)
                + seq![':'] + lv + seq![':'] + m;
            let d = standard_issue(line)->0;
            &&& standard_issue(line) is Some
            &&& d.0 == level_in(trim(lv))->0
            &&& d.1 == trim(m)
            &&& d.2 == trim(f)
            &&& d.3 == l
            &&& d.4 == Some(col)
        }),
{
    let dl = crate::text::decimal(l as nat);
    let dc = crate::text::decimal(col as nat);
    let line = f + seq![':'] + dl + seq![':'] + dc + seq![':'] + lv + seq![':'] + m;
    lemma_digits_text(l);
    lemma_digits_text(col);
    assert(line[0] == f[0]);
    assert(line.last() == m.last());
    assert(crate::text::trim_start(line) == line);
    assert(crate::text::trim_end(line) == line);
    assert(trim(line) == line);
    let r3 = lv + seq![':'] + m;
    let r2 = dc + seq![':'] + r3;
    let r1 = dl + seq![':'] + r2;
    assert(line =~= f + seq![':'] + r1);
    assert(r1 =~= dl + seq![':'] + r2);
    lemma_split_step(f, r1, 5);
    lemma_split_step(dl, r2, 4);
    lemma_split_step(dc, r3, 3);
    lemma_split_step(lv, m, 2);
    assert(split_n(m, ':', 1) == seq![m]);
    let parts = split_n(line, ':', 5);
    assert(parts =~= seq![f, dl, dc, lv, m]);
}

/// A line `file:L:level:message` without a column is read at line `L`,
/// with no column: for a file name without colons and not starting with
/// whitespace, a number `L` in decimal, a level text without colons that
/// names a level, and a message without colons that does not end in
/// whitespace.
pub proof fn lemma_standard_line_without_column(f: Seq<char>, l: u32, lv: Seq<char>, m: Seq<char>)
    requires
        f.len() > 0,
        !crate::text::is_ws(f[0]),
        !has_char(f, ':'),
        !has_char(lv, ':'),
        level_in(trim(lv)) is Some,
        m.len() > 0,
        !has_char(m, ':'),
        !crate::text::is_ws(m.last()),
    ensures
        ({
            let line = f + seq![':'] + crate::text::decimal(l as nat) + seq![':'] + lv + seq![':'] + m;
            let d = standard_issue(line)->0;
            &&& standard_issue(line) is Some
            &&& d.0 == level_in(trim(lv))->0
            &&& d.1 == trim(m)
            &&& d.2 == trim(f)
            &&& d.3 == l
            &&& d.4 is None
        }),
{
    let dl = crate::text::decimal(l as nat);
    let line = f + seq![':'] + dl + seq![':'] + lv + seq![':'] + m;
    lemma_digits_text(l);
    assert(line[0] == f[0]);
    assert(line.last() == m.last());
    assert(crate::text::trim_start(line) == line);
    assert(crate::text::trim_end(line) == line);
    let r2 = lv + seq![':'] + m;
    let r1 = dl + seq![':'] + r2;
    assert(line =~= f + seq![':'] + r1);
    lemma_split_step(f, r1, 5);
    lemma_split_step(dl, r2, 4);
    lemma_split_step(lv, m, 3);
    lemma_index_of_bounds(m, ':');
    assert(split_n(m, ':', 2) == seq![m]);
    let parts = split_n(line, ':', 5);
    assert(parts =~= seq![f, dl, lv, m]);
}

/// Whether an issue is the one described by `d`.
pub open spec fn issue_is(i: Issue, d: (IssueLevel, Seq<char>, Seq<char>, u32, Option<u32>, Option<Seq<char>>)) -> bool {
    &&& i.level == d.0
    &&& i.message@ == d.1
    &&& i.location.file_path@ == d.2
    &&& i.location.line_number == Some(d.3)
    &&& i.location.column_number == d.4
    &&& crate::analysis::types::ostr(i.code) == d.5
    &&& i.context is None
    &&& i.package is None
}

/// The code that a parenthesised diagnostic names before its message: the
/// last word, kept when bracketed, bracketed when it is alphanumeric and
/// more than one byte long.
pub open spec fn paren_code(before_colon: Seq<char>) -> Option<Seq<char>> {
    code_from_word(last_word(before_colon))
}

/// The last word of a text, or the text itself when it has no words.
pub open spec fn last_word(text: Seq<char>) -> Seq<char> {
    let ws = words(text);
    if ws.len() > 0 { ws.last() } else { text }
}

/// A code word kept when bracketed, bracketed when it is alphanumeric and
/// more than one byte long.
pub open spec fn code_from_word(code: Seq<char>) -> Option<Seq<char>> {
    if code.len() > 0 && code[0] == '[' && code.last() == ']' {
        Some(code)
    } else if (forall|k: int| 0 <= k < code.len() ==> unicode_alnum(#[trigger] code[k])) && utf8_len(code) > 1 {
        Some("["@ + code + "]"@)
    } else {
        None
    }
}

/// What `parse_parentheses_format` reads from `file(line,col): level: message`.
pub open spec fn paren_issue(line: Seq<char>) -> Option<(IssueLevel, Seq<char>, Seq<char>, u32, Option<u32>, Option<Seq<char>>)> {
    let t = trim(line);
    let o = index_of(t, '(');
    let c = index_of(t, ')');
    if o >= t.len() || c >= t.len() || c <= o || c + 1 >= t.len() {
        None
    } else {
        let file = trim(t.take(o as int));
        let loc = split_all(t.subrange((o + 1) as int, c as int), ',');
        let after = trim(t.skip((c + 1) as int));
        if loc.len() != 2 || !parses_as_u32(trim(loc[0])) || !parses_as_u32(trim(loc[1])) {
            None
        } else if after.len() == 0 || after[0] != ':' {
            None
        } else {
            let rest = trim(after.drop_first());
            let ln = digits_value(unsigned_digits(trim(loc[0]))) as u32;
            let col = digits_value(unsigned_digits(trim(loc[1]))) as u32;
            match level_in(rest) {
                None => None,
                Some(level) => {
                    let k = index_of(rest, ':');
                    if k < rest.len() && k + 1 >= rest.len() {
                        None
                    } else if k < rest.len() {
                        let code = paren_code(trim(rest.take(k as int)));
                        Some((level, trim(rest.skip((k + 1) as int)), file, ln, Some(col), code))
                    } else {
                        Some((level, rest, file, ln, Some(col), None))
                    }
                },
            }
        }
    }
}

/// The message of a text without a trailing rule name: when it has more
/// than one word and its last word holds `/` or `-`, the other words joined
/// by spaces; else the text unchanged.
pub open spec fn message_of(text: Seq<char>) -> Seq<char> {
    let ws = words(text);
    if ws.len() > 1 && (contains(ws.last(), "/"@) || contains(ws.last(), "-"@)) {
        join(ws.drop_last(), " "@)
    } else {
        text
    }
}

/// Splits `s` at `c` into at most `n` pieces.
fn split_n_exec(s: &str, c: char, n: usize) -> (r: Vec<String>)
    requires
        n >= 1,
    ensures
        views(r@) == split_n(s@, c, n as nat),
    decreases n,
{
    let v = chars_of(s);
    let i = crate::text::find_char(&v, 0, v.len(), c);
    assert(v@.subrange(0, v@.len() as int) =~= v@);
    proof { lemma_index_of_bounds(s@, c); }
    let mut out: Vec<String> = Vec::new();
    if n <= 1 || i >= v.len() {
        out.push(String::from_str(s));
        assert(views(out@) =~= seq![s@]);
        return out;
    }
    let head = string_from(&v, 0, i);
    let tail = string_from(&v, i + 1, v.len());
    assert(tail@ =~= s@.skip(i + 1));
    assert(head@ =~= s@.take(i as int));
    let rest = split_n_exec(tail.as_str(), c, n - 1);
    out.push(head);
    let mut k: usize = 0;
    let ghost o0 = views(out@);
    while k < rest.len()
        invariant
            k <= rest@.len(),
            views(out@) == o0 + views(rest@).take(k as int),
        decreases rest@.len() - k,
    {
        let ghost before = out@;
        let x = rest[k].clone();
        out.push(x);
        assert(views(out@) =~= views(before).push(x@));
        assert(views(rest@).take(k + 1) =~= views(rest@).take(k as int).push(rest@[k as int]@));
        k += 1;
    }
    assert(views(rest@).take(rest@.len() as int) =~= views(rest@));
    assert(views(out@) =~= seq![s@.take(i as int)] + split_n(s@.skip(i + 1), c, (n - 1) as nat));
    out
}

/// Splits `s` at every `c` (`str::split`).
pub fn split_all_exec(s: &str, c: char) -> (r: Vec<String>)
    ensures
        views(r@) == split_all(s@, c),
    decreases s@.len(),
{
    let v = chars_of(s);
    let i = crate::text::find_char(&v, 0, v.len(), c);
    assert(v@.subrange(0, v@.len() as int) =~= v@);
    proof { lemma_index_of_bounds(s@, c); }
    let mut out: Vec<String> = Vec::new();
    if i >= v.len() {
        out.push(String::from_str(s));
        assert(views(out@) =~= seq![s@]);
        return out;
    }
    let head = string_from(&v, 0, i);
    let tail = string_from(&v, i + 1, v.len());
    assert(tail@ =~= s@.skip(i + 1));
    assert(head@ =~= s@.take(i as int));
    let rest = split_all_exec(tail.as_str(), c);
    out.push(head);
    let mut k: usize = 0;
    let ghost o0 = views(out@);
    while k < rest.len()
        invariant
            k <= rest@.len(),
            views(out@) == o0 + views(rest@).take(k as int),
        decreases rest@.len() - k,
    {
        let ghost before = out@;
        let x = rest[k].clone();
        out.push(x);
        assert(views(out@) =~= views(before).push(x@));
        assert(views(rest@).take(k + 1) =~= views(rest@).take(k as int).push(rest@[k as int]@));
        k += 1;
    }
    assert(views(rest@).take(rest@.len() as int) =~= views(rest@));
    assert(views(out@) =~= seq![s@.take(i as int)] + split_all(s@.skip(i + 1), c));
    out
}

/// Generic helpers shared by the stack parsers.
#[derive(Debug, Clone, Copy)]
pub struct BaseParser;

impl BaseParser {
    pub fn new() -> (r: BaseParser) {
        BaseParser
    }

    /// The level that a text names, looked for in its lower-cased form:
    /// `error`, then `warning` or `warn`, `info`, `hint`, and `note` (info).
    pub fn detect_level(&self, text: &str) -> (r: Option<IssueLevel>)
        ensures
            r == level_in(text@),
    {
        let lower = to_lowercase(text);
        let l = lower.as_str();
        if str_contains(l, "error") {
            Some(IssueLevel::Error)
        } else if str_contains(l, "warning") || str_contains(l, "warn") {
            Some(IssueLevel::Warning)
        } else if str_contains(l, "info") {
            Some(IssueLevel::Info)
        } else if str_contains(l, "hint") {
            Some(IssueLevel::Hint)
        } else if str_contains(l, "note") {
            Some(IssueLevel::Info)
        } else {
            None
        }
    }

    /// The bracketed error code of a text (`[E0308]`, `[TS1234]`): from the
    /// first `[` to the first `]`, when only ASCII letters and digits (or nothing) lie
    /// between; brackets included.
    pub fn extract_error_code(&self, text: &str) -> (r: Option<String>)
        ensures
            crate::analysis::types::ostr(r) == code_in(text@),
    {
        let v = chars_of(text);
        let s = crate::text::find_char(&v, 0, v.len(), '[');
        let e = crate::text::find_char(&v, 0, v.len(), ']');
        assert(v@.subrange(0, v@.len() as int) =~= v@);
        proof {
            lemma_index_of_bounds(text@, '[');
            lemma_index_of_bounds(text@, ']');
        }
        if s < v.len() && e < v.len() && s < e {
            let mut k = s + 1;
            while k < e
                invariant
                    s < k <= e < v@.len(),
                    v@ == text@,
                    s == index_of(text@, '['),
                    e == index_of(text@, ']'),
                    forall|j: int| s < j < k ==> is_ascii_alnum(#[trigger] v@[j]),
                decreases e - k,
            {
                let c = v[k];
                if !(('0' <= c && c <= '9') || ('a' <= c && c <= 'z') || ('A' <= c && c <= 'Z')) {
                    assert(!is_ascii_alnum(text@[k as int]));
                    return None;
                }
                k += 1;
            }
            Some(string_from(&v, s, e + 1))
        } else {
            None
        }
    }

    /// Parses `file:line:col: level: message` (or without the column): the
    /// line is trimmed and split at the first four colons; the line and column
    /// must be numbers, the level word must name a level, and the message's
    /// bracketed code becomes the issue's code.
    pub fn parse_standard_format(&self, line: &str) -> (r: Option<Issue>)
        ensures
            match standard_issue(line@) {
                Some(d) => r is Some && issue_is(r->0, d),
                None => r is None,
            },
    {
        let t = trim_str(line);
        if t.as_str().unicode_len() == 0 {
            return None;
        }
        let parts = split_n_exec(t.as_str(), ':', 5);
        if parts.len() < 4 {
            return None;
        }
        let file = trim_str(parts[0].as_str());
        let ln = match parse_u32(trim_str(parts[1].as_str()).as_str()) {
            Some(n) => n,
            None => {
                return None;
            },
        };
        let (col, level_str, message) = if parts.len() >= 5 {
            let c = match parse_u32(trim_str(parts[2].as_str()).as_str()) {
                Some(n) => n,
                None => {
                    return None;
                },
            };
            (Some(c), trim_str(parts[3].as_str()), trim_str(parts[4].as_str()))
        } else {
            (None, trim_str(parts[2].as_str()), trim_str(parts[3].as_str()))
        };
        let level = match self.detect_level(level_str.as_str()) {
            Some(l) => l,
            None => {
                return None;
            },
        };
        let location = match col {
            Some(c) => Location::new(file.as_str()).with_line(ln).with_column(c),
            None => Location::new(file.as_str()).with_line(ln),
        };
        let mut issue = Issue::new(level, message.as_str(), location);
        match self.extract_error_code(message.as_str()) {
            Some(code) => {
                issue = issue.with_code(code.as_str());
            },
            None => {},
        }
        Some(issue)
    }

    /// Parses `file(line,col): level: message` (MSBuild and TypeScript
    /// style). A word before a colon in the message part becomes the code
    /// (bracketed unless it already is).
    pub fn parse_parentheses_format(&self, line: &str) -> (r: Option<Issue>)
        ensures
            match paren_issue(line@) {
                Some(d) => r is Some && issue_is(r->0, d),
                None => r is None,
            },
    {
        let t = trim_str(line);
        let v = chars_of(t.as_str());
        let o = crate::text::find_char(&v, 0, v.len(), '(');
        let c = crate::text::find_char(&v, 0, v.len(), ')');
        assert(v@.subrange(0, v@.len() as int) =~= v@);
        proof {
            lemma_index_of_bounds(t@, '(');
            lemma_index_of_bounds(t@, ')');
        }
        if o >= v.len() || c >= v.len() || c <= o || c + 1 >= v.len() {
            return None;
        }
        let head = string_from(&v, 0, o);
        let file = trim_str(head.as_str());
        let loc_text = string_from(&v, o + 1, c);
        let tail = string_from(&v, c + 1, v.len());
        let after = trim_str(tail.as_str());
        assert(head@ =~= t@.take(o as int));
        assert(tail@ =~= t@.skip(c + 1));
        let loc = split_all_exec(loc_text.as_str(), ',');
        if loc.len() != 2 {
            return None;
        }
        let ln = match parse_u32(trim_str(loc[0].as_str()).as_str()) {
            Some(n) => n,
            None => {
                return None;
            },
        };
        let col = match parse_u32(trim_str(loc[1].as_str()).as_str()) {
            Some(n) => n,
            None => {
                return None;
            },
        };
        let av = chars_of(after.as_str());
        if av.len() == 0 || av[0] != ':' {
            return None;
        }
        let after_colon = string_from(&av, 1, av.len());
        let rest = trim_str(after_colon.as_str());
        assert(after_colon@ =~= after@.drop_first());
        let level = match self.detect_level(rest.as_str()) {
            Some(l) => l,
            None => {
                return None;
            },
        };
        let rv = chars_of(rest.as_str());
        let k = crate::text::find_char(&rv, 0, rv.len(), ':');
        assert(rv@.subrange(0, rv@.len() as int) =~= rv@);
        proof { lemma_index_of_bounds(rest@, ':'); }
        let (code, message) = if k < rv.len() {
            if k + 1 >= rv.len() {
                return None;
            }
            let bc = string_from(&rv, 0, k);
            let mc = string_from(&rv, k + 1, rv.len());
            let before_colon = trim_str(bc.as_str());
            let msg = trim_str(mc.as_str());
            assert(bc@ =~= rest@.take(k as int));
            assert(mc@ =~= rest@.skip(k + 1));
            (self.code_word(before_colon.as_str()), msg)
        } else {
            (None, rest)
        };
        let location = Location::new(file.as_str()).with_line(ln).with_column(col);
        let mut issue = Issue::new(level, message.as_str(), location);
        match code {
            Some(cd) => {
                issue = issue.with_code(cd.as_str());
            },
            None => {},
        }
        Some(issue)
    }

    /// The code named by the text before a message's colon.
    fn code_word(&self, before_colon: &str) -> (r: Option<String>)
        ensures
            crate::analysis::types::ostr(r) == paren_code(before_colon@),
    {
        let ws = words_of(before_colon);
        let code: String = if ws.len() > 0 { ws[ws.len() - 1].clone() } else { String::from_str(before_colon) };
        assert(ws.len() > 0 ==> code@ == views(ws@).last());
        let cv = chars_of(code.as_str());
        if cv.len() > 0 && cv[0] == '[' && cv[cv.len() - 1] == ']' {
            return Some(code);
        }
        let mut all = true;
        let mut j: usize = 0;
        while j < cv.len()
            invariant
                j <= cv@.len(),
                all == forall|m: int| 0 <= m < j ==> unicode_alnum(#[trigger] cv@[m]),
            decreases cv@.len() - j,
        {
            if !is_alphanumeric(cv[j]) {
                all = false;
            }
            j += 1;
        }
        proof { lemma_utf8_len_bounds(cv@); }
        let long = cv.len() >= 2 || (cv.len() == 1 && (cv[0] as u32) >= 0x80);
        let ghost cd = last_word(before_colon@);
        assert(cd == code@);
        assert(long == (utf8_len(cd) > 1));
        assert(all == forall|m: int| 0 <= m < cd.len() ==> unicode_alnum(#[trigger] cd[m]));
        assert(!(cd.len() > 0 && cd[0] == '[' && cd.last() == ']'));
        if all && long {
            let mut s = String::from_str("[");
            s.append(code.as_str());
            s.append("]");
            assert(s@ == "["@ + cd + "]"@);
            assert(paren_code(before_colon@) == Some("["@ + cd + "]"@));
            Some(s)
        } else {
            assert(paren_code(before_colon@) is None);
            None
        }
    }

    /// A text without a trailing rule name (a last word holding `/` or `-`,
    /// when there are several words); otherwise the text itself.
    pub fn extract_message(&self, text: &str) -> (r: String)
        ensures
            r@ == message_of(text@),
    {
        let ws = words_of(text);
        if ws.len() > 1 {
            let last = ws[ws.len() - 1].as_str();
            assert(last@ == views(ws@).last());
            if str_contains(last, "/") || str_contains(last, "-") {
                let mut head: Vec<String> = Vec::new();
                let mut i: usize = 0;
                while i < ws.len() - 1
                    invariant
                        1 < ws@.len(),
                        i <= ws@.len() - 1,
                        views(head@) == views(ws@).take(i as int),
                    decreases ws@.len() - 1 - i,
                {
                    let ghost before = head@;
                    let x = ws[i].clone();
                    head.push(x);
                    assert(views(head@) =~= views(before).push(x@));
                    assert(views(head@) =~= views(ws@).take(i + 1));
                    i += 1;
                }
                assert(views(ws@).take(ws@.len() - 1) =~= views(ws@).drop_last());
                return join_strings(&head, " ");
            }
        }
        String::from_str(text)
    }
}

proof fn lemma_utf8_len_bounds(s: Seq<char>)
    ensures
        utf8_len(s) >= s.len(),
        s.len() == 1 ==> (utf8_len(s) > 1 <==> (s[0] as u32) >= 0x80),
    decreases s.len(),
{
    if s.len() > 0 {
        lemma_utf8_len_bounds(s.drop_last());
        if s.len() == 1 {
            assert(s.drop_last().len() == 0);
        }
    }
}

impl Default for BaseParser {
    fn default() -> (r: BaseParser) {
        BaseParser
    }
}

// ───────────────────────────── multi-line blocks ─────────────────────────────

/// The blocks of a line list: a block starts at a start line met outside a
/// block and takes the following lines up to (not including) an end line,
/// which closes it and is consumed; a block still open at the end is kept.
/// `start[k]` and `end[k]` tell whether line `k` is a start or an end line.
pub open spec fn blocks_from(lines: Seq<Seq<char>>, start: Seq<bool>, end: Seq<bool>, k: int, open: Option<Seq<Seq<char>>>) -> Seq<Seq<Seq<char>>>
    decreases lines.len() - k,
{
    if k >= lines.len() {
        match open {
            Some(b) => seq![b],
            None => seq![],
        }
    } else {
        match open {
            None => if start[k] {
                blocks_from(lines, start, end, k + 1, Some(seq![lines[k]]))
            } else {
                blocks_from(lines, start, end, k + 1, None)
            },
            Some(b) => if end[k] {
                seq![b] + blocks_from(lines, start, end, k + 1, None)
            } else {
                blocks_from(lines, start, end, k + 1, Some(b.push(lines[k])))
            },
        }
    }
}

/// Groups lines into blocks from their start and end flags (see `blocks_from`).
pub fn group_blocks(lines: &Vec<String>, start: &Vec<bool>, end: &Vec<bool>) -> (r: Vec<Vec<String>>)
    requires
        start@.len() == lines@.len(),
        end@.len() == lines@.len(),
    ensures
        r@.map_values(|b: Vec<String>| views(b@)) == blocks_from(views(lines@), start@, end@, 0, None),
{
    let ghost ls = views(lines@);
    let mut out: Vec<Vec<String>> = Vec::new();
    let mut block: Vec<String> = Vec::new();
    let mut in_block = false;
    let mut k: usize = 0;
    while k < lines.len()
        invariant
            k <= lines@.len(),
            start@.len() == lines@.len(),
            end@.len() == lines@.len(),
            ls == views(lines@),
            out@.map_values(|b: Vec<String>| views(b@)) + blocks_from(ls, start@, end@, k as int, if in_block { Some(views(block@)) } else { None })
                == blocks_from(ls, start@, end@, 0, None),
        decreases lines@.len() - k,
    {
        let ghost before_out = out@;
        let ghost before_block = block@;
        if !in_block {
            if start[k] {
                in_block = true;
                block = Vec::new();
                block.push(lines[k].clone());
                assert(views(block@) =~= seq![ls[k as int]]);
            }
        } else if end[k] {
            let done = block;
            block = Vec::new();
            in_block = false;
            out.push(done);
            assert(out@.map_values(|b: Vec<String>| views(b@)) =~= before_out.map_values(|b: Vec<String>| views(b@)).push(views(done@)));
        } else {
            let x = lines[k].clone();
            block.push(x);
            assert(views(block@) =~= views(before_block).push(ls[k as int]));
        }
        k += 1;
    }
    if in_block {
        let ghost before_out = out@;
        let done = block;
        out.push(done);
        assert(out@.map_values(|b: Vec<String>| views(b@)) =~= before_out.map_values(|b: Vec<String>| views(b@)).push(views(done@)));
    }
    assert(out@.map_values(|b: Vec<String>| views(b@)) =~= blocks_from(ls, start@, end@, 0, None));
    out
}

/// A collector of multi-line diagnostics (cargo, gcc, clang, MSBuild print
/// one error over several lines). Implementations tell where blocks start
/// and end and what issues a block holds.
pub trait BlockCollector: Sized {
    /// Whether this collector takes `line` to start a block. A collector
    /// verified against this trait defines it as its `is_block_start` does.
    /// The default (no line) exists only so that collectors written in
    /// unverified code compile; for them the contracts are assumed, not
    /// checked.
    open spec fn starts_block(&self, line: Seq<char>) -> bool {
        false
    }

    /// The issues this collector reads from a block of lines. A collector
    /// verified against this trait defines it as its `extract_issues` does;
    /// the default (none) stands only for collectors in unverified code.
    open spec fn block_issues(&self, block: Seq<Seq<char>>) -> Seq<Issue> {
        Seq::empty()
    }

    /// Whether a line starts a block.
    fn is_block_start(&self, line: &str) -> (r: bool)
        ensures
            r == self.starts_block(line@),
    ;

    /// Whether this collector takes `line` to end a block: by default, a
    /// line that is blank once trimmed (see `is_blank_line`).
    open spec fn ends_block(&self, line: Seq<char>) -> bool {
        trim(line).len() == 0
    }

    /// Whether a line ends the current block. A collector that ends blocks
    /// at blank lines answers with `is_blank_line`.
    fn is_block_end(&self, line: &str) -> (r: bool)
        ensures
            r == self.ends_block(line@),
    ;

    /// The issues of a collected block.
    fn extract_issues(&self, block: &Vec<String>) -> (r: Vec<Issue>)
        ensures
            r@ == self.block_issues(views(block@)),
    ;

    /// An iterator over the blocks of `lines`; lines before the first block
    /// start are skipped.
    fn collect_blocks<'a>(&'a self, lines: &'a Vec<String>) -> (r: BlockIter<'a, Self>)
        ensures
            r.position() == 0,
            r.resume() == 0,
            r.walked() == lines@,
            r.owner() == *self,
    {
        BlockIter { collector: self, lines, index: 0, in_block: false }
    }

    /// The issues of every block of the output, block after block. The
    /// lines are grouped as `group_blocks` does, with each line's start and
    /// end flags asked of the collector.
    fn collect_all_blocks(&self, output: &str) -> (r: Vec<Issue>)
        ensures
            r@ == issues_of_blocks(|b: Seq<Seq<char>>| self.block_issues(b),
                blocks_from(lines(output@), start_flags(|l: Seq<char>| self.starts_block(l), lines(output@)),
                    start_flags(|l: Seq<char>| self.ends_block(l), lines(output@)), 0, None)),
    {
        let lines = lines_of(output);
        let ghost ls = views(lines@);
        let mut start: Vec<bool> = Vec::new();
        let mut end: Vec<bool> = Vec::new();
        let mut k: usize = 0;
        while k < lines.len()
            invariant
                k <= lines@.len(),
                ls == views(lines@),
                start@.len() == k,
                end@.len() == k,
                forall|j: int| 0 <= j < k ==> #[trigger] start@[j] == self.starts_block(ls[j]),
                forall|j: int| 0 <= j < k ==> #[trigger] end@[j] == self.ends_block(ls[j]),
            decreases lines@.len() - k,
        {
            start.push(self.is_block_start(lines[k].as_str()));
            end.push(self.is_block_end(lines[k].as_str()));
            k += 1;
        }
        assert(start@ =~= start_flags(|l: Seq<char>| self.starts_block(l), ls));
        assert(end@ =~= start_flags(|l: Seq<char>| self.ends_block(l), ls));
        let blocks = group_blocks(&lines, &start, &end);
        let ghost bv = blocks@.map_values(|x: Vec<String>| views(x@));
        let mut issues: Vec<Issue> = Vec::new();
        let mut b: usize = 0;
        assert(bv.take(0) =~= Seq::<Seq<Seq<char>>>::empty());
        while b < blocks.len()
            invariant
                b <= blocks@.len(),
                bv == blocks@.map_values(|x: Vec<String>| views(x@)),
                issues@ == issues_of_blocks(|x: Seq<Seq<char>>| self.block_issues(x), bv.take(b as int)),
            decreases blocks@.len() - b,
        {
            let mut found = self.extract_issues(&blocks[b]);
            proof {
                assert(bv.take(b + 1).drop_last() =~= bv.take(b as int));
                assert(bv.take(b + 1).last() == bv[b as int]);
            }
            issues.append(&mut found);
            b += 1;
        }
        assert(bv.take(blocks@.len() as int) =~= bv);
        assert(end@.len() == ls.len());
        issues
    }
}

/// The flags that `starts` gives the lines (start or end flags).
pub open spec fn start_flags(starts: spec_fn(Seq<char>) -> bool, ls: Seq<Seq<char>>) -> Seq<bool> {
    Seq::new(ls.len(), |k: int| starts(ls[k]))
}

/// Whether a line is blank once trimmed: the usual end of a block.
pub fn is_blank_line(line: &str) -> (r: bool)
    ensures
        r == (trim(line@).len() == 0),
{
    let t = trim_str(line);
    t.as_str().unicode_len() == 0
}

/// The first line at or after `j` that ends a block (`ls.len()` when none does).
pub open spec fn first_end<C: BlockCollector>(c: C, ls: Seq<Seq<char>>, j: int) -> int
    decreases ls.len() - j,
{
    if j >= ls.len() {
        ls.len() as int
    } else if c.ends_block(ls[j]) {
        j
    } else {
        first_end(c, ls, j + 1)
    }
}

proof fn lemma_first_end<C: BlockCollector>(c: C, ls: Seq<Seq<char>>, a: int, b: int)
    requires
        0 <= a <= b <= ls.len(),
        forall|j: int| a <= j < b ==> !c.ends_block(#[trigger] ls[j]),
        b == ls.len() || c.ends_block(ls[b]),
    ensures
        first_end(c, ls, a) == b,
    decreases b - a,
{
    if a < b {
        lemma_first_end(c, ls, a + 1, b);
    }
}

/// The issues that `issues` reads from the blocks, block after block.
pub open spec fn issues_of_blocks(issues: spec_fn(Seq<Seq<char>>) -> Seq<Issue>, blocks: Seq<Seq<Seq<char>>>) -> Seq<Issue>
    decreases blocks.len(),
{
    if blocks.len() == 0 {
        Seq::empty()
    } else {
        issues_of_blocks(issues, blocks.drop_last()) + issues(blocks.last())
    }
}

/// The first line at or after `i` that starts a block (`ls.len()` when none does).
pub open spec fn first_start<C: BlockCollector>(c: C, ls: Seq<Seq<char>>, i: int) -> int
    decreases ls.len() - i,
{
    if i >= ls.len() {
        ls.len() as int
    } else if c.starts_block(ls[i]) {
        i
    } else {
        first_start(c, ls, i + 1)
    }
}

/// `blocks` are the blocks met walking from line `i` up to position `j`:
/// each starts at the first start line left and runs up to (not including)
/// the next end line after it, or to the end.
pub open spec fn walk_to<C: BlockCollector>(c: C, ls: Seq<Seq<char>>, i: int, blocks: Seq<Seq<Seq<char>>>, j: int) -> bool
    decreases blocks.len(),
{
    if blocks.len() == 0 {
        i == j
    } else {
        let f = first_start(c, ls, i);
        let e = f + blocks[0].len();
        &&& f < ls.len()
        &&& blocks[0].len() >= 1
        &&& e <= ls.len()
        &&& blocks[0] == ls.subrange(f, e)
        &&& e == first_end(c, ls, f + 1)
        &&& walk_to(c, ls, e, blocks.drop_first(), j)
    }
}

/// `blocks` are all the blocks met walking from line `i` to the end.
pub open spec fn walk_from<C: BlockCollector>(c: C, ls: Seq<Seq<char>>, i: int, blocks: Seq<Seq<Seq<char>>>) -> bool
    decreases blocks.len(),
{
    let f = first_start(c, ls, i);
    if blocks.len() == 0 {
        f >= ls.len()
    } else {
        let e = f + blocks[0].len();
        &&& f < ls.len()
        &&& blocks[0].len() >= 1
        &&& e <= ls.len()
        &&& blocks[0] == ls.subrange(f, e)
        &&& e == first_end(c, ls, f + 1)
        &&& walk_from(c, ls, e, blocks.drop_first())
    }
}

proof fn lemma_first_start_bounds<C: BlockCollector>(c: C, ls: Seq<Seq<char>>, i: int)
    ensures
        first_start(c, ls, i) <= ls.len(),
        i <= ls.len() ==> i <= first_start(c, ls, i),
        first_start(c, ls, i) < ls.len() ==> c.starts_block(ls[first_start(c, ls, i)]),
    decreases ls.len() - i,
{
    if i < ls.len() && !c.starts_block(ls[i]) {
        lemma_first_start_bounds(c, ls, i + 1);
    }
}

proof fn lemma_walk_then<C: BlockCollector>(c: C, ls: Seq<Seq<char>>, i: int, a: Seq<Seq<Seq<char>>>, j: int, x: Seq<Seq<Seq<char>>>)
    requires
        walk_to(c, ls, i, a, j),
        walk_from(c, ls, j, x),
    ensures
        walk_from(c, ls, i, a + x),
    decreases a.len(),
{
    if a.len() > 0 {
        let f = first_start(c, ls, i);
        let e = f + a[0].len();
        lemma_walk_then(c, ls, e, a.drop_first(), j, x);
        assert((a + x).drop_first() =~= a.drop_first() + x);
        assert((a + x)[0] == a[0]);
    } else {
        assert(a + x =~= x);
    }
}

proof fn lemma_walk_push<C: BlockCollector>(c: C, ls: Seq<Seq<char>>, i: int, a: Seq<Seq<Seq<char>>>, j: int, b: Seq<Seq<char>>)
    requires
        walk_to(c, ls, i, a, j),
        first_start(c, ls, j) < ls.len(),
        b.len() >= 1,
        first_start(c, ls, j) + b.len() <= ls.len(),
        b == ls.subrange(first_start(c, ls, j), first_start(c, ls, j) + b.len()),
        first_start(c, ls, j) + b.len() == first_end(c, ls, first_start(c, ls, j) + 1),
    ensures
        walk_to(c, ls, i, a.push(b), first_start(c, ls, j) + b.len()),
    decreases a.len(),
{
    if a.len() > 0 {
        let f = first_start(c, ls, i);
        let e = f + a[0].len();
        lemma_walk_push(c, ls, e, a.drop_first(), j, b);
        assert(a.push(b).drop_first() =~= a.drop_first().push(b));
        assert(a.push(b)[0] == a[0]);
    } else {
        let e = first_start(c, ls, j) + b.len();
        assert(a.push(b).drop_first() =~= Seq::<Seq<Seq<char>>>::empty());
        assert(walk_to(c, ls, e, a.push(b).drop_first(), e));
    }
}

/// Walks the blocks of a line list one at a time.
pub struct BlockIter<'a, C> {
    collector: &'a C,
    lines: &'a Vec<String>,
    index: usize,
    in_block: bool,
}

impl<'a, C> BlockIter<'a, C> {
    /// Index of the next line to look at.
    pub closed spec fn position(&self) -> nat {
        self.index as nat
    }

    /// The line at which the walk goes on: the next line, or the one after
    /// it when the walk stands inside a block.
    pub closed spec fn resume(&self) -> int {
        if self.in_block && self.index < self.lines@.len() {
            self.index + 1
        } else {
            self.index as int
        }
    }

    /// The lines walked.
    pub closed spec fn walked(&self) -> Seq<String> {
        self.lines@
    }

    /// The collector that tells the blocks.
    pub closed spec fn owner(&self) -> C {
        *self.collector
    }
}

impl<'a, C: BlockCollector> BlockIter<'a, C> {
    /// The next block: from the next start line up to (not including) the
    /// following end line or the end of the input. The end line itself is
    /// looked at again by the next call. `None` when no start line is left.
    pub fn next_block(&mut self) -> (r: Option<Vec<String>>)
        ensures
            final(self).walked() == old(self).walked(),
            final(self).owner() == old(self).owner(),
            old(self).position() <= final(self).position(),
            ({
                let ls = views(old(self).walked());
                let f = first_start(old(self).owner(), ls, old(self).resume());
                match r {
                    None => f >= ls.len()
                        && final(self).resume() >= ls.len()
                        && final(self).position() == (if old(self).position() >= ls.len() { old(self).position() } else { ls.len() }),
                    Some(b) => f < ls.len()
                        && f < final(self).position() <= ls.len()
                        && final(self).position() == first_end(old(self).owner(), ls, f + 1)
                        && views(b@) == ls.subrange(f, final(self).position() as int)
                        && final(self).resume() == final(self).position(),
                }
            }),
    {
        let ghost ls = views(self.lines@);
        let ghost c = *self.collector;
        let ghost f0 = first_start(c, ls, self.resume());
        proof {
            lemma_first_start_bounds(c, ls, self.resume());
        }
        while self.index < self.lines.len()
            invariant
                self.lines@ == old(self).lines@,
                *self.collector == *old(self).collector,
                ls == views(self.lines@),
                c == *self.collector,
                old(self).index <= self.index,
                old(self).index < self.lines@.len() ==> self.index <= self.lines@.len(),
                old(self).index >= self.lines@.len() ==> self.index == old(self).index && self.in_block == old(self).in_block,
                self.in_block ==> self.index == old(self).index && old(self).in_block,
                first_start(c, ls, self.resume()) == f0,
                f0 == first_start(c, ls, old(self).resume()),
            decreases self.lines@.len() - self.index,
        {
            let line = self.lines[self.index].as_str();
            if !self.in_block {
                if self.collector.is_block_start(line) {
                    let ghost f = self.index as int;
                    assert(first_start(c, ls, f) == f);
                    self.in_block = true;
                    let mut block: Vec<String> = Vec::new();
                    block.push(self.lines[self.index].clone());
                    self.index += 1;
                    assert(views(block@) =~= ls.subrange(f, self.index as int));
                    while self.index < self.lines.len()
                        invariant
                            self.lines@ == old(self).lines@,
                            *self.collector == *old(self).collector,
                            ls == views(self.lines@),
                            c == *self.collector,
                            f < self.index <= self.lines@.len(),
                            old(self).index <= f,
                            f0 == f,
                            f0 == first_start(c, ls, old(self).resume()),
                            views(block@) == ls.subrange(f, self.index as int),
                            forall|j: int| f + 1 <= j < self.index ==> !c.ends_block(#[trigger] ls[j]),
                        decreases self.lines@.len() - self.index,
                    {
                        let next_line = self.lines[self.index].as_str();
                        if self.collector.is_block_end(next_line) {
                            self.in_block = false;
                            proof {
                                lemma_first_end(c, ls, f + 1, self.index as int);
                            }
                            return Some(block);
                        }
                        let ghost prev = block@;
                        let ghost at = self.index as int;
                        let x = self.lines[self.index].clone();
                        assert(x@ == ls[at]);
                        block.push(x);
                        self.index += 1;
                        assert(block@ == prev.push(x));
                        assert(views(block@) =~= views(prev).push(ls[at]));
                        assert(ls.subrange(f, at + 1) =~= ls.subrange(f, at).push(ls[at]));
                    }
                    self.in_block = false;
                    proof {
                        lemma_first_end(c, ls, f + 1, self.index as int);
                    }
                    return Some(block);
                } else {
                    assert(first_start(c, ls, self.index as int) == first_start(c, ls, self.index + 1));
                }
            } else {
                self.in_block = false;
            }
            self.index += 1;
        }
        None
    }

    /// All blocks not walked yet, in order.
    pub fn collect_remaining(&mut self) -> (r: Vec<Vec<String>>)
        ensures
            final(self).walked() == old(self).walked(),
            final(self).owner() == old(self).owner(),
            final(self).position() >= final(self).walked().len(),
            walk_from(old(self).owner(), views(old(self).walked()), old(self).resume(),
                r@.map_values(|b: Vec<String>| views(b@))),
    {
        let ghost ls = views(self.lines@);
        let ghost c = *self.collector;
        let ghost s0 = self.resume();
        let mut blocks: Vec<Vec<String>> = Vec::new();
        assert(blocks@.map_values(|b: Vec<String>| views(b@)) =~= Seq::<Seq<Seq<char>>>::empty());
        while self.index < self.lines.len()
            invariant
                self.lines@ == old(self).lines@,
                *self.collector == *old(self).collector,
                ls == views(old(self).lines@),
                c == *old(self).collector,
                s0 == old(self).resume(),
                walk_to(c, ls, s0, blocks@.map_values(|b: Vec<String>| views(b@)), self.resume()),
            decreases self.lines@.len() - self.index,
        {
            let ghost before = blocks@.map_values(|b: Vec<String>| views(b@));
            let ghost here = self.resume();
            let nb = self.next_block();
            proof {
                lemma_first_start_bounds(c, ls, here);
            }
            match nb {
                Some(b) => {
                    proof {
                        assert(first_start(c, ls, here) < self.position() <= ls.len());
                        assert(views(b@) == ls.subrange(first_start(c, ls, here), self.position() as int));
                        lemma_walk_push(c, ls, s0, before, here, views(b@));
                    }
                    blocks.push(b);
                    assert(blocks@.map_values(|x: Vec<String>| views(x@)) =~= before.push(views(b@)));
                },
                None => {
                    proof {
                        assert(walk_from(c, ls, here, Seq::<Seq<Seq<char>>>::empty()));
                        lemma_walk_then(c, ls, s0, before, here, Seq::<Seq<Seq<char>>>::empty());
                        assert(before + Seq::<Seq<Seq<char>>>::empty() =~= before);
                    }
                    return blocks;
                },
            }
        }
        proof {
            let v = blocks@.map_values(|b: Vec<String>| views(b@));
            lemma_first_start_bounds(c, ls, self.resume());
            assert(walk_from(c, ls, self.resume(), Seq::<Seq<Seq<char>>>::empty()));
            lemma_walk_then(c, ls, s0, v, self.resume(), Seq::<Seq<Seq<char>>>::empty());
            assert(v + Seq::<Seq<Seq<char>>>::empty() =~= v);
        }
        blocks
    }
}

} // verus!
