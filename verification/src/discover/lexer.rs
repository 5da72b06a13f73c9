//! Compound command lexer for splitting raw shell commands on operators.
//!
//! Handles the shell operators `&&`, `||`, `;`, `|` and `&` while respecting
//! single-quoted strings, double-quoted strings and backslash escapes.

use vstd::prelude::*;
use crate::text::{chars_of, string_from, trim_range, trim};

verus! {

/// Length of the shell operator that starts at `i` (0 when none does).
/// `&&` and `||` are recognised before the one-character operators.
pub open spec fn op_len(s: Seq<char>, i: int) -> nat {
    if i + 1 < s.len() && s[i] == '&' && s[i + 1] == '&' {
        2
    } else if i + 1 < s.len() && s[i] == '|' && s[i + 1] == '|' {
        2
    } else if i < s.len() && (s[i] == ';' || s[i] == '|' || s[i] == '&') {
        1
    } else {
        0
    }
}

/// The segment `s[a..b]`, trimmed, as a list of zero or one segments
/// (empty segments are dropped).
pub open spec fn segment(s: Seq<char>, a: int, b: int) -> Seq<Seq<char>> {
    if a < b && trim(s.subrange(a, b)).len() > 0 {
        seq![trim(s.subrange(a, b))]
    } else {
        seq![]
    }
}

/// The segments of `s` from position `i` on, where the current segment began
/// at `start` and `sq` / `dq` tell whether a single / double quote is open.
pub open spec fn lex(s: Seq<char>, i: int, start: int, sq: bool, dq: bool) -> Seq<Seq<char>>
    decreases s.len() - i,
{
    if i >= s.len() {
        segment(s, start, s.len() as int)
    } else if sq {
        lex(s, i + 1, start, s[i] != '\'', false)
    } else if dq {
        if s[i] == '\\' && i + 1 < s.len() {
            lex(s, i + 2, start, false, true)
        } else {
            lex(s, i + 1, start, false, s[i] != '"')
        }
    } else if s[i] == '\'' {
        lex(s, i + 1, start, true, false)
    } else if s[i] == '"' {
        lex(s, i + 1, start, false, true)
    } else if s[i] == '\\' && i + 1 < s.len() {
        lex(s, i + 2, start, false, false)
    } else if op_len(s, i) > 0 {
        segment(s, start, i) + lex(s, i + op_len(s, i), i + op_len(s, i), false, false)
    } else {
        lex(s, i + 1, start, false, false)
    }
}

/// The segments of a whole command line.
pub open spec fn split_segments(s: Seq<char>) -> Seq<Seq<char>> {
    lex(s, 0, 0, false, false)
}

/// Whether `c` is plain text to the lexer: no quote, backslash or
/// operator character.
pub open spec fn plain_char(c: char) -> bool {
    c != '\'' && c != '"' && c != '\\' && c != '&' && c != '|' && c != ';'
}

/// Whether every character of `t` is plain text to the lexer.
pub open spec fn plain_text(t: Seq<char>) -> bool {
    forall|i: int| 0 <= i < t.len() ==> plain_char(#[trigger] t[i])
}

/// A text as a list of zero or one segments: trimmed, dropped when blank.
pub open spec fn piece(t: Seq<char>) -> Seq<Seq<char>> {
    if trim(t).len() > 0 { seq![trim(t)] } else { seq![] }
}

proof fn lemma_lex_plain(s: Seq<char>, i: int, j: int, start: int)
    requires
        0 <= i <= j <= s.len(),
        forall|p: int| i <= p < j ==> plain_char(#[trigger] s[p]),
    ensures
        lex(s, i, start, false, false) == lex(s, j, start, false, false),
    decreases j - i,
{
    if i < j {
        assert(plain_char(s[i]));
        assert(op_len(s, i) == 0);
        lemma_lex_plain(s, i + 1, j, start);
    }
}

proof fn lemma_lex_quoted_plain(s: Seq<char>, i: int, j: int, start: int)
    requires
        0 <= i <= j <= s.len(),
        forall|p: int| i <= p < j ==> (#[trigger] s[p]) != '"' && s[p] != '\\',
    ensures
        lex(s, i, start, false, true) == lex(s, j, start, false, true),
    decreases j - i,
{
    if i < j {
        assert(s[i] != '"' && s[i] != '\\');
        lemma_lex_quoted_plain(s, i + 1, j, start);
    }
}

/// Inside double quotes a backslash escapes the next character, so an
/// escaped quote does not end the quoted text, while the quote that does
/// end it leaves the operators after it in force: for texts `a`, `b`, `c`,
/// `d` without quotes, backslashes or operator characters, the line
/// `a"b\"c"&&d` splits into the quoted command and `d`.
pub proof fn lemma_escaped_quote_stays_quoted(a: Seq<char>, b: Seq<char>, c: Seq<char>, d: Seq<char>)
    requires
        plain_text(a),
        plain_text(b),
        plain_text(c),
        plain_text(d),
    ensures
        ({
            let x = a + seq!['"'] + b + seq!['\\', '"'] + c + seq!['"'];
            split_segments(x + seq!['&', '&'] + d) == piece(x) + piece(d)
        }),
{
    let x = a + seq!['"'] + b + seq!['\\', '"'] + c + seq!['"'];
    let s = x + seq!['&', '&'] + d;
    let la = a.len() as int;
    let bs = la + 1 + b.len();
    let q2 = bs + 2 + c.len();
    let xl = x.len() as int;
    assert(xl == q2 + 1);
    assert(s.len() == xl + 2 + d.len());
    assert forall|p: int| 0 <= p < la implies plain_char(#[trigger] s[p]) by {
        assert(s[p] == a[p]);
    }
    assert(s[la] == '"');
    assert forall|p: int| la + 1 <= p < bs implies (#[trigger] s[p]) != '"' && s[p] != '\\' by {
        assert(s[p] == b[p - la - 1]);
        assert(plain_char(b[p - la - 1]));
    }
    assert(s[bs] == '\\');
    assert forall|p: int| bs + 2 <= p < q2 implies (#[trigger] s[p]) != '"' && s[p] != '\\' by {
        assert(s[p] == c[p - bs - 2]);
        assert(plain_char(c[p - bs - 2]));
    }
    assert(s[q2] == '"');
    assert(s[xl] == '&' && s[xl + 1] == '&');
    assert forall|p: int| xl + 2 <= p < s.len() implies plain_char(#[trigger] s[p]) by {
        assert(s[p] == d[p - xl - 2]);
    }
    lemma_lex_plain(s, 0, la, 0);
    lemma_lex_quoted_plain(s, la + 1, bs, 0);
    lemma_lex_quoted_plain(s, bs + 2, q2, 0);
    assert(op_len(s, xl) == 2);
    lemma_lex_plain(s, xl + 2, s.len() as int, xl + 2);
    assert(lex(s, q2, 0, false, true) == lex(s, xl, 0, false, false));
    assert(lex(s, bs, 0, false, true) == lex(s, bs + 2, 0, false, true));
    assert(lex(s, la, 0, false, false) == lex(s, la + 1, 0, false, true));
    assert(s.subrange(0, xl) =~= x);
    assert(segment(s, 0, xl) == piece(x));
    if d.len() > 0 {
        assert(s.subrange(xl + 2, s.len() as int) =~= d);
    } else {
        assert(trim(d) =~= d);
    }
    assert(segment(s, xl + 2, s.len() as int) == piece(d));
    assert(lex(s, s.len() as int, xl + 2, false, false) == segment(s, xl + 2, s.len() as int));
    assert(lex(s, xl, 0, false, false) == segment(s, 0, xl) + lex(s, xl + 2, xl + 2, false, false));
    assert(split_segments(s) == lex(s, 0, 0, false, false));
    assert(lex(s, 0, 0, false, false) == lex(s, la, 0, false, false));
    assert(lex(s, la + 1, 0, false, true) == lex(s, bs, 0, false, true));
    assert(lex(s, bs + 2, 0, false, true) == lex(s, q2, 0, false, true));
    assert(split_segments(s) == segment(s, 0, xl) + segment(s, xl + 2, s.len() as int));
}

/// Each shell operator splits: for texts `a` and `d` without quotes,
/// backslashes or operator characters, `a`, then `&&`, `||`, `;`, `|` or
/// `&`, then `d` gives the segments of `a` and of `d`.
pub proof fn lemma_operator_splits(a: Seq<char>, op: Seq<char>, d: Seq<char>)
    requires
        plain_text(a),
        plain_text(d),
        op == seq!['&', '&'] || op == seq!['|', '|'] || op == seq![';'] || op == seq!['|'] || op == seq!['&'],
    ensures
        split_segments(a + op + d) == piece(a) + piece(d),
{
    let s = a + op + d;
    let la = a.len() as int;
    let e = la + op.len();
    assert forall|p: int| 0 <= p < la implies plain_char(#[trigger] s[p]) by {
        assert(s[p] == a[p]);
    }
    assert forall|p: int| e <= p < s.len() implies plain_char(#[trigger] s[p]) by {
        assert(s[p] == d[p - e]);
    }
    assert(s[la] == op[0]);
    if op.len() == 2 {
        assert(s[la + 1] == op[1]);
    } else if la + 1 < s.len() {
        assert(s[la + 1] == d[0]);
        assert(plain_char(d[0]));
    }
    assert(op_len(s, la) == op.len());
    lemma_lex_plain(s, 0, la, 0);
    lemma_lex_plain(s, e, s.len() as int, e);
    assert(lex(s, la, 0, false, false) == segment(s, 0, la) + lex(s, e, e, false, false));
    assert(lex(s, s.len() as int, e, false, false) == segment(s, e, s.len() as int));
    if la > 0 {
        assert(s.subrange(0, la) =~= a);
    } else {
        assert(trim(a) =~= a);
    }
    if d.len() > 0 {
        assert(s.subrange(e, s.len() as int) =~= d);
    } else {
        assert(trim(d) =~= d);
    }
    assert(split_segments(s) == lex(s, 0, 0, false, false));
}

/// Operators inside single quotes do not split: for texts `a` and `d`
/// without quotes, backslashes or operator characters and a text `q`
/// without a single quote, the line `a'q'd` is one segment.
pub proof fn lemma_single_quotes_hold_operators(a: Seq<char>, q: Seq<char>, d: Seq<char>)
    requires
        plain_text(a),
        plain_text(d),
        forall|i: int| 0 <= i < q.len() ==> q[i] != '\'',
    ensures
        ({
            let s = a + seq!['\''] + q + seq!['\''] + d;
            split_segments(s) == piece(s)
        }),
{
    let s = a + seq!['\''] + q + seq!['\''] + d;
    let la = a.len() as int;
    let e = la + 2 + q.len();
    assert forall|p: int| 0 <= p < la implies plain_char(#[trigger] s[p]) by {
        assert(s[p] == a[p]);
    }
    assert forall|p: int| e <= p < s.len() implies plain_char(#[trigger] s[p]) by {
        assert(s[p] == d[p - e]);
    }
    assert(s[la] == '\'');
    assert(s[e - 1] == '\'');
    assert forall|p: int| la + 1 <= p < e - 1 implies (#[trigger] s[p]) != '\'' by {
        assert(s[p] == q[p - la - 1]);
    }
    lemma_lex_single_quoted(s, la + 1, e - 1, 0);
    lemma_lex_plain(s, 0, la, 0);
    lemma_lex_plain(s, e, s.len() as int, 0);
    assert(lex(s, la, 0, false, false) == lex(s, la + 1, 0, true, false));
    assert(lex(s, e - 1, 0, true, false) == lex(s, e, 0, false, false));
    assert(lex(s, s.len() as int, 0, false, false) == segment(s, 0, s.len() as int));
    assert(s.subrange(0, s.len() as int) =~= s);
    assert(split_segments(s) == lex(s, 0, 0, false, false));
}

proof fn lemma_lex_single_quoted(s: Seq<char>, i: int, j: int, start: int)
    requires
        0 <= i <= j <= s.len(),
        forall|p: int| i <= p < j ==> (#[trigger] s[p]) != '\'',
    ensures
        lex(s, i, start, true, false) == lex(s, j, start, true, false),
    decreases j - i,
{
    if i < j {
        assert(s[i] != '\'');
        lemma_lex_single_quoted(s, i + 1, j, start);
    }
}

fn push_segment(v: &Vec<char>, a: usize, b: usize, out: &mut Vec<String>)
    requires
        a <= b <= v.len(),
    ensures
        crate::text::views(final(out)@) == crate::text::views(old(out)@) + segment(v@, a as int, b as int),
{
    if a < b {
        let (x, y) = trim_range(v, a, b);
        if x < y {
            let seg = string_from(v, x, y);
            let ghost before = out@;
            out.push(seg);
            assert(crate::text::views(out@) =~= crate::text::views(before).push(trim(v@.subrange(a as int, b as int))));
        } else {
            assert(crate::text::views(out@) =~= crate::text::views(out@) + Seq::<Seq<char>>::empty());
        }
    } else {
        assert(crate::text::views(out@) =~= crate::text::views(out@) + Seq::<Seq<char>>::empty());
    }
}

/// Splits a compound command at shell operator boundaries.
/// Returns the trimmed segments; operators and empty segments are dropped.
/// Text inside single or double quotes is literal, and a backslash escapes
/// the character after it.
pub fn split_on_operators(raw_cmd: &str) -> (r: Vec<String>)
    ensures
        crate::text::views(r@) == split_segments(raw_cmd@),
{
    let v = chars_of(raw_cmd);
    let len = v.len();
    let mut segments: Vec<String> = Vec::new();
    let mut segment_start: usize = 0;
    let mut i: usize = 0;
    let mut in_single_quote = false;
    let mut in_double_quote = false;
    while i < len
        invariant
            len == v.len(),
            segment_start <= i <= len,
            !(in_single_quote && in_double_quote),
            crate::text::views(segments@) + lex(v@, i as int, segment_start as int, in_single_quote, in_double_quote)
                == split_segments(v@),
        decreases len - i,
    {
        let ch = v[i];
        if in_single_quote {
            if ch == '\'' {
                in_single_quote = false;
            }
            i += 1;
        } else if in_double_quote {
            if ch == '\\' && i + 1 < len {
                i += 2;
            } else {
                if ch == '"' {
                    in_double_quote = false;
                }
                i += 1;
            }
        } else if ch == '\'' {
            in_single_quote = true;
            i += 1;
        } else if ch == '"' {
            in_double_quote = true;
            i += 1;
        } else if ch == '\\' && i + 1 < len {
            i += 2;
        } else {
            let op: usize = if i + 1 < len && ch == '&' && v[i + 1] == '&' {
                2
            } else if i + 1 < len && ch == '|' && v[i + 1] == '|' {
                2
            } else if ch == ';' || ch == '|' || ch == '&' {
                1
            } else {
                0
            };
            assert(op == op_len(v@, i as int));
            if op > 0 {
                let ghost before = segments@;
                push_segment(&v, segment_start, i, &mut segments);
                assert(crate::text::views(segments@) + lex(v@, i + op, i + op, false, false)
                    =~= crate::text::views(before) + lex(v@, i as int, segment_start as int, false, false));
                i += op;
                segment_start = i;
            } else {
                i += 1;
            }
        }
    }
    let ghost before = segments@;
    if segment_start < len {
        push_segment(&v, segment_start, len, &mut segments);
    }
    assert(crate::text::views(segments@) =~= crate::text::views(before) + segment(v@, segment_start as int, len as int));
    segments
}

} // verus!
