//! Regular-expression matching, provided by the `regex` crate.
//!
//! The semantics of a regular expression are not restated here: each
//! operation names its result, and callers speak of those names.

use vstd::prelude::*;

verus! {

/// The view of an optional string.
pub open spec fn opt_view(o: Option<String>) -> Option<Seq<char>> {
    match o {
        Some(s) => Some(s@),
        None => None,
    }
}

/// A successful match: `groups[k]` is capture group `k` (group 0 is the
/// whole match), and `rest` is the text after the whole match.
pub struct RegexMatch {
    pub groups: Vec<Option<String>>,
    pub rest: String,
}

impl RegexMatch {
    /// The captured texts.
    pub open spec fn groups_view(&self) -> Seq<Option<Seq<char>>> {
        self.groups@.map_values(|g: Option<String>| opt_view(g))
    }
}

/// Names the first match of `pattern` in `text`: the captured groups and the
/// text after the match, or `None` when the pattern does not compile or does
/// not match.
pub uninterp spec fn captures_of(pattern: Seq<char>, text: Seq<char>) -> Option<(Seq<Option<Seq<char>>>, Seq<char>)>;

/// Names whether `Regex::new(pattern)` succeeds.
pub uninterp spec fn regex_compiles(pattern: Seq<char>) -> bool;

/// Names whether `pattern` matches somewhere in `text`, or `None` when the
/// pattern does not compile.
pub uninterp spec fn match_result(pattern: Seq<char>, text: Seq<char>) -> Option<bool>;

/// Names `text` with every non-overlapping match of `pattern` replaced by
/// `replacement`, or `None` when the pattern does not compile.
pub uninterp spec fn replace_result(pattern: Seq<char>, text: Seq<char>, replacement: Seq<char>) -> Option<Seq<char>>;

/// `Regex::new(pattern)` then `Regex::captures(text)`. The contract claims
/// that the result is the named `captures_of`, and, as the crate documents
/// for `Captures::get(0)`, that group 0 of a match is always present.
#[verifier::external_body]
pub(crate) fn regex_captures(pattern: &str, text: &str) -> (r: Option<RegexMatch>)
    ensures
        match r {
            Some(m) => captures_of(pattern@, text@) == Some((m.groups_view(), m.rest@))
                && m.groups@.len() >= 1 && m.groups@[0] is Some,
            None => captures_of(pattern@, text@) is None,
        },
{
    let re = regex::Regex::new(pattern).ok()?;
    let caps = re.captures(text)?;
    let whole = caps.get(0)?;
    let groups = caps.iter().map(|g| g.map(|m| m.as_str().to_string())).collect();
    Some(RegexMatch { groups, rest: text[whole.end()..].to_string() })
}

/// `Regex::new(pattern).is_ok()`. The contract claims only that the result
/// is the named `regex_compiles`.
#[verifier::external_body]
pub(crate) fn regex_valid(pattern: &str) -> (r: bool)
    ensures
        r == regex_compiles(pattern@),
{
    regex::Regex::new(pattern).is_ok()
}

/// `Regex::new(pattern)` then `Regex::is_match(text)`. The contract claims
/// that the result is the named `match_result`, and that it is present
/// exactly when the pattern compiles.
#[verifier::external_body]
pub(crate) fn regex_is_match(pattern: &str, text: &str) -> (r: Option<bool>)
    ensures
        r == match_result(pattern@, text@),
        r is Some <==> regex_compiles(pattern@),
{
    regex::Regex::new(pattern).ok().map(|re| re.is_match(text))
}

/// `Regex::new(pattern)` then `Regex::replace_all(text, replacement)`. The
/// contract claims that the result is the named `replace_result`, and that
/// it is present exactly when the pattern compiles.
#[verifier::external_body]
pub(crate) fn regex_replace_all(pattern: &str, text: &str, replacement: &str) -> (r: Option<String>)
    ensures
        opt_view(r) == replace_result(pattern@, text@, replacement@),
        r is Some <==> regex_compiles(pattern@),
{
    regex::Regex::new(pattern).ok().map(|re| re.replace_all(text, replacement).to_string())
}

} // verus!
