//! Deciding when raw command output is kept in a tee file, and what the
//! file and its hint look like.

use vstd::prelude::*;
use crate::config::modules::{TeeConfig, TeeMode};
use crate::text::{chars_of, decimal, decimal_string, is_ascii_alnum, push_char, starts_with, utf8_len};

verus! {

/// Output shorter than this many bytes is never teed.
pub const MIN_TEE_SIZE: usize = 500;

/// A character of a slug: ASCII letters and digits, `_` and `-` stay, any
/// other character becomes `_`.
pub open spec fn slug_char(c: char) -> char {
    if is_ascii_alnum(c) || c == '_' || c == '-' { c } else { '_' }
}

/// A command turned into a file-name slug of at most 40 characters.
pub open spec fn slug_of(s: Seq<char>) -> Seq<char> {
    let m = s.map_values(|c: char| slug_char(c));
    if m.len() > 40 { m.take(40) } else { m }
}

/// A slug is at most 40 characters long, and each of its characters is an
/// ASCII letter or digit, `_` or `-`.
pub proof fn lemma_slug_is_safe(s: Seq<char>)
    ensures
        slug_of(s).len() <= 40,
        forall|i: int| 0 <= i < slug_of(s).len() ==> is_ascii_alnum(#[trigger] slug_of(s)[i]) || slug_of(s)[i] == '_'
            || slug_of(s)[i] == '-',
{
    let m = s.map_values(|c: char| slug_char(c));
    assert forall|i: int| 0 <= i < m.len() implies is_ascii_alnum(#[trigger] m[i]) || m[i] == '_' || m[i] == '-' by {
        assert(m[i] == slug_char(s[i]));
    }
}

/// Turns a command into a file-name slug: unsafe characters become `_`,
/// and the result is cut to 40 characters.
pub fn sanitize_slug(slug: &str) -> (r: String)
    ensures
        r@ == slug_of(slug@),
{
    let v = chars_of(slug);
    let mut out = String::new();
    let mut i: usize = 0;
    while i < v.len()
        invariant
            i <= v@.len(),
            v@ == slug@,
            out@ == v@.take(i as int).map_values(|c: char| slug_char(c)),
        decreases v@.len() - i,
    {
        let c = v[i];
        let k = if (('0' <= c && c <= '9') || ('a' <= c && c <= 'z') || ('A' <= c && c <= 'Z')) || c == '_' || c == '-' { c } else { '_' };
        push_char(&mut out, k);
        assert(v@.take(i + 1).map_values(|c: char| slug_char(c)) =~= v@.take(i as int).map_values(|c: char| slug_char(c)).push(slug_char(v@[i as int])));
        i += 1;
    }
    assert(v@.take(v@.len() as int) =~= v@);
    if v.len() > 40 {
        let cv = chars_of(out.as_str());
        let r = crate::text::string_from(&cv, 0, 40);
        assert(r@ =~= out@.take(40));
        r
    } else {
        out
    }
}

/// Whether output is teed: tee enabled, the mode allows it (always, or on
/// failure when the command failed), and the output is at least
/// `MIN_TEE_SIZE` bytes; then the directory is the answer.
pub fn should_tee(config: &TeeConfig, raw_len: usize, exit_code: i32, tee_dir: Option<String>) -> (r: Option<String>)
    ensures
        r == if !config.enabled
            || config.mode == TeeMode::Never
            || (config.mode == TeeMode::Failures && exit_code == 0)
            || raw_len < MIN_TEE_SIZE {
            None
        } else {
            tee_dir
        },
{
    if !config.enabled {
        return None;
    }
    match config.mode {
        TeeMode::Never => {
            return None;
        },
        TeeMode::Failures => {
            if exit_code == 0 {
                return None;
            }
        },
        TeeMode::Always => {},
    }
    if raw_len < MIN_TEE_SIZE {
        return None;
    }
    tee_dir
}

/// Number of leading characters of `s` that start before byte `max`.
pub open spec fn chars_before(s: Seq<char>, max: nat) -> nat
    decreases s.len(),
{
    if s.len() == 0 {
        0
    } else if utf8_len(s.drop_last()) < max {
        s.len()
    } else {
        chars_before(s.drop_last(), max)
    }
}

/// What a tee file holds: the output, or when it is longer than `max`
/// bytes, the characters that start before byte `max` and a note.
pub open spec fn tee_content(raw: Seq<char>, max: nat) -> Seq<char> {
    if utf8_len(raw) > max {
        raw.take(chars_before(raw, max) as int) + "\n\n--- truncated at "@ + decimal(max) + " bytes ---"@
    } else {
        raw
    }
}

/// Byte length of a character as UTF-8 encodes it.
fn char_width(c: char) -> (r: u128)
    ensures
        r == crate::text::char_len(c),
{
    let u = c as u32;
    if u < 0x80 { 1 } else if u < 0x800 { 2 } else if u < 0x10000 { 3 } else { 4 }
}

proof fn lemma_utf8_len_push(s: Seq<char>, c: char)
    ensures
        utf8_len(s.push(c)) == utf8_len(s) + crate::text::char_len(c),
{
    assert(s.push(c).drop_last() =~= s);
}

proof fn lemma_chars_before(s: Seq<char>, max: nat, k: int)
    requires
        0 <= k <= s.len(),
        k == s.len() || utf8_len(s.take(k)) >= max,
        k == 0 || utf8_len(s.take(k - 1)) < max,
    ensures
        chars_before(s, max) == k,
    decreases s.len(),
{
    if s.len() > 0 {
        if k == s.len() {
            assert(s.take(k - 1) =~= s.drop_last());
        } else {
            lemma_utf8_monotone(s, k, s.len() - 1);
            assert(s.take(s.len() - 1) =~= s.drop_last());
            assert(s.drop_last().take(k) =~= s.take(k));
            if k > 0 {
                assert(s.drop_last().take(k - 1) =~= s.take(k - 1));
            }
            lemma_chars_before(s.drop_last(), max, k);
        }
    }
}

proof fn lemma_utf8_monotone(s: Seq<char>, a: int, b: int)
    requires
        0 <= a <= b <= s.len(),
    ensures
        utf8_len(s.take(a)) <= utf8_len(s.take(b)),
    decreases b - a,
{
    if a < b {
        lemma_utf8_monotone(s, a, b - 1);
        assert(s.take(b).drop_last() =~= s.take(b - 1));
    }
}

/// The content of a tee file for `raw` with at most about `max` bytes.
pub fn tee_file_content(raw: &str, max_file_size: usize) -> (r: String)
    ensures
        r@ == tee_content(raw@, max_file_size as nat),
{
    let v = chars_of(raw);
    let mut bytes: u128 = 0;
    let mut k: usize = 0;
    while k < v.len() && bytes < max_file_size as u128
        invariant
            bytes <= 4 * k,
            k <= v@.len(),
            v@ == raw@,
            bytes == utf8_len(v@.take(k as int)),
            k == 0 || utf8_len(v@.take(k - 1)) < max_file_size,
        decreases v@.len() - k,
    {
        let w = char_width(v[k]);
        proof {
            lemma_utf8_len_push(v@.take(k as int), v@[k as int]);
            assert(v@.take(k + 1) =~= v@.take(k as int).push(v@[k as int]));
        }
        bytes = bytes + w;
        k += 1;
    }
    proof {
        lemma_chars_before(v@, max_file_size as nat, k as int);
    }
    let total_long = if k < v.len() {
        proof { lemma_utf8_monotone(v@, k as int, v@.len() as int); assert(v@.take(v@.len() as int) =~= v@); }
        true
    } else {
        assert(v@.take(v@.len() as int) =~= v@);
        bytes > max_file_size as u128
    };
    if total_long {
        let mut s = crate::text::string_from(&v, 0, k);
        s.append("\n\n--- truncated at ");
        let n = decimal_string(max_file_size as u64);
        s.append(n.as_str());
        s.append(" bytes ---");
        assert(s@ =~= v@.take(k as int) + "\n\n--- truncated at "@ + decimal(max_file_size as nat) + " bytes ---"@);
        s
    } else {
        String::from_str(raw)
    }
}

/// The name of a tee file: seconds since the epoch, `_`, the slug, `.log`.
pub fn tee_file_name(epoch_secs: u64, command_slug: &str) -> (r: String)
    ensures
        r@ == decimal(epoch_secs as nat) + "_"@ + slug_of(command_slug@) + ".log"@,
{
    let mut s = decimal_string(epoch_secs);
    s.append("_");
    let slug = sanitize_slug(command_slug);
    s.append(slug.as_str());
    s.append(".log");
    s
}

/// Names what `Path::strip_prefix` gives for `path` and `base`: the
/// relative path when `base` is a leading run of whole components of
/// `path`, `None` otherwise.
pub uninterp spec fn path_suffix(path: Seq<char>, base: Seq<char>) -> Option<Seq<char>>;

/// `Path::new(path).strip_prefix(base)`, shown with `Path::display`. The
/// contract claims only that the result is the named `path_suffix`.
#[verifier::external_body]
fn strip_path_prefix(path: &str, base: &str) -> (r: Option<String>)
    ensures
        crate::pattern::opt_view(r) == path_suffix(path@, base@),
{
    std::path::Path::new(path).strip_prefix(base).ok().map(|p| p.display().to_string())
}

/// A path shown relative to the home directory (`~/…`) when it lies under it.
pub open spec fn shown_path(path: Seq<char>, home: Option<Seq<char>>) -> Seq<char> {
    match home {
        Some(h) => match path_suffix(path, h) {
            Some(rel) => "~/"@ + rel,
            None => path,
        },
        None => path,
    }
}

/// The hint pointing at a tee file: `[full output: <path>]`, the path
/// shown under `~` when it lies in the home directory.
pub fn format_hint(path: &str, home: Option<&str>) -> (r: String)
    ensures
        r@ == "[full output: "@ + shown_path(path@, match home { Some(h) => Some(h@), None => None }) + "]"@,
{
    let mut s = String::from_str("[full output: ");
    let shown = display_path(path, home);
    s.append(shown.as_str());
    s.append("]");
    s
}

/// A path shown relative to the home directory when it lies under it.
pub fn display_path(path: &str, home: Option<&str>) -> (r: String)
    ensures
        r@ == shown_path(path@, match home { Some(h) => Some(h@), None => None }),
{
    match home {
        Some(h) => match strip_path_prefix(path, h) {
            Some(rel) => {
                let mut s = String::from_str("~/");
                s.append(rel.as_str());
                s
            },
            None => String::from_str(path),
        },
        None => String::from_str(path),
    }
}

/// The tee directory: the one the environment names, else the configured
/// one, else the platform default; the first that is present wins.
pub fn tee_dir_choice(env: Option<String>, configured: Option<String>, default: Option<String>) -> (r: Option<String>)
    ensures
        r == (if env is Some { env } else if configured is Some { configured } else { default }),
{
    match env {
        Some(d) => Some(d),
        None => match configured {
            Some(d) => Some(d),
            None => default,
        },
    }
}

/// Whether `a` comes before `b` in code-point order (a proper prefix comes
/// first); for file names this is the order of their bytes.
pub open spec fn text_before(a: Seq<char>, b: Seq<char>) -> bool
    decreases a.len(),
{
    if a.len() == 0 {
        b.len() > 0
    } else if b.len() == 0 {
        false
    } else if a[0] != b[0] {
        (a[0] as u32) < (b[0] as u32)
    } else {
        text_before(a.drop_first(), b.drop_first())
    }
}

/// Whether `a` comes before `b` in code-point order.
pub fn name_before(a: &str, b: &str) -> (r: bool)
    ensures
        r == text_before(a@, b@),
{
    let x = chars_of(a);
    let y = chars_of(b);
    let mut k: usize = 0;
    assert(x@.skip(0) =~= x@ && y@.skip(0) =~= y@);
    while k < x.len() && k < y.len()
        invariant
            k <= x@.len(),
            k <= y@.len(),
            x@ == a@,
            y@ == b@,
            text_before(x@.skip(k as int), y@.skip(k as int)) == text_before(a@, b@),
        decreases x@.len() - k,
    {
        if x[k] != y[k] {
            return (x[k] as u32) < (y[k] as u32);
        }
        assert(x@.skip(k as int).drop_first() =~= x@.skip(k + 1));
        assert(y@.skip(k as int).drop_first() =~= y@.skip(k + 1));
        k += 1;
    }
    x.len() == k && y.len() > k
}

/// How many of `names[..n]` sort before `names[i]` (by name, then by
/// position for equal names).
pub open spec fn sorts_before(names: Seq<Seq<char>>, i: int, n: int) -> nat
    decreases n,
{
    if n <= 0 {
        0
    } else {
        sorts_before(names, i, n - 1) + if text_before(names[n - 1], names[i]) || (names[n - 1] == names[i] && n - 1 < i) {
            1nat
        } else {
            0nat
        }
    }
}

/// The place of `names[i]` when all the names are sorted by name (equal
/// names in their order).
pub open spec fn sorted_place(names: Seq<Seq<char>>, i: int) -> nat {
    sorts_before(names, i, names.len() as int)
}

/// Of `names[..k]`, in order, those whose sorted place is below `cut`.
pub open spec fn first_in_order(names: Seq<Seq<char>>, cut: nat, k: int) -> Seq<Seq<char>>
    decreases k,
{
    if k <= 0 {
        seq![]
    } else if sorted_place(names, k - 1) < cut {
        first_in_order(names, cut, k - 1).push(names[k - 1])
    } else {
        first_in_order(names, cut, k - 1)
    }
}

/// The tee files to remove so that `max` are left: none when there are no
/// more than `max`; otherwise the oldest `len - max`, the first names in
/// sorted order (tee file names begin with their time).
pub open spec fn files_removed(names: Seq<Seq<char>>, max: nat) -> Seq<Seq<char>> {
    if names.len() <= max {
        seq![]
    } else {
        first_in_order(names, (names.len() - max) as nat, names.len() as int)
    }
}

fn place_of(names: &Vec<String>, i: usize) -> (r: usize)
    requires
        i < names@.len(),
    ensures
        r == sorted_place(crate::text::views(names@), i as int),
{
    let ghost ns = crate::text::views(names@);
    let mut c: usize = 0;
    let mut j: usize = 0;
    while j < names.len()
        invariant
            i < names@.len(),
            j <= names@.len(),
            ns == crate::text::views(names@),
            c == sorts_before(ns, i as int, j as int),
            c <= j,
        decreases names@.len() - j,
    {
        let before = name_before(names[j].as_str(), names[i].as_str())
            || (crate::text::str_eq(names[j].as_str(), names[i].as_str()) && j < i);
        if before {
            c += 1;
        }
        j += 1;
    }
    c
}

/// The tee files to remove so that `max` are left (see `files_removed`),
/// in the order given.
pub fn files_to_remove(names: &Vec<String>, max: usize) -> (r: Vec<String>)
    ensures
        crate::text::views(r@) == files_removed(crate::text::views(names@), max as nat),
{
    let ghost ns = crate::text::views(names@);
    let mut out: Vec<String> = Vec::new();
    if names.len() <= max {
        return out;
    }
    let cut = names.len() - max;
    let mut k: usize = 0;
    while k < names.len()
        invariant
            k <= names@.len(),
            cut == names@.len() - max,
            ns == crate::text::views(names@),
            crate::text::views(out@) == first_in_order(ns, cut as nat, k as int),
        decreases names@.len() - k,
    {
        let p = place_of(names, k);
        if p < cut {
            let ghost before = out@;
            out.push(names[k].clone());
            assert(crate::text::views(out@) =~= crate::text::views(before).push(ns[k as int]));
        }
        k += 1;
    }
    out
}

} // verus!
