//! Aggregated analysis results.
//!
//! An `AnalysisResult` is determined by the sequence of issues added to it
//! (its log): the totals, the per-level / per-code / per-type counts, the
//! grouping by file and by package, and the set of issue types are all
//! functions of that sequence (`wf`).

use vstd::prelude::*;
use crate::analysis::types::{copy_opt, Issue, IssueLevel};
use crate::config::modules::{key_index, lemma_key_index_props, lemma_push_key, lemma_same_keys, find_key, lookup, unique_keys};
use crate::analysis::options::AnalyzeOptions;
use crate::text::{contains, join, join_strings, str_contains, views, words, words_of};

verus! {

// ───────────────────────────── the model ─────────────────────────────

/// Number of issues of level `l` in `log`.
pub open spec fn count_level(log: Seq<Issue>, l: IssueLevel) -> nat
    decreases log.len(),
{
    if log.len() == 0 { 0 } else { count_level(log.drop_last(), l) + if log.last().level == l { 1nat } else { 0nat } }
}

/// The pattern that stands for an issue without a code: the first five
/// words of its message, joined by single spaces.
pub open spec fn pattern_of(message: Seq<char>) -> Seq<char> {
    join(words(message).take(if words(message).len() < 5 { words(message).len() as int } else { 5 }), " "@)
}

/// The type of an issue: its code, or the pattern of its message.
pub open spec fn type_key(i: Issue) -> Seq<char> {
    match i.code {
        Some(c) => c@,
        None => pattern_of(i.message@),
    }
}

/// The package of an issue, `unknown` when it has none.
pub open spec fn package_key(i: Issue) -> Seq<char> {
    match i.package {
        Some(p) => p@,
        None => "unknown"@,
    }
}

/// Number of issues of `log` with code `c`.
pub open spec fn count_code(log: Seq<Issue>, c: Seq<char>) -> nat
    decreases log.len(),
{
    if log.len() == 0 { 0 } else {
        count_code(log.drop_last(), c) + if log.last().code is Some && log.last().code->0@ == c { 1nat } else { 0nat }
    }
}

/// Number of issues of `log` of type `t`.
pub open spec fn count_type(log: Seq<Issue>, t: Seq<char>) -> nat
    decreases log.len(),
{
    if log.len() == 0 { 0 } else { count_type(log.drop_last(), t) + if type_key(log.last()) == t { 1nat } else { 0nat } }
}

/// The texts and issue lists of a grouping table.
pub open spec fn group_views(t: Seq<(String, Vec<Issue>)>) -> Seq<(Seq<char>, Seq<Issue>)> {
    t.map_values(|e: (String, Vec<Issue>)| (e.0@, e.1@))
}

/// Index of the first group of `g` with key `k`, or `g.len()`.
pub open spec fn group_index(g: Seq<(Seq<char>, Seq<Issue>)>, k: Seq<char>) -> nat
    decreases g.len(),
{
    if g.len() == 0 {
        0
    } else if g[0].0 == k {
        0
    } else {
        1 + group_index(g.drop_first(), k)
    }
}

/// A grouping with `x` added under `k`: at the end of the group of `k`, or
/// as a new last group.
pub open spec fn group_step(g: Seq<(Seq<char>, Seq<Issue>)>, k: Seq<char>, x: Issue) -> Seq<(Seq<char>, Seq<Issue>)> {
    let i = group_index(g, k);
    if i < g.len() {
        g.update(i as int, (g[i as int].0, g[i as int].1.push(x)))
    } else {
        g.push((k, seq![x]))
    }
}

/// The issues grouped by file, groups in the order their first issue
/// comes, issues in order within a group.
pub open spec fn group_by_file(s: Seq<Issue>) -> Seq<(Seq<char>, Seq<Issue>)>
    decreases s.len(),
{
    if s.len() == 0 {
        seq![]
    } else {
        group_step(group_by_file(s.drop_last()), s.last().location.file_path@, s.last())
    }
}

/// The position of a key is the same in a table and in its views.
pub proof fn lemma_group_index(t: Seq<(String, Vec<Issue>)>, k: Seq<char>)
    ensures
        group_index(group_views(t), k) == key_index(t, k),
    decreases t.len(),
{
    if t.len() > 0 {
        assert(group_views(t).drop_first() =~= group_views(t.drop_first()));
        lemma_group_index(t.drop_first(), k);
    }
}

/// The issues of `log` in file `f`, in order.
pub open spec fn in_file(log: Seq<Issue>, f: Seq<char>) -> Seq<Issue>
    decreases log.len(),
{
    if log.len() == 0 { seq![] } else if log.last().location.file_path@ == f {
        in_file(log.drop_last(), f).push(log.last())
    } else {
        in_file(log.drop_last(), f)
    }
}

/// The issues of `log` in package `p`, in order.
pub open spec fn in_package(log: Seq<Issue>, p: Seq<char>) -> Seq<Issue>
    decreases log.len(),
{
    if log.len() == 0 { seq![] } else if package_key(log.last()) == p {
        in_package(log.drop_last(), p).push(log.last())
    } else {
        in_package(log.drop_last(), p)
    }
}

/// Whether some issue of `log` has type `t`.
pub open spec fn has_type(log: Seq<Issue>, t: Seq<char>) -> bool {
    exists|i: int| 0 <= i < log.len() && type_key(#[trigger] log[i]) == t
}

/// The count stored under `k` (0 when absent).
pub open spec fn count_entry(t: Seq<(String, usize)>, k: Seq<char>) -> nat {
    match lookup(t, k) {
        Some(v) => v as nat,
        None => 0,
    }
}

/// The issues stored under `k` (none when absent).
pub open spec fn issues_entry(t: Seq<(String, Vec<Issue>)>, k: Seq<char>) -> Seq<Issue> {
    match lookup(t, k) {
        Some(v) => v@,
        None => seq![],
    }
}

/// Index of the first entry for level `l`, or the length.
pub open spec fn level_index(t: Seq<(IssueLevel, usize)>, l: IssueLevel) -> nat
    decreases t.len(),
{
    if t.len() == 0 { 0 } else if t[0].0 == l { 0 } else { 1 + level_index(t.drop_first(), l) }
}

/// The count stored for level `l` (0 when absent).
pub open spec fn level_entry(t: Seq<(IssueLevel, usize)>, l: IssueLevel) -> nat {
    if level_index(t, l) < t.len() { t[level_index(t, l) as int].1 as nat } else { 0 }
}

proof fn lemma_level_index(t: Seq<(IssueLevel, usize)>, l: IssueLevel, k: int)
    requires
        0 <= k <= t.len(),
        forall|j: int| 0 <= j < k ==> (#[trigger] t[j]).0 != l,
        k < t.len() ==> t[k].0 == l,
    ensures
        level_index(t, l) == k,
    decreases k,
{
    if k > 0 {
        assert forall|j: int| 0 <= j < k - 1 implies (#[trigger] t.drop_first()[j]).0 != l by {
            assert(t.drop_first()[j] == t[j + 1]);
        }
        lemma_level_index(t.drop_first(), l, k - 1);
    }
}

proof fn lemma_level_index_props(t: Seq<(IssueLevel, usize)>, l: IssueLevel)
    ensures
        level_index(t, l) <= t.len(),
        level_index(t, l) < t.len() ==> t[level_index(t, l) as int].0 == l,
        forall|j: int| 0 <= j < level_index(t, l) ==> (#[trigger] t[j]).0 != l,
    decreases t.len(),
{
    if t.len() > 0 && t[0].0 != l {
        lemma_level_index_props(t.drop_first(), l);
        assert forall|j: int| 0 <= j < level_index(t, l) implies (#[trigger] t[j]).0 != l by {
            if j > 0 {
                assert(t[j] == t.drop_first()[j - 1]);
            }
        }
        if level_index(t, l) < t.len() {
            assert(t[level_index(t, l) as int] == t.drop_first()[level_index(t, l) - 1]);
        }
    }
}

proof fn lemma_count_level_bound(log: Seq<Issue>, l: IssueLevel)
    ensures
        count_level(log, l) <= log.len(),
    decreases log.len(),
{
    if log.len() > 0 {
        lemma_count_level_bound(log.drop_last(), l);
    }
}

proof fn lemma_count_code_bound(log: Seq<Issue>, c: Seq<char>)
    ensures
        count_code(log, c) <= log.len(),
    decreases log.len(),
{
    if log.len() > 0 {
        lemma_count_code_bound(log.drop_last(), c);
    }
}

proof fn lemma_count_type_bound(log: Seq<Issue>, t: Seq<char>)
    ensures
        count_type(log, t) <= log.len(),
    decreases log.len(),
{
    if log.len() > 0 {
        lemma_count_type_bound(log.drop_last(), t);
    }
}

/// The four level counts add up to the number of issues.
pub proof fn lemma_levels_partition(log: Seq<Issue>)
    ensures
        count_level(log, IssueLevel::Error) + count_level(log, IssueLevel::Warning)
            + count_level(log, IssueLevel::Info) + count_level(log, IssueLevel::Hint) == log.len(),
    decreases log.len(),
{
    if log.len() > 0 {
        lemma_levels_partition(log.drop_last());
    }
}

/// Adding one issue to a well-formed result moves every table by that
/// issue alone: one more in all, one more for its level, its code (when it
/// has one) and its type; it is last in its file's and its package's lists;
/// its type is among the recorded types, and no other entry changes.
pub proof fn lemma_add_issue_tables(before: AnalysisResult, after: AnalysisResult, issue: Issue)
    requires
        before.wf(),
        after.wf(),
        after.issues() == before.issues().push(issue),
    ensures
        after.total_issues == before.total_issues + 1,
        forall|l: IssueLevel| #[trigger] level_entry(after.issues_by_level@, l)
            == level_entry(before.issues_by_level@, l) + if l == issue.level { 1nat } else { 0nat },
        forall|c: Seq<char>| #[trigger] count_entry(after.issues_by_code@, c)
            == count_entry(before.issues_by_code@, c) + if issue.code is Some && issue.code->0@ == c { 1nat } else { 0nat },
        forall|t: Seq<char>| #[trigger] count_entry(after.issues_by_type@, t)
            == count_entry(before.issues_by_type@, t) + if type_key(issue) == t { 1nat } else { 0nat },
        forall|f: Seq<char>| #[trigger] issues_entry(after.issues_by_file@, f)
            == if issue.location.file_path@ == f { issues_entry(before.issues_by_file@, f).push(issue) } else { issues_entry(before.issues_by_file@, f) },
        forall|p: Seq<char>| #[trigger] issues_entry(after.issues_by_package@, p)
            == if package_key(issue) == p { issues_entry(before.issues_by_package@, p).push(issue) } else { issues_entry(before.issues_by_package@, p) },
        views(after.unique_patterns@).contains(type_key(issue)),
        forall|t: Seq<char>| t != type_key(issue) ==>
            (#[trigger] views(after.unique_patterns@).contains(t) == views(before.unique_patterns@).contains(t)),
{
    let log = after.issues();
    assert(log.drop_last() =~= before.issues());
    assert(log.last() == issue);
    assert forall|l: IssueLevel| #[trigger] level_entry(after.issues_by_level@, l)
        == level_entry(before.issues_by_level@, l) + if l == issue.level { 1nat } else { 0nat } by {
        assert(level_entry(after.issues_by_level@, l) == count_level(log, l));
        assert(level_entry(before.issues_by_level@, l) == count_level(before.issues(), l));
    }
    assert forall|c: Seq<char>| #[trigger] count_entry(after.issues_by_code@, c)
        == count_entry(before.issues_by_code@, c) + if issue.code is Some && issue.code->0@ == c { 1nat } else { 0nat } by {
        assert(count_entry(after.issues_by_code@, c) == count_code(log, c));
        assert(count_entry(before.issues_by_code@, c) == count_code(before.issues(), c));
    }
    assert forall|t: Seq<char>| #[trigger] count_entry(after.issues_by_type@, t)
        == count_entry(before.issues_by_type@, t) + if type_key(issue) == t { 1nat } else { 0nat } by {
        assert(count_entry(after.issues_by_type@, t) == count_type(log, t));
        assert(count_entry(before.issues_by_type@, t) == count_type(before.issues(), t));
    }
    assert forall|f: Seq<char>| #[trigger] issues_entry(after.issues_by_file@, f)
        == if issue.location.file_path@ == f { issues_entry(before.issues_by_file@, f).push(issue) } else { issues_entry(before.issues_by_file@, f) } by {
        assert(issues_entry(after.issues_by_file@, f) == in_file(log, f));
        assert(issues_entry(before.issues_by_file@, f) == in_file(before.issues(), f));
    }
    assert forall|p: Seq<char>| #[trigger] issues_entry(after.issues_by_package@, p)
        == if package_key(issue) == p { issues_entry(before.issues_by_package@, p).push(issue) } else { issues_entry(before.issues_by_package@, p) } by {
        assert(issues_entry(after.issues_by_package@, p) == in_package(log, p));
        assert(issues_entry(before.issues_by_package@, p) == in_package(before.issues(), p));
    }
    assert(type_key(log[log.len() - 1]) == type_key(issue));
    assert(views(after.unique_patterns@).contains(type_key(issue)) == has_type(log, type_key(issue)));
    assert forall|t: Seq<char>| t != type_key(issue) implies
        (#[trigger] views(after.unique_patterns@).contains(t) == views(before.unique_patterns@).contains(t)) by {
        assert(views(after.unique_patterns@).contains(t) == has_type(log, t));
        assert(views(before.unique_patterns@).contains(t) == has_type(before.issues(), t));
        if has_type(log, t) {
            let i = choose|i: int| 0 <= i < log.len() && type_key(#[trigger] log[i]) == t;
            assert(i < log.len() - 1);
            assert(before.issues()[i] == log[i]);
        }
        if has_type(before.issues(), t) {
            let i = choose|i: int| 0 <= i < before.issues().len() && type_key(#[trigger] before.issues()[i]) == t;
            assert(log[i] == before.issues()[i]);
        }
    }
}

/// The sum of a sequence of counts.
pub open spec fn nat_sum(s: Seq<nat>) -> nat
    decreases s.len(),
{
    if s.len() == 0 { 0 } else { nat_sum(s.drop_last()) + s.last() }
}

/// The sum of the counts of a level table.
pub open spec fn level_sum(t: Seq<(IssueLevel, usize)>) -> nat {
    nat_sum(t.map_values(|e: (IssueLevel, usize)| e.1 as nat))
}

/// The sum of the counts of a count table.
pub open spec fn count_sum(t: Seq<(String, usize)>) -> nat {
    nat_sum(t.map_values(|e: (String, usize)| e.1 as nat))
}

/// The number of issues over all lists of a grouping table.
pub open spec fn list_sum(t: Seq<(String, Vec<Issue>)>) -> nat {
    nat_sum(t.map_values(|e: (String, Vec<Issue>)| e.1@.len()))
}

proof fn lemma_nat_sum_update(s: Seq<nat>, i: int, x: nat)
    requires
        0 <= i < s.len(),
    ensures
        nat_sum(s.update(i, x)) + s[i] == nat_sum(s) + x,
    decreases s.len(),
{
    if i < s.len() - 1 {
        assert(s.update(i, x).drop_last() =~= s.drop_last().update(i, x));
        lemma_nat_sum_update(s.drop_last(), i, x);
    } else {
        assert(s.update(i, x).drop_last() =~= s.drop_last());
    }
}

proof fn lemma_nat_sum_push(s: Seq<nat>, x: nat)
    ensures
        nat_sum(s.push(x)) == nat_sum(s) + x,
{
    assert(s.push(x).drop_last() =~= s);
}

/// In a well-formed result every table accounts for each issue once: the
/// level counts, the type counts, the file lists and the package lists
/// each add up to the number of issues, and the recorded types are exactly
/// the keys of the type table.
pub proof fn lemma_table_sums(r: AnalysisResult)
    requires
        r.wf(),
    ensures
        level_sum(r.issues_by_level@) == r.total_issues,
        count_sum(r.issues_by_type@) == r.total_issues,
        list_sum(r.issues_by_file@) == r.total_issues,
        list_sum(r.issues_by_package@) == r.total_issues,
        forall|k: Seq<char>| #[trigger] views(r.unique_patterns@).contains(k) <==> lookup(r.issues_by_type@, k) is Some,
{
}

// ───────────────────────────── table updates ─────────────────────────────

fn bump_level(table: &mut Vec<(IssueLevel, usize)>, l: IssueLevel)
    requires
        level_entry(old(table)@, l) < usize::MAX,
    ensures
        forall|m: IssueLevel| #[trigger] level_entry(final(table)@, m) == level_entry(old(table)@, m) + if m == l { 1nat } else { 0nat },
        level_sum(final(table)@) == level_sum(old(table)@) + 1,
{
    let ghost t0 = table@;
    let mut i: usize = 0;
    while i < table.len()
        invariant
            table@ == t0,
            t0 == old(table)@,
            level_entry(t0, l) < usize::MAX,
            i <= table.len(),
            forall|j: int| 0 <= j < i ==> (#[trigger] table@[j]).0 != l,
        decreases table.len() - i,
    {
        if table[i].0 == l {
            proof { lemma_level_index(t0, l, i as int); }
            let v = table[i].1;
            table.set(i, (l, v + 1));
            proof {
                let f = |e: (IssueLevel, usize)| e.1 as nat;
                assert(table@.map_values(f) =~= t0.map_values(f).update(i as int, (v + 1) as nat));
                lemma_nat_sum_update(t0.map_values(f), i as int, (v + 1) as nat);
                assert forall|m: IssueLevel| #[trigger] level_entry(table@, m) == level_entry(t0, m) + if m == l { 1nat } else { 0nat } by {
                    lemma_level_index_props(t0, m);
                    lemma_level_index(table@, m, level_index(t0, m) as int);
                }
            }
            return;
        }
        i += 1;
    }
    proof { lemma_level_index(t0, l, i as int); }
    table.push((l, 1));
    proof {
        let f = |e: (IssueLevel, usize)| e.1 as nat;
        assert(table@.map_values(f) =~= t0.map_values(f).push(1nat));
        lemma_nat_sum_push(t0.map_values(f), 1nat);
        assert forall|m: IssueLevel| #[trigger] level_entry(table@, m) == level_entry(t0, m) + if m == l { 1nat } else { 0nat } by {
            lemma_level_index_props(t0, m);
            if level_index(t0, m) < t0.len() {
                lemma_level_index(table@, m, level_index(t0, m) as int);
            } else if m == l {
                lemma_level_index(table@, m, t0.len() as int);
            } else {
                lemma_level_index(table@, m, t0.len() + 1int);
            }
        }
    }
}

fn bump_count(table: &mut Vec<(String, usize)>, key: &str)
    requires
        count_entry(old(table)@, key@) < usize::MAX,
        unique_keys(old(table)@),
    ensures
        unique_keys(final(table)@),
        count_sum(final(table)@) == count_sum(old(table)@) + 1,
        forall|k: Seq<char>| #[trigger] lookup(final(table)@, k) is Some <==> (lookup(old(table)@, k) is Some || k == key@),
        forall|k: Seq<char>| #[trigger] count_entry(final(table)@, k) == count_entry(old(table)@, k) + if k == key@ { 1nat } else { 0nat },
{
    let ghost t0 = table@;
    let i = find_key(table, key);
    if i < table.len() {
        let v = table[i].1;
        let name = table[i].0.clone();
        table.set(i, (name, v + 1));
        proof {
            lemma_key_index_props(t0, key@);
            assert(table@ =~= t0.update(i as int, table@[i as int]));
            let f = |e: (String, usize)| e.1 as nat;
            assert(table@.map_values(f) =~= t0.map_values(f).update(i as int, (v + 1) as nat));
            lemma_nat_sum_update(t0.map_values(f), i as int, (v + 1) as nat);
            assert forall|j: int| 0 <= j < t0.len() implies (#[trigger] t0[j]).0@ == table@[j].0@ by {}
            assert forall|k: Seq<char>| #[trigger] lookup(table@, k) is Some <==> (lookup(t0, k) is Some || k == key@) by {
                lemma_same_keys(t0, table@, k);
            }
            assert forall|k: Seq<char>| #[trigger] count_entry(table@, k) == count_entry(t0, k) + if k == key@ { 1nat } else { 0nat } by {
                lemma_same_keys(t0, table@, k);
                lemma_key_index_props(t0, k);
                let ki = key_index(t0, k);
                assert(key_index(table@, k) == ki);
                if ki < t0.len() && ki != i {
                    assert(table@[ki as int] == t0[ki as int]);
                    assert(k != key@);
                    assert(lookup(table@, k) == lookup(t0, k));
                } else if ki == i {
                    assert(k == key@);
                    assert(lookup(table@, k) == Some((v + 1) as usize));
                    assert(lookup(t0, k) == Some(v));
                } else {
                    assert(k != key@);
                    assert(lookup(table@, k) is None);
                }
            }
        }
    } else {
        table.push((String::from_str(key), 1));
        proof {
            assert(table@ == t0.push(table@.last()));
            lemma_key_index_props(t0, key@);
            let f = |e: (String, usize)| e.1 as nat;
            assert(table@.map_values(f) =~= t0.map_values(f).push(1nat));
            lemma_nat_sum_push(t0.map_values(f), 1nat);
            assert forall|k: Seq<char>| #[trigger] lookup(table@, k) is Some <==> (lookup(t0, k) is Some || k == key@) by {
                lemma_push_key(t0, table@.last(), k);
                lemma_key_index_props(t0, k);
                if k == key@ {
                    assert(key_index(table@, k) == t0.len());
                }
            }
            assert forall|a: int, b: int| 0 <= a < b < table@.len() implies (#[trigger] table@[a]).0@ != (#[trigger] table@[b]).0@ by {
                if b == t0.len() {
                    assert(table@[a] == t0[a]);
                } else {
                    assert(table@[a] == t0[a] && table@[b] == t0[b]);
                }
            }
            assert forall|k: Seq<char>| #[trigger] count_entry(table@, k) == count_entry(t0, k) + if k == key@ { 1nat } else { 0nat } by {
                lemma_push_key(t0, table@.last(), k);
                lemma_key_index_props(t0, k);
                if k == key@ {
                    assert(key_index(table@, k) == t0.len());
                }
            }
        }
    }
}

fn append_issue(table: &mut Vec<(String, Vec<Issue>)>, key: &str, issue: Issue)
    ensures
        forall|k: Seq<char>| #[trigger] issues_entry(final(table)@, k) == if k == key@ { issues_entry(old(table)@, k).push(issue) } else { issues_entry(old(table)@, k) },
        group_views(final(table)@) == group_step(group_views(old(table)@), key@, issue),
        list_sum(final(table)@) == list_sum(old(table)@) + 1,
{
    proof {
        lemma_group_index(table@, key@);
    }
    let ghost t0 = table@;
    let i = find_key(table, key);
    if i < table.len() {
        let mut entry = table.remove(i);
        entry.1.push(issue);
        table.insert(i, entry);
        proof {
            lemma_key_index_props(t0, key@);
            assert(table@ =~= t0.update(i as int, table@[i as int]));
            let f = |e: (String, Vec<Issue>)| e.1@.len();
            assert(table@[i as int].1@.len() == t0[i as int].1@.len() + 1);
            assert(table@.map_values(f) =~= t0.map_values(f).update(i as int, t0[i as int].1@.len() + 1));
            lemma_nat_sum_update(t0.map_values(f), i as int, t0[i as int].1@.len() + 1);
            assert forall|j: int| 0 <= j < t0.len() implies (#[trigger] t0[j]).0@ == table@[j].0@ by {
                if j < i { assert(table@[j] == t0[j]); } else if j > i { assert(table@[j] == t0[j]); }
            }
            assert forall|k: Seq<char>| #[trigger] issues_entry(table@, k) == if k == key@ { issues_entry(t0, k).push(issue) } else { issues_entry(t0, k) } by {
                lemma_same_keys(t0, table@, k);
                lemma_key_index_props(t0, k);
                if k == key@ {
                    assert(key_index(t0, k) == i);
                    assert(table@[i as int].1@ =~= t0[i as int].1@.push(issue));
                }
                if key_index(t0, k) < t0.len() && key_index(t0, k) != i {
                    assert(table@[key_index(t0, k) as int] == t0[key_index(t0, k) as int]);
                }
            }
            assert(group_views(table@) =~= group_step(group_views(t0), key@, issue));
        }
    } else {
        let mut v: Vec<Issue> = Vec::new();
        v.push(issue);
        table.push((String::from_str(key), v));
        proof {
            assert(table@ == t0.push(table@.last()));
            let f = |e: (String, Vec<Issue>)| e.1@.len();
            assert(table@.map_values(f) =~= t0.map_values(f).push(1nat));
            lemma_nat_sum_push(t0.map_values(f), 1nat);
            assert forall|k: Seq<char>| #[trigger] issues_entry(table@, k) == if k == key@ { issues_entry(t0, k).push(issue) } else { issues_entry(t0, k) } by {
                lemma_push_key(t0, table@.last(), k);
                lemma_key_index_props(t0, k);
                if k == key@ {
                    assert(table@.last().1@ =~= seq![issue]);
                    assert(issues_entry(t0, k) =~= Seq::<Issue>::empty());
                }
            }
            assert(group_views(table@) =~= group_step(group_views(t0), key@, issue));
        }
    }
}

fn insert_pattern(set: &mut Vec<String>, key: String)
    ensures
        forall|k: Seq<char>| #[trigger] views(final(set)@).contains(k) == (views(old(set)@).contains(k) || k == key@),
{
    let mut i: usize = 0;
    while i < set.len()
        invariant
            i <= set.len(),
            forall|j: int| 0 <= j < i ==> (#[trigger] set@[j])@ != key@,
        decreases set.len() - i,
    {
        if crate::text::str_eq(set[i].as_str(), key.as_str()) {
            proof {
                assert forall|k: Seq<char>| #[trigger] views(set@).contains(k) == (views(set@).contains(k) || k == key@) by {
                    if k == key@ {
                        assert(views(set@)[i as int] == k);
                    }
                }
            }
            return;
        }
        i += 1;
    }
    let ghost s0 = set@;
    set.push(key);
    proof {
        assert(views(set@) =~= views(s0).push(set@.last()@));
        assert forall|k: Seq<char>| #[trigger] views(set@).contains(k) == (views(s0).contains(k) || k == set@.last()@) by {
            if views(s0).contains(k) {
                let j = choose|j: int| 0 <= j < views(s0).len() && views(s0)[j] == k;
                assert(views(set@)[j] == k);
            }
            if views(set@).contains(k) {
                let j = choose|j: int| 0 <= j < views(set@).len() && views(set@)[j] == k;
                if j < s0.len() {
                    assert(views(s0)[j] == k);
                }
            }
            if k == set@.last()@ {
                assert(views(set@)[s0.len() as int] == k);
            }
        }
    }
}


// ───────────────────────────── reading the file table ─────────────────────────────

/// The issues of a file table, file after file.
pub open spec fn flat_issues(t: Seq<(String, Vec<Issue>)>) -> Seq<Issue>
    decreases t.len(),
{
    if t.len() == 0 { seq![] } else { flat_issues(t.drop_last()) + t.last().1@ }
}

/// The issues of `s` of level `l`, in order.
pub open spec fn of_level(s: Seq<Issue>, l: IssueLevel) -> Seq<Issue>
    decreases s.len(),
{
    if s.len() == 0 {
        seq![]
    } else if s.last().level == l {
        of_level(s.drop_last(), l).push(s.last())
    } else {
        of_level(s.drop_last(), l)
    }
}

/// The issues of a grouping, group after group.
pub open spec fn flat_groups(g: Seq<(Seq<char>, Seq<Issue>)>) -> Seq<Issue>
    decreases g.len(),
{
    if g.len() == 0 { seq![] } else { flat_groups(g.drop_last()) + g.last().1 }
}

proof fn lemma_of_level_len(s: Seq<Issue>, l: IssueLevel)
    ensures
        of_level(s, l).len() == count_level(s, l),
    decreases s.len(),
{
    if s.len() > 0 {
        lemma_of_level_len(s.drop_last(), l);
    }
}

proof fn lemma_count_level_concat(a: Seq<Issue>, b: Seq<Issue>, l: IssueLevel)
    ensures
        count_level(a + b, l) == count_level(a, l) + count_level(b, l),
    decreases b.len(),
{
    if b.len() == 0 {
        assert(a + b =~= a);
    } else {
        assert((a + b).drop_last() =~= a + b.drop_last());
        assert((a + b).last() == b.last());
        lemma_count_level_concat(a, b.drop_last(), l);
    }
}

proof fn lemma_flat_views(t: Seq<(String, Vec<Issue>)>)
    ensures
        flat_issues(t) == flat_groups(group_views(t)),
    decreases t.len(),
{
    if t.len() > 0 {
        assert(group_views(t).drop_last() =~= group_views(t.drop_last()));
        lemma_flat_views(t.drop_last());
    } else {
        assert(group_views(t) =~= Seq::<(Seq<char>, Seq<Issue>)>::empty());
    }
}

proof fn lemma_count_update(g: Seq<(Seq<char>, Seq<Issue>)>, i: int, e: (Seq<char>, Seq<Issue>), l: IssueLevel)
    requires
        0 <= i < g.len(),
    ensures
        count_level(flat_groups(g.update(i, e)), l) + count_level(g[i].1, l)
            == count_level(flat_groups(g), l) + count_level(e.1, l),
    decreases g.len(),
{
    let u = g.update(i, e);
    lemma_count_level_concat(flat_groups(g.drop_last()), g.last().1, l);
    lemma_count_level_concat(flat_groups(u.drop_last()), u.last().1, l);
    if i == g.len() - 1 {
        assert(u.drop_last() =~= g.drop_last());
    } else {
        assert(u.drop_last() =~= g.drop_last().update(i, e));
        lemma_count_update(g.drop_last(), i, e, l);
    }
}

proof fn lemma_group_count(s: Seq<Issue>, l: IssueLevel)
    ensures
        count_level(flat_groups(group_by_file(s)), l) == count_level(s, l),
    decreases s.len(),
{
    if s.len() > 0 {
        let g = group_by_file(s.drop_last());
        let x = s.last();
        let k = x.location.file_path@;
        lemma_group_count(s.drop_last(), l);
        let i = group_index(g, k);
        assert(group_by_file(s) == group_step(g, k, x));
        let bump: nat = if x.level == l { 1nat } else { 0nat };
        assert(count_level(s, l) == count_level(s.drop_last(), l) + bump);
        if i < g.len() {
            let v = g[i as int].1.push(x);
            lemma_count_update(g, i as int, (g[i as int].0, v), l);
            assert(v.drop_last() =~= g[i as int].1);
            assert(v.last() == x);
            assert(count_level(v, l) == count_level(g[i as int].1, l) + bump);
            assert(group_by_file(s) == g.update(i as int, (g[i as int].0, v)));
        } else {
            let n = g.push((k, seq![x]));
            assert(group_by_file(s) == n);
            assert(n.drop_last() =~= g);
            assert(n.last() == (k, seq![x]));
            assert(flat_groups(n) == flat_groups(g) + seq![x]);
            lemma_count_level_concat(flat_groups(g), seq![x], l);
            let one = seq![x];
            assert(one.drop_last() =~= Seq::<Issue>::empty());
            assert(one.len() == 1 && one.last() == x);
            assert(count_level(one.drop_last(), l) == 0);
            assert(count_level(one, l) == bump);
        }
    }
}

/// In a well-formed result the issues of a level, read file after file,
/// are as many as the level's count.
pub proof fn lemma_level_lists_match_counts(r: AnalysisResult, l: IssueLevel)
    requires
        r.wf(),
    ensures
        of_level(flat_issues(r.issues_by_file@), l).len() == count_level(r.issues(), l),
        count_level(r.issues(), l) == level_entry(r.issues_by_level@, l),
{
    lemma_of_level_len(flat_issues(r.issues_by_file@), l);
    lemma_flat_views(r.issues_by_file@);
    lemma_group_count(r.issues(), l);
}

/// `s` without its warnings when `drop` holds.
pub open spec fn drop_warnings(s: Seq<Issue>, drop: bool) -> Seq<Issue>
    decreases s.len(),
{
    if s.len() == 0 {
        seq![]
    } else if drop && s.last().level == IssueLevel::Warning {
        drop_warnings(s.drop_last(), drop)
    } else {
        drop_warnings(s.drop_last(), drop).push(s.last())
    }
}

/// A file passes the path filters when there are none, or when its path
/// contains one of them.
pub open spec fn path_selected(file: Seq<char>, filters: Seq<String>) -> bool {
    filters.len() == 0 || exists|k: int| 0 <= k < filters.len() && contains(file, (#[trigger] filters[k])@)
}

/// The issues of a file table that pass the path and warning filters,
/// file after file.
pub open spec fn kept_issues(t: Seq<(String, Vec<Issue>)>, filters: Seq<String>, no_warnings: bool) -> Seq<Issue>
    decreases t.len(),
{
    if t.len() == 0 {
        seq![]
    } else if path_selected(t.last().0@, filters) {
        kept_issues(t.drop_last(), filters, no_warnings) + drop_warnings(t.last().1@, no_warnings)
    } else {
        kept_issues(t.drop_last(), filters, no_warnings)
    }
}

/// The issues of a grouping that pass the path and warning filters, group
/// after group.
pub open spec fn kept_groups(g: Seq<(Seq<char>, Seq<Issue>)>, filters: Seq<String>, no_warnings: bool) -> Seq<Issue>
    decreases g.len(),
{
    if g.len() == 0 {
        seq![]
    } else if path_selected(g.last().0, filters) {
        kept_groups(g.drop_last(), filters, no_warnings) + drop_warnings(g.last().1, no_warnings)
    } else {
        kept_groups(g.drop_last(), filters, no_warnings)
    }
}

/// Filtering a file table reads only its views.
pub proof fn lemma_kept_groups(t: Seq<(String, Vec<Issue>)>, filters: Seq<String>, no_warnings: bool)
    ensures
        kept_issues(t, filters, no_warnings) == kept_groups(group_views(t), filters, no_warnings),
    decreases t.len(),
{
    if t.len() > 0 {
        assert(group_views(t).drop_last() =~= group_views(t.drop_last()));
        lemma_kept_groups(t.drop_last(), filters, no_warnings);
    }
}

/// Whether any of the filtering options is set.
pub open spec fn needs_filtering(o: AnalyzeOptions) -> bool {
    o.filter_warnings || o.filter_paths@.len() > 0 || o.max_issues is Some
}

/// The issue limit of the options: `max_issues` when positive, else none.
pub open spec fn issue_limit(o: AnalyzeOptions) -> nat {
    match o.max_issues {
        Some(n) => if n > 0 { n as nat } else { usize::MAX as nat },
        None => usize::MAX as nat,
    }
}

/// The first `n` elements of `s` (all of them when it is shorter).
pub open spec fn first_n<A>(s: Seq<A>, n: nat) -> Seq<A> {
    if s.len() <= n { s } else { s.take(n as int) }
}

pub open spec fn is_prefix<A>(a: Seq<A>, b: Seq<A>) -> bool {
    a.len() <= b.len() && b.take(a.len() as int) == a
}

proof fn lemma_prefix_trans<A>(a: Seq<A>, b: Seq<A>, c: Seq<A>)
    requires
        is_prefix(a, b),
        is_prefix(b, c),
    ensures
        is_prefix(a, c),
{
    assert(c.take(a.len() as int) =~= b.take(a.len() as int));
}

proof fn lemma_drop_warnings_prefix(s: Seq<Issue>, j: int, drop: bool)
    requires
        0 <= j <= s.len(),
    ensures
        is_prefix(drop_warnings(s.take(j), drop), drop_warnings(s, drop)),
    decreases s.len() - j,
{
    if j == s.len() {
        assert(s.take(j) =~= s);
        let d = drop_warnings(s, drop);
        assert(d.take(d.len() as int) =~= d);
    } else {
        lemma_drop_warnings_prefix(s, j + 1, drop);
        assert(s.take(j + 1).drop_last() =~= s.take(j));
        let a = drop_warnings(s.take(j), drop);
        let b = drop_warnings(s.take(j + 1), drop);
        assert(is_prefix(a, b)) by {
            if !(drop && s[j].level == IssueLevel::Warning) {
                assert(b.take(a.len() as int) =~= a);
            } else {
                assert(b.take(a.len() as int) =~= a);
            }
        }
        lemma_prefix_trans(a, b, drop_warnings(s, drop));
    }
}

proof fn lemma_kept_prefix(t: Seq<(String, Vec<Issue>)>, i: int, filters: Seq<String>, nw: bool)
    requires
        0 <= i <= t.len(),
    ensures
        is_prefix(kept_issues(t.take(i), filters, nw), kept_issues(t, filters, nw)),
    decreases t.len() - i,
{
    if i == t.len() {
        assert(t.take(i) =~= t);
        let d = kept_issues(t, filters, nw);
        assert(d.take(d.len() as int) =~= d);
    } else {
        lemma_kept_prefix(t, i + 1, filters, nw);
        assert(t.take(i + 1).drop_last() =~= t.take(i));
        let a = kept_issues(t.take(i), filters, nw);
        let b = kept_issues(t.take(i + 1), filters, nw);
        assert(b.take(a.len() as int) =~= a);
        lemma_prefix_trans(a, b, kept_issues(t, filters, nw));
    }
}

/// What has been collected so far is a prefix of all the kept issues.
proof fn lemma_collected_prefix(t: Seq<(String, Vec<Issue>)>, i: int, j: int, filters: Seq<String>, nw: bool)
    requires
        0 <= i < t.len(),
        0 <= j <= t[i].1@.len(),
        path_selected(t[i].0@, filters),
    ensures
        is_prefix(kept_issues(t.take(i), filters, nw) + drop_warnings(t[i].1@.take(j), nw), kept_issues(t, filters, nw)),
{
    let k0 = kept_issues(t.take(i), filters, nw);
    let d = drop_warnings(t[i].1@.take(j), nw);
    let full = drop_warnings(t[i].1@, nw);
    lemma_drop_warnings_prefix(t[i].1@, j, nw);
    assert(t.take(i + 1).drop_last() =~= t.take(i));
    assert(kept_issues(t.take(i + 1), filters, nw) == k0 + full);
    assert((k0 + full).take((k0 + d).len() as int) =~= k0 + d);
    lemma_kept_prefix(t, i + 1, filters, nw);
    lemma_prefix_trans(k0 + d, k0 + full, kept_issues(t, filters, nw));
}


// ───────────────────────────── ranking counts ─────────────────────────────

/// Entry `a` of a count table comes before entry `b`: a higher count, or
/// the same count and an earlier position.
pub open spec fn ranks_before(t: Seq<(String, usize)>, a: int, b: int) -> bool {
    t[a].1 > t[b].1 || (t[a].1 == t[b].1 && a < b)
}

/// `idx` lists positions of `t` by decreasing count, ties in table order.
pub open spec fn ranked(t: Seq<(String, usize)>, idx: Seq<usize>) -> bool {
    &&& forall|j: int| 0 <= j < idx.len() ==> (#[trigger] idx[j]) < t.len()
    &&& forall|a: int, b: int| 0 <= a < b < idx.len() ==> ranks_before(t, #[trigger] idx[a] as int, #[trigger] idx[b] as int)
}

/// `r` is the start of the ranking `idx` of the whole table `t` (every
/// position once), cut to `n` entries.
pub open spec fn top_listing(r: Seq<(String, usize)>, t: Seq<(String, usize)>, idx: Seq<usize>, n: nat) -> bool {
    &&& idx.len() == t.len()
    &&& ranked(t, idx)
    &&& r.len() == (if n < t.len() { n } else { t.len() })
    &&& forall|j: int| 0 <= j < r.len() ==> (#[trigger] r[j]).0@ == t[idx[j] as int].0@ && r[j].1 == t[idx[j] as int].1
}

/// The counts of a count table.
pub open spec fn counts_of(t: Seq<(String, usize)>) -> Seq<usize> {
    t.map_values(|e: (String, usize)| e.1)
}

/// Where an entry with count `v` goes into the ranking `idx` of `c`: after
/// every leading entry whose count is at least `v`.
pub open spec fn insert_pos(c: Seq<usize>, idx: Seq<usize>, v: usize) -> nat
    decreases idx.len(),
{
    if idx.len() == 0 {
        0
    } else if c[idx[0] as int] >= v {
        1 + insert_pos(c, idx.drop_first(), v)
    } else {
        0
    }
}

/// The positions `0..n` of `c` by decreasing count, equal counts in
/// position order (a stable sort).
pub open spec fn rank_order(c: Seq<usize>, n: nat) -> Seq<usize>
    decreases n,
{
    if n == 0 {
        seq![]
    } else {
        let prev = rank_order(c, (n - 1) as nat);
        prev.insert(insert_pos(c, prev, c[n - 1]) as int, (n - 1) as usize)
    }
}

/// Entry `a` comes before entry `b`: a higher count, or the same count and
/// an earlier position.
pub open spec fn count_before(c: Seq<usize>, a: int, b: int) -> bool {
    c[a] > c[b] || (c[a] == c[b] && a < b)
}

/// `idx` lists positions of `c` by decreasing count, ties in position order.
pub open spec fn ranked_counts(c: Seq<usize>, idx: Seq<usize>) -> bool {
    &&& forall|j: int| 0 <= j < idx.len() ==> (#[trigger] idx[j]) < c.len()
    &&& forall|a: int, b: int| 0 <= a < b < idx.len() ==> count_before(c, #[trigger] idx[a] as int, #[trigger] idx[b] as int)
}

/// The positions of `counts`, ranked by decreasing count (equal counts in
/// position order).
#[verifier::rlimit(40)]
pub fn rank_positions(counts: &Vec<usize>) -> (idx: Vec<usize>)
    ensures
        idx@ == rank_order(counts@, counts@.len()),
        idx@.len() == counts@.len(),
        ranked_counts(counts@, idx@),
{
    let ghost cs = counts@;
    let mut idx: Vec<usize> = Vec::new();
    let mut m: usize = 0;
    while m < counts.len()
        invariant
            m <= cs.len(),
            cs == counts@,
            idx@ == rank_order(cs, m as nat),
            idx@.len() == m,
            ranked_counts(cs, idx@),
            forall|j: int| 0 <= j < idx@.len() ==> (#[trigger] idx@[j]) < m,
        decreases cs.len() - m,
    {
        let c = counts[m];
        let mut p: usize = 0;
        assert(idx@.skip(0) =~= idx@);
        while p < idx.len() && counts[idx[p]] >= c
            invariant
                p <= idx@.len(),
                idx@.len() == m,
                m < cs.len(),
                cs == counts@,
                c == cs[m as int],
                ranked_counts(cs, idx@),
                forall|j: int| 0 <= j < idx@.len() ==> (#[trigger] idx@[j]) < m,
                forall|a: int| 0 <= a < p ==> cs[(#[trigger] idx@[a]) as int] >= c,
                insert_pos(cs, idx@, c) == p + insert_pos(cs, idx@.skip(p as int), c),
            decreases idx@.len() - p,
        {
            assert(idx@.skip(p as int)[0] == idx@[p as int]);
            assert(idx@.skip(p as int).drop_first() =~= idx@.skip(p + 1));
            p += 1;
        }
        proof {
            if p < idx@.len() {
                assert(idx@.skip(p as int)[0] == idx@[p as int]);
            }
            assert(insert_pos(cs, idx@, c) == p);
        }
        let ghost old_idx = idx@;
        idx.insert(p, m);
        proof {
            assert(idx@ =~= old_idx.insert(p as int, m));
            assert(rank_order(cs, (m + 1) as nat) == old_idx.insert(p as int, m));
            assert forall|j: int| 0 <= j < idx@.len() implies (#[trigger] idx@[j]) < m + 1 by {
                if j < p { assert(idx@[j] == old_idx[j]); } else if j > p { assert(idx@[j] == old_idx[j - 1]); }
            }
            assert forall|a: int, b: int| 0 <= a < b < idx@.len() implies count_before(cs, #[trigger] idx@[a] as int, #[trigger] idx@[b] as int) by {
                if b < p {
                    assert(idx@[a] == old_idx[a] && idx@[b] == old_idx[b]);
                } else if b == p {
                    assert(idx@[a] == old_idx[a]);
                } else if a == p {
                    assert(idx@[b] == old_idx[b - 1]);
                    assert(p < old_idx.len());
                    assert(cs[old_idx[p as int] as int] < c);
                    if b - 1 > p {
                        assert(count_before(cs, old_idx[p as int] as int, old_idx[b - 1] as int));
                    }
                } else if a < p {
                    assert(idx@[a] == old_idx[a] && idx@[b] == old_idx[b - 1]);
                } else {
                    assert(idx@[a] == old_idx[a - 1] && idx@[b] == old_idx[b - 1]);
                }
            }
        }
        m += 1;
    }
    idx
}

/// The counts of a count table.
fn counts_vec(t: &Vec<(String, usize)>) -> (r: Vec<usize>)
    ensures
        r@ == counts_of(t@),
{
    let mut out: Vec<usize> = Vec::new();
    let mut i: usize = 0;
    while i < t.len()
        invariant
            i <= t@.len(),
            out@ == counts_of(t@).take(i as int),
        decreases t@.len() - i,
    {
        out.push(t[i].1);
        assert(counts_of(t@).take(i + 1) =~= counts_of(t@).take(i as int).push(t@[i as int].1));
        i += 1;
    }
    assert(counts_of(t@).take(t@.len() as int) =~= counts_of(t@));
    out
}

/// The entries of a count table as texts and counts.
pub open spec fn entry_views(t: Seq<(String, usize)>) -> Seq<(Seq<char>, usize)> {
    t.map_values(|e: (String, usize)| (e.0@, e.1))
}

/// The first `n` entries of a count table by decreasing count, equal
/// counts in table order.
pub open spec fn top_of(t: Seq<(String, usize)>, n: nat) -> Seq<(Seq<char>, usize)> {
    let idx = rank_order(counts_of(t), t.len());
    let k = if n < t.len() { n } else { t.len() };
    idx.take(k as int).map_values(|j: usize| (t[j as int].0@, t[j as int].1))
}

/// The first `n` entries of a count table ordered by decreasing count,
/// entries with the same count kept in table order.
pub fn top_counts(t: &Vec<(String, usize)>, n: usize) -> (r: Vec<(String, usize)>)
    ensures
        entry_views(r@) == top_of(t@, n as nat),
        exists|idx: Seq<usize>| #[trigger] top_listing(r@, t@, idx, n as nat),
{
    let counts = counts_vec(t);
    let idx = rank_positions(&counts);
    proof {
        assert forall|a: int, b: int| 0 <= a < b < idx@.len() implies ranks_before(t@, #[trigger] idx@[a] as int, #[trigger] idx@[b] as int) by {
            assert(count_before(counts@, idx@[a] as int, idx@[b] as int));
        }
    }
    let limit: usize = if n < t.len() { n } else { t.len() };
    let mut out: Vec<(String, usize)> = Vec::new();
    let mut j: usize = 0;
    while j < limit
        invariant
            j <= limit,
            limit == (if n < t@.len() { n } else { t@.len() as usize }),
            idx@.len() == t@.len(),
            idx@ == rank_order(counts_of(t@), t@.len()),
            ranked(t@, idx@),
            out@.len() == j,
            forall|k: int| 0 <= k < j ==> (#[trigger] out@[k]).0@ == t@[idx@[k] as int].0@ && out@[k].1 == t@[idx@[k] as int].1,
        decreases limit - j,
    {
        let e = &t[idx[j]];
        out.push((e.0.clone(), e.1));
        j += 1;
    }
    assert(top_listing(out@, t@, idx@, n as nat));
    assert(entry_views(out@) =~= top_of(t@, n as nat));
    out
}

// ───────────────────────────── the result ─────────────────────────────

/// Aggregated statistics of an analysis.
pub struct AnalysisResult {
    pub total_issues: usize,
    pub issues_by_level: Vec<(IssueLevel, usize)>,
    pub issues_by_type: Vec<(String, usize)>,
    pub issues_by_file: Vec<(String, Vec<Issue>)>,
    /// Issues grouped by package (monorepo / workspace support).
    pub issues_by_package: Vec<(String, Vec<Issue>)>,
    pub issues_by_code: Vec<(String, usize)>,
    pub unique_patterns: Vec<String>,
    /// Exit code of the command (`None` when nothing was executed).
    pub exit_code: Option<i32>,
    /// Whether the command failed (non-zero exit or execution error).
    pub command_failed: bool,
    /// The issues added so far, in order (exists for proofs only).
    pub log: Ghost<Seq<Issue>>,
}

impl AnalysisResult {
    /// The issues added so far, in order.
    pub open spec fn issues(&self) -> Seq<Issue> {
        self.log@
    }

    /// Every table agrees with the issues added so far.
    pub open spec fn wf(&self) -> bool {
        &&& self.total_issues == self.issues().len()
        &&& forall|l: IssueLevel| #[trigger] level_entry(self.issues_by_level@, l) == count_level(self.issues(), l)
        &&& unique_keys(self.issues_by_code@)
        &&& unique_keys(self.issues_by_type@)
        &&& forall|k: Seq<char>| #[trigger] count_entry(self.issues_by_code@, k) == count_code(self.issues(), k)
        &&& forall|k: Seq<char>| #[trigger] count_entry(self.issues_by_type@, k) == count_type(self.issues(), k)
        &&& forall|k: Seq<char>| #[trigger] issues_entry(self.issues_by_file@, k) == in_file(self.issues(), k)
        &&& group_views(self.issues_by_file@) == group_by_file(self.issues())
        &&& forall|k: Seq<char>| #[trigger] issues_entry(self.issues_by_package@, k) == in_package(self.issues(), k)
        &&& forall|k: Seq<char>| #[trigger] views(self.unique_patterns@).contains(k) == has_type(self.issues(), k)
        &&& level_sum(self.issues_by_level@) == self.total_issues
        &&& count_sum(self.issues_by_type@) == self.total_issues
        &&& list_sum(self.issues_by_file@) == self.total_issues
        &&& list_sum(self.issues_by_package@) == self.total_issues
        &&& forall|k: Seq<char>| #[trigger] views(self.unique_patterns@).contains(k) <==> lookup(self.issues_by_type@, k) is Some
    }

    /// An empty result.
    pub fn new() -> (r: AnalysisResult)
        ensures
            r.wf(),
            r.issues() == Seq::<Issue>::empty(),
            r.exit_code is None,
            !r.command_failed,
    {
        let r = AnalysisResult {
            total_issues: 0,
            issues_by_level: Vec::new(),
            issues_by_type: Vec::new(),
            issues_by_file: Vec::new(),
            issues_by_package: Vec::new(),
            issues_by_code: Vec::new(),
            unique_patterns: Vec::new(),
            exit_code: None,
            command_failed: false,
            log: Ghost(Seq::empty()),
        };
        assert forall|k: Seq<char>| #[trigger] views(r.unique_patterns@).contains(k) == has_type(r.issues(), k) by {}
        assert(group_views(r.issues_by_file@) =~= group_by_file(r.issues()));
        assert(r.issues_by_level@.map_values(|e: (IssueLevel, usize)| e.1 as nat) =~= Seq::<nat>::empty());
        assert(r.issues_by_type@.map_values(|e: (String, usize)| e.1 as nat) =~= Seq::<nat>::empty());
        assert(r.issues_by_file@.map_values(|e: (String, Vec<Issue>)| e.1@.len()) =~= Seq::<nat>::empty());
        assert(r.issues_by_package@.map_values(|e: (String, Vec<Issue>)| e.1@.len()) =~= Seq::<nat>::empty());
        r
    }

    /// The first five words of a message, joined by single spaces.
    pub fn extract_pattern(&self, message: &str) -> (r: String)
        ensures
            r@ == pattern_of(message@),
    {
        let ws = words_of(message);
        let mut first: Vec<String> = Vec::new();
        let mut i: usize = 0;
        while i < ws.len() && i < 5
            invariant
                i <= ws.len(),
                i <= 5,
                views(first@) =~= views(ws@).take(i as int),
            decreases ws.len() - i,
        {
            let w = ws[i].clone();
            let ghost f0 = first@;
            first.push(w);
            assert(views(first@) =~= views(f0).push(ws@[i as int]@));
            assert(views(first@) =~= views(ws@).take(i + 1));
            i += 1;
        }
        assert(views(first@) =~= words(message@).take(if words(message@).len() < 5 { words(message@).len() as int } else { 5 }));
        join_strings(&first, " ")
    }

    /// Adds one issue: counts it by level, by code (when it has one), by
    /// type (its code, or the pattern of its message), groups it by file and
    /// by package (`unknown` when it has none), and records its type.
    pub fn add_issue(&mut self, issue: Issue)
        requires
            old(self).wf(),
            old(self).total_issues < usize::MAX,
        ensures
            final(self).wf(),
            final(self).issues() == old(self).issues().push(issue),
            final(self).exit_code == old(self).exit_code,
            final(self).command_failed == old(self).command_failed,
    {
        let ghost log0 = self.issues();
        proof {
            lemma_count_level_bound(log0, issue.level);
            if issue.code is Some {
                lemma_count_code_bound(log0, issue.code->0@);
            }
        }
        self.total_issues += 1;
        bump_level(&mut self.issues_by_level, issue.level);
        match &issue.code {
            Some(code) => {
                bump_count(&mut self.issues_by_code, code.as_str());
            }
            None => {}
        }
        let type_key_s: String = match &issue.code {
            Some(code) => code.clone(),
            None => self.extract_pattern(issue.message.as_str()),
        };
        assert(type_key_s@ == type_key(issue));
        proof { lemma_count_type_bound(log0, type_key_s@); }
        bump_count(&mut self.issues_by_type, type_key_s.as_str());
        append_issue(&mut self.issues_by_file, issue.location.file_path.as_str(), issue.copy());
        let package_key_s: String = match &issue.package {
            Some(p) => p.clone(),
            None => String::from_str("unknown"),
        };
        assert(package_key_s@ == package_key(issue));
        append_issue(&mut self.issues_by_package, package_key_s.as_str(), issue.copy());
        insert_pattern(&mut self.unique_patterns, type_key_s);
        self.log = Ghost(log0.push(issue));
        proof {
            let log1 = log0.push(issue);
            assert(log1.drop_last() =~= log0);
            assert forall|k: Seq<char>| #[trigger] views(self.unique_patterns@).contains(k) == has_type(log1, k) by {
                if has_type(log0, k) {
                    let j = choose|j: int| 0 <= j < log0.len() && type_key(#[trigger] log0[j]) == k;
                    assert(log1[j] == log0[j]);
                }
                if has_type(log1, k) {
                    let j = choose|j: int| 0 <= j < log1.len() && type_key(#[trigger] log1[j]) == k;
                    if j < log0.len() {
                        assert(log1[j] == log0[j]);
                    }
                }
                if k == type_key(issue) {
                    assert(log1[log0.len() as int] == issue);
                }
            }
        }
    }

    /// A result holding the given issues, added in order.
    pub fn from_issues(issues: Vec<Issue>) -> (r: AnalysisResult)
        requires
            issues@.len() < usize::MAX,
        ensures
            r.wf(),
            r.issues() == issues@,
            r.exit_code is None,
            !r.command_failed,
    {
        let mut result = AnalysisResult::new();
        let mut i: usize = 0;
        while i < issues.len()
            invariant
                i <= issues@.len() < usize::MAX,
                result.wf(),
                result.issues() =~= issues@.take(i as int),
                result.exit_code is None,
                !result.command_failed,
            decreases issues@.len() - i,
        {
            result.add_issue(issues[i].copy());
            assert(issues@.take(i + 1) =~= issues@.take(i as int).push(issues@[i as int]));
            i += 1;
        }
        assert(issues@.take(issues@.len() as int) =~= issues@);
        result
    }

    /// The issues of level `l`, file after file (copies).
    pub fn issues_of_level(&self, l: IssueLevel) -> (r: Vec<Issue>)
        ensures
            r@ == of_level(flat_issues(self.issues_by_file@), l),
    {
        let t = &self.issues_by_file;
        let mut out: Vec<Issue> = Vec::new();
        let mut i: usize = 0;
        while i < t.len()
            invariant
                i <= t@.len(),
                out@ == of_level(flat_issues(t@.take(i as int)), l),
            decreases t@.len() - i,
        {
            let v = &t[i].1;
            let ghost base = flat_issues(t@.take(i as int));
            let mut j: usize = 0;
            assert(v@.take(0) =~= Seq::<Issue>::empty());
            assert(base + v@.take(0) =~= base);
            while j < v.len()
                invariant
                    i < t@.len(),
                    v == t@[i as int].1,
                    j <= v@.len(),
                    base == flat_issues(t@.take(i as int)),
                    out@ == of_level(base + v@.take(j as int), l),
                decreases v@.len() - j,
            {
                let ghost cur = base + v@.take(j as int);
                let ghost next = base + v@.take(j + 1);
                assert(next.drop_last() =~= cur);
                assert(next.last() == v@[j as int]);
                if v[j].level == l {
                    out.push(v[j].copy());
                }
                j += 1;
            }
            assert(t@.take(i + 1).drop_last() =~= t@.take(i as int));
            assert(v@.take(v@.len() as int) =~= v@);
            i += 1;
        }
        assert(t@.take(t@.len() as int) =~= t@);
        out
    }

    /// Every issue of the file table, file after file (copies).
    pub fn all_issues(&self) -> (r: Vec<Issue>)
        ensures
            r@ == flat_issues(self.issues_by_file@),
    {
        let t = &self.issues_by_file;
        let mut out: Vec<Issue> = Vec::new();
        let mut i: usize = 0;
        while i < t.len()
            invariant
                i <= t@.len(),
                out@ == flat_issues(t@.take(i as int)),
            decreases t@.len() - i,
        {
            let v = &t[i].1;
            let ghost base = flat_issues(t@.take(i as int));
            let mut j: usize = 0;
            while j < v.len()
                invariant
                    i < t@.len(),
                    v == t@[i as int].1,
                    j <= v@.len(),
                    base == flat_issues(t@.take(i as int)),
                    out@ == base + v@.take(j as int),
                decreases v@.len() - j,
            {
                out.push(v[j].copy());
                assert(base + v@.take(j + 1) =~= (base + v@.take(j as int)).push(v@[j as int]));
                j += 1;
            }
            assert(t@.take(i + 1).drop_last() =~= t@.take(i as int));
            assert(v@.take(v@.len() as int) =~= v@);
            i += 1;
        }
        assert(t@.take(t@.len() as int) =~= t@);
        out
    }

    /// Position of the `issues_by_level` entry for `l`, or the table's length.
    pub fn find_level(&self, l: IssueLevel) -> (r: usize)
        ensures
            r == level_index(self.issues_by_level@, l),
    {
        let mut i: usize = 0;
        while i < self.issues_by_level.len()
            invariant
                i <= self.issues_by_level@.len(),
                forall|j: int| 0 <= j < i ==> (#[trigger] self.issues_by_level@[j]).0 != l,
            decreases self.issues_by_level@.len() - i,
        {
            if self.issues_by_level[i].0 == l {
                proof { lemma_level_index(self.issues_by_level@, l, i as int); }
                return i;
            }
            i += 1;
        }
        proof { lemma_level_index(self.issues_by_level@, l, i as int); }
        i
    }

    /// The error issues, file after file (copies).
    pub fn errors(&self) -> (r: Vec<Issue>)
        ensures
            r@ == of_level(flat_issues(self.issues_by_file@), IssueLevel::Error),
            self.wf() ==> r@.len() == level_entry(self.issues_by_level@, IssueLevel::Error),
    {
        proof {
            if self.wf() {
                lemma_level_lists_match_counts(*self, IssueLevel::Error);
            }
        }
        self.issues_of_level(IssueLevel::Error)
    }

    /// The warning issues, file after file (copies).
    pub fn warnings(&self) -> (r: Vec<Issue>)
        ensures
            r@ == of_level(flat_issues(self.issues_by_file@), IssueLevel::Warning),
            self.wf() ==> r@.len() == level_entry(self.issues_by_level@, IssueLevel::Warning),
    {
        proof {
            if self.wf() {
                lemma_level_lists_match_counts(*self, IssueLevel::Warning);
            }
        }
        self.issues_of_level(IssueLevel::Warning)
    }

    /// Applies `filter_warnings`, `filter_paths` and `max_issues`: without
    /// any of them the result is returned as it is; otherwise a fresh result
    /// holds, file after file, the issues of the files whose path contains
    /// one of the filters (every file when there are none), warnings left out
    /// when asked, and no more than `max_issues` of them (0 is unlimited).
    pub fn filter_by_options(self, options: &AnalyzeOptions) -> (r: AnalysisResult)
        ensures
            !needs_filtering(*options) ==> r == self,
            self.wf() && needs_filtering(*options) ==> r.issues() == first_n(
                kept_groups(group_by_file(self.issues()), options.filter_paths@, options.filter_warnings),
                issue_limit(*options),
            ),
            needs_filtering(*options) ==> {
                &&& r.wf()
                &&& r.issues() == first_n(kept_issues(self.issues_by_file@, options.filter_paths@, options.filter_warnings), issue_limit(*options))
                &&& r.exit_code is None
                &&& !r.command_failed
            },
    {
        let needs = options.filter_warnings || options.filter_paths.len() > 0 || options.max_issues.is_some();
        if !needs {
            return self;
        }
        let max: usize = match options.max_issues {
            Some(n) => if n > 0 { n } else { usize::MAX },
            None => usize::MAX,
        };
        let ghost fp = options.filter_paths@;
        let ghost nw = options.filter_warnings;
        let t = &self.issues_by_file;
        let ghost all = kept_issues(t@, fp, nw);
        proof {
            lemma_kept_groups(t@, fp, nw);
        }
        let mut filtered = AnalysisResult::new();
        let mut i: usize = 0;
        while i < t.len()
            invariant
                i <= t@.len(),
                max == issue_limit(*options),
                needs_filtering(*options),
                t@ == self.issues_by_file@,
                fp == options.filter_paths@,
                nw == options.filter_warnings,
                all == kept_issues(t@, fp, nw),
                all == kept_groups(group_views(t@), fp, nw),
                self.wf() ==> group_views(t@) == group_by_file(self.issues()),
                filtered.wf(),
                filtered.exit_code is None,
                !filtered.command_failed,
                filtered.issues() == kept_issues(t@.take(i as int), fp, nw),
                filtered.issues().len() <= max,
            decreases t@.len() - i,
        {
            let file = t[i].0.as_str();
            let mut selected = options.filter_paths.len() == 0;
            let mut k: usize = 0;
            while k < options.filter_paths.len() && !selected
                invariant
                    k <= options.filter_paths@.len(),
                    selected ==> path_selected(file@, options.filter_paths@),
                    !selected ==> options.filter_paths@.len() > 0 && forall|m: int| 0 <= m < k ==> !contains(file@, (#[trigger] options.filter_paths@[m])@),
                decreases options.filter_paths@.len() - k,
            {
                if str_contains(file, options.filter_paths[k].as_str()) {
                    selected = true;
                }
                k += 1;
            }
            assert(selected == path_selected(file@, fp));
            assert(t@.take(i + 1).drop_last() =~= t@.take(i as int));
            if selected {
                let v = &t[i].1;
                let ghost base = kept_issues(t@.take(i as int), fp, nw);
                let mut j: usize = 0;
                assert(v@.take(0) =~= Seq::<Issue>::empty());
                assert(base + drop_warnings(v@.take(0), nw) =~= base);
                while j < v.len()
                    invariant
                        i < t@.len(),
                        v == t@[i as int].1,
                        path_selected(t@[i as int].0@, fp),
                        j <= v@.len(),
                        max == issue_limit(*options),
                        needs_filtering(*options),
                        t@ == self.issues_by_file@,
                        fp == options.filter_paths@,
                        nw == options.filter_warnings,
                        all == kept_issues(t@, fp, nw),
                        all == kept_groups(group_views(t@), fp, nw),
                        self.wf() ==> group_views(t@) == group_by_file(self.issues()),
                        base == kept_issues(t@.take(i as int), fp, nw),
                        filtered.wf(),
                        filtered.exit_code is None,
                        !filtered.command_failed,
                        filtered.issues() == base + drop_warnings(v@.take(j as int), nw),
                        filtered.issues().len() <= max,
                    decreases v@.len() - j,
                {
                    if filtered.total_issues >= max {
                        proof {
                            lemma_collected_prefix(t@, i as int, j as int, fp, nw);
                            assert(filtered.issues().len() == max);
                            assert(all.take(max as int) =~= filtered.issues());
                            assert(first_n(all, max as nat) == filtered.issues());
                        }
                        return filtered;
                    }
                    let ghost before = filtered.issues();
                    assert(v@.take(j + 1).drop_last() =~= v@.take(j as int));
                    if !(options.filter_warnings && v[j].level == IssueLevel::Warning) {
                        filtered.add_issue(v[j].copy());
                        assert(filtered.issues() =~= base + drop_warnings(v@.take(j + 1), nw));
                    } else {
                        assert(filtered.issues() =~= base + drop_warnings(v@.take(j + 1), nw));
                    }
                    j += 1;
                }
                assert(v@.take(v@.len() as int) =~= v@);
            }
            i += 1;
        }
        assert(t@.take(t@.len() as int) =~= t@);
        filtered
    }

    /// The `n` most frequent error codes with their counts, by decreasing
    /// count (codes with the same count in the order they were first seen).
    pub fn top_error_codes(&self, n: usize) -> (r: Vec<(String, usize)>)
        ensures
            entry_views(r@) == top_of(self.issues_by_code@, n as nat),
            exists|idx: Seq<usize>| #[trigger] top_listing(r@, self.issues_by_code@, idx, n as nat),
            self.wf() ==> forall|a: int, b: int| 0 <= a < b < r@.len() ==> (#[trigger] r@[a]).0@ != (#[trigger] r@[b]).0@,
    {
        let r = top_counts(&self.issues_by_code, n);
        proof {
            if self.wf() {
                let t = self.issues_by_code@;
                let idx = choose|idx: Seq<usize>| #[trigger] top_listing(r@, t, idx, n as nat);
                assert forall|a: int, b: int| 0 <= a < b < r@.len() implies (#[trigger] r@[a]).0@ != (#[trigger] r@[b]).0@ by {
                    assert(ranks_before(t, idx[a] as int, idx[b] as int));
                    let (x, y) = (idx[a] as int, idx[b] as int);
                    if x < y {
                        assert(t[x].0@ != t[y].0@);
                    } else {
                        assert(t[y].0@ != t[x].0@);
                    }
                }
            }
        }
        r
    }

    /// Number of error issues.
    pub fn error_count(&self) -> (r: usize)
        ensures
            r == level_entry(self.issues_by_level@, IssueLevel::Error),
            self.wf() ==> r == count_level(self.issues(), IssueLevel::Error),
    {
        self.level_count(IssueLevel::Error)
    }

    /// Number of warning issues.
    pub fn warning_count(&self) -> (r: usize)
        ensures
            r == level_entry(self.issues_by_level@, IssueLevel::Warning),
            self.wf() ==> r == count_level(self.issues(), IssueLevel::Warning),
    {
        self.level_count(IssueLevel::Warning)
    }

    /// Number of issues of a level (the `issues_by_level` entry, 0 when absent).
    pub fn level_count(&self, l: IssueLevel) -> (r: usize)
        ensures
            r == level_entry(self.issues_by_level@, l),
    {
        let mut i: usize = 0;
        while i < self.issues_by_level.len()
            invariant
                i <= self.issues_by_level@.len(),
                forall|j: int| 0 <= j < i ==> (#[trigger] self.issues_by_level@[j]).0 != l,
            decreases self.issues_by_level@.len() - i,
        {
            if self.issues_by_level[i].0 == l {
                proof { lemma_level_index(self.issues_by_level@, l, i as int); }
                return self.issues_by_level[i].1;
            }
            i += 1;
        }
        proof { lemma_level_index(self.issues_by_level@, l, i as int); }
        0
    }

    /// The count stored under `code` in `issues_by_code` (0 when absent).
    pub fn code_count(&self, code: &str) -> (r: usize)
        ensures
            r == count_entry(self.issues_by_code@, code@),
    {
        match crate::config::modules::lookup_key(&self.issues_by_code, code) {
            Some(v) => *v,
            None => 0,
        }
    }

    /// The count stored under `t` in `issues_by_type` (0 when absent).
    pub fn type_count(&self, t: &str) -> (r: usize)
        ensures
            r == count_entry(self.issues_by_type@, t@),
    {
        match crate::config::modules::lookup_key(&self.issues_by_type, t) {
            Some(v) => *v,
            None => 0,
        }
    }

    /// The issues recorded for a file, if any.
    pub fn file_issues(&self, file: &str) -> (r: Option<&Vec<Issue>>)
        ensures
            match lookup(self.issues_by_file@, file@) {
                Some(v) => r is Some && *r->0 == v,
                None => r is None,
            },
    {
        crate::config::modules::lookup_key(&self.issues_by_file, file)
    }

    /// The issues recorded for a package, if any.
    pub fn package_issues(&self, package: &str) -> (r: Option<&Vec<Issue>>)
        ensures
            match lookup(self.issues_by_package@, package@) {
                Some(v) => r is Some && *r->0 == v,
                None => r is None,
            },
    {
        crate::config::modules::lookup_key(&self.issues_by_package, package)
    }

    /// Whether a pattern has been recorded as an issue type.
    pub fn has_pattern(&self, t: &str) -> (r: bool)
        ensures
            r == views(self.unique_patterns@).contains(t@),
    {
        let mut i: usize = 0;
        while i < self.unique_patterns.len()
            invariant
                i <= self.unique_patterns@.len(),
                forall|j: int| 0 <= j < i ==> (#[trigger] self.unique_patterns@[j])@ != t@,
            decreases self.unique_patterns@.len() - i,
        {
            if crate::text::str_eq(self.unique_patterns[i].as_str(), t) {
                assert(views(self.unique_patterns@)[i as int] == t@);
                return true;
            }
            i += 1;
        }
        false
    }
}

} // verus!
