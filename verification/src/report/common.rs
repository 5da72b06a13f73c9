//! Pieces shared by the reporters: numbers, level icons, issue locations,
//! rankings of files and packages, and grouping of issues by file.

use vstd::prelude::*;
use crate::analysis::result::{group_by_file, group_index, group_views, lemma_group_index, rank_order, rank_positions};
use crate::analysis::types::{Issue, IssueLevel, Location};
use crate::config::modules::{find_key, key_index, lemma_key_index_props};
use crate::text::{decimal, decimal_string};

verus! {

/// The decimal text of a count.
pub open spec fn num(n: nat) -> Seq<char> {
    decimal(n)
}

/// The decimal text of a count.
pub fn num_string(n: usize) -> (r: String)
    ensures
        r@ == num(n as nat),
{
    decimal_string(n as u64)
}

/// The icon that reports show for a level.
pub open spec fn level_icon(l: IssueLevel) -> Seq<char> {
    match l {
        IssueLevel::Error => "❌"@,
        IssueLevel::Warning => "⚠️"@,
        IssueLevel::Info => "ℹ️"@,
        IssueLevel::Hint => "💡"@,
    }
}

/// The icon that reports show for a level.
pub fn icon_of(l: IssueLevel) -> (r: &'static str)
    ensures
        r@ == level_icon(l),
{
    match l {
        IssueLevel::Error => "❌",
        IssueLevel::Warning => "⚠️",
        IssueLevel::Info => "ℹ️",
        IssueLevel::Hint => "💡",
    }
}

/// Where an issue is, as reports show it: `line:column`, `line`, or `-`.
pub open spec fn location_text(l: Location) -> Seq<char> {
    match (l.line_number, l.column_number) {
        (Some(line), Some(col)) => num(line as nat) + ":"@ + num(col as nat),
        (Some(line), None) => num(line as nat),
        _ => "-"@,
    }
}

/// Where an issue is, as reports show it.
pub fn location_string(l: &Location) -> (r: String)
    ensures
        r@ == location_text(*l),
{
    match (l.line_number, l.column_number) {
        (Some(line), Some(col)) => {
            let mut s = decimal_string(line as u64);
            s.append(":");
            let c = decimal_string(col as u64);
            s.append(c.as_str());
            s
        },
        (Some(line), None) => decimal_string(line as u64),
        _ => String::from_str("-"),
    }
}

/// The sizes of the groups of a grouping.
pub open spec fn group_sizes(g: Seq<(Seq<char>, Seq<Issue>)>) -> Seq<usize> {
    g.map_values(|e: (Seq<char>, Seq<Issue>)| e.1.len() as usize)
}

/// The positions of a grouping by decreasing group size (equal sizes in
/// grouping order).
pub open spec fn group_rank(g: Seq<(Seq<char>, Seq<Issue>)>) -> Seq<usize> {
    rank_order(group_sizes(g), g.len())
}

/// The positions of a grouping table by decreasing group size.
pub fn rank_groups(t: &Vec<(String, Vec<Issue>)>) -> (r: Vec<usize>)
    ensures
        r@ == group_rank(group_views(t@)),
        r@.len() == t@.len(),
        forall|j: int| 0 <= j < r@.len() ==> (#[trigger] r@[j]) < t@.len(),
{
    let ghost gs = group_sizes(group_views(t@));
    let mut sizes: Vec<usize> = Vec::new();
    let mut i: usize = 0;
    while i < t.len()
        invariant
            i <= t@.len(),
            gs == group_sizes(group_views(t@)),
            sizes@ == gs.take(i as int),
        decreases t@.len() - i,
    {
        sizes.push(t[i].1.len());
        assert(gs[i as int] == t@[i as int].1@.len() as usize);
        assert(gs.take(i + 1) =~= gs.take(i as int).push(t@[i as int].1@.len() as usize));
        i += 1;
    }
    assert(gs.take(t@.len() as int) =~= gs);
    let r = rank_positions(&sizes);
    r
}

/// The issues grouped by file (see `group_by_file`).
pub fn group_issues_by_file(issues: &Vec<Issue>) -> (r: Vec<(String, Vec<Issue>)>)
    ensures
        group_views(r@) == group_by_file(issues@),
{
    let mut g: Vec<(String, Vec<Issue>)> = Vec::new();
    let mut i: usize = 0;
    while i < issues.len()
        invariant
            i <= issues@.len(),
            group_views(g@) == group_by_file(issues@.take(i as int)),
        decreases issues@.len() - i,
    {
        let x = issues[i].copy();
        let ghost g0 = g@;
        assert(issues@.take(i + 1).drop_last() =~= issues@.take(i as int));
        let k = find_key(&g, x.location.file_path.as_str());
        proof {
            lemma_group_index(g0, x.location.file_path@);
        }
        if k < g.len() {
            let mut entry = g.remove(k);
            entry.1.push(x);
            g.insert(k, entry);
            proof {
                assert(g@ =~= g0.update(k as int, g@[k as int]));
                assert(group_views(g@) =~= group_views(g0).update(k as int, (group_views(g0)[k as int].0, group_views(g0)[k as int].1.push(issues@[i as int]))));
            }
        } else {
            let mut v: Vec<Issue> = Vec::new();
            let path = x.location.file_path.clone();
            v.push(x);
            g.push((path, v));
            proof {
                assert(group_views(g@) =~= group_views(g0).push((issues@[i as int].location.file_path@, seq![issues@[i as int]])));
            }
        }
        i += 1;
    }
    assert(issues@.take(issues@.len() as int) =~= issues@);
    g
}

} // verus!
