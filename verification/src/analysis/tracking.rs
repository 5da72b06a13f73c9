//! Records of analysis runs, kept in a ring buffer of the most recent ones,
//! and their aggregate statistics.

use vstd::prelude::*;

verus! {

/// One analysis run.
#[derive(Debug, Clone)]
pub struct AnalysisRecord {
    pub tech_stack: String,
    pub command: String,
    pub duration_ms: u64,
    pub exit_code: Option<i32>,
    pub issue_count: usize,
    pub output_bytes: usize,
    pub success: bool,
}

/// Totals over the recorded runs.
#[derive(Debug, Clone, Copy)]
pub struct TrackingStats {
    pub total_runs: usize,
    pub successful_runs: usize,
    pub failed_runs: usize,
    pub total_issues: usize,
    pub total_duration_ms: u64,
    pub total_output_bytes: usize,
}

impl Default for TrackingStats {
    fn default() -> (r: TrackingStats)
        ensures
            r.total_runs == 0 && r.successful_runs == 0 && r.failed_runs == 0,
            r.total_issues == 0 && r.total_duration_ms == 0 && r.total_output_bytes == 0,
    {
        TrackingStats {
            total_runs: 0,
            successful_runs: 0,
            failed_runs: 0,
            total_issues: 0,
            total_duration_ms: 0,
            total_output_bytes: 0,
        }
    }
}

/// How many runs the tracker keeps.
pub const MAX_RECORDS: usize = 100;

/// Number of successful runs among `rs`.
pub open spec fn successes(rs: Seq<AnalysisRecord>) -> nat
    decreases rs.len(),
{
    if rs.len() == 0 { 0 } else { successes(rs.drop_last()) + if rs.last().success { 1nat } else { 0nat } }
}

/// Sum of the issue counts of `rs`.
pub open spec fn issue_sum(rs: Seq<AnalysisRecord>) -> nat
    decreases rs.len(),
{
    if rs.len() == 0 { 0 } else { issue_sum(rs.drop_last()) + rs.last().issue_count as nat }
}

/// Sum of the durations of `rs`.
pub open spec fn duration_sum(rs: Seq<AnalysisRecord>) -> nat
    decreases rs.len(),
{
    if rs.len() == 0 { 0 } else { duration_sum(rs.drop_last()) + rs.last().duration_ms as nat }
}

/// Sum of the output sizes of `rs`.
pub open spec fn output_sum(rs: Seq<AnalysisRecord>) -> nat
    decreases rs.len(),
{
    if rs.len() == 0 { 0 } else { output_sum(rs.drop_last()) + rs.last().output_bytes as nat }
}

/// The statistics of a list of runs.
pub open spec fn stats_of(s: TrackingStats, rs: Seq<AnalysisRecord>) -> bool {
    &&& s.total_runs == rs.len()
    &&& s.successful_runs == successes(rs)
    &&& s.failed_runs == rs.len() - successes(rs)
    &&& s.total_issues == issue_sum(rs)
    &&& s.total_duration_ms == duration_sum(rs)
    &&& s.total_output_bytes == output_sum(rs)
}

proof fn lemma_successes_bound(rs: Seq<AnalysisRecord>)
    ensures
        successes(rs) <= rs.len(),
    decreases rs.len(),
{
    if rs.len() > 0 {
        lemma_successes_bound(rs.drop_last());
    }
}

/// The runs of `log` that a ring of `MAX_RECORDS` slots keeps, in slot
/// order: all of them until the ring is full, then the most recent ones,
/// the oldest at slot `log.len() % MAX_RECORDS`.
pub open spec fn ring_of(log: Seq<AnalysisRecord>) -> Seq<AnalysisRecord> {
    if log.len() <= MAX_RECORDS {
        log
    } else {
        Seq::new(MAX_RECORDS as nat, |p: int| {
            let next = (log.len() % (MAX_RECORDS as nat)) as int;
            let age = if p >= next { p - next } else { p - next + MAX_RECORDS };
            log[log.len() - MAX_RECORDS + age]
        })
    }
}

/// The ring keeps the last `min(n, MAX_RECORDS)` of `n` runs: all of them,
/// in order, while there is room; after that the most recent
/// `MAX_RECORDS`, the same runs as the tail of the history counted as a
/// multiset.
pub proof fn lemma_ring_keeps_recent(log: Seq<AnalysisRecord>)
    ensures
        ring_of(log).len() == (if log.len() <= MAX_RECORDS { log.len() } else { MAX_RECORDS as nat }),
        log.len() <= MAX_RECORDS ==> ring_of(log) == log,
        ring_of(log).to_multiset() == log.subrange(log.len() - ring_of(log).len(), log.len() as int).to_multiset(),
{
    let n = log.len();
    if n <= MAX_RECORDS {
        assert(log.subrange(0, n as int) =~= log);
    } else {
        let m = MAX_RECORDS as int;
        let next = (n % (MAX_RECORDS as nat)) as int;
        let l = log.subrange(n - m, n as int);
        let a = l.subrange(0, m - next);
        let b = l.subrange(m - next, m);
        assert(ring_of(log) =~= b + a) by {
            assert forall|p: int| 0 <= p < m implies #[trigger] ring_of(log)[p] == (b + a)[p] by {
                if p < next {
                    assert((b + a)[p] == b[p]);
                } else {
                    assert((b + a)[p] == a[p - next]);
                }
            }
        }
        assert(l =~= a + b);
        vstd::seq_lib::lemma_seq_union_to_multiset_commutative(b, a);
    }
}

/// The most recent runs (at most `MAX_RECORDS`), in a ring buffer.
pub struct Tracker {
    records: Vec<AnalysisRecord>,
    next_index: usize,
    /// Every run recorded, oldest first.
    log: Ghost<Seq<AnalysisRecord>>,
}

impl Tracker {
    /// Every run recorded so far, oldest first.
    pub closed spec fn history(&self) -> Seq<AnalysisRecord> {
        self.log@
    }

    /// The runs kept, in slot order.
    pub closed spec fn kept(&self) -> Seq<AnalysisRecord> {
        self.records@
    }

    /// The ring holds what `ring_of` says of the history.
    pub closed spec fn wf(&self) -> bool {
        &&& self.records@ == ring_of(self.log@)
        &&& self.next_index < MAX_RECORDS
        &&& (self.log@.len() <= MAX_RECORDS ==> self.next_index == 0)
        &&& (self.log@.len() > MAX_RECORDS ==> self.next_index == self.log@.len() % (MAX_RECORDS as nat))
        &&& (self.log@.len() == MAX_RECORDS ==> self.next_index == 0)
    }

    /// The kept runs are the ring of the history: the last
    /// `min(n, MAX_RECORDS)` runs, in order while the ring is not full and
    /// as a multiset after.
    pub proof fn lemma_kept(&self)
        requires
            self.wf(),
        ensures
            self.kept() == ring_of(self.history()),
            self.kept().len() <= MAX_RECORDS,
            self.kept().len() == (if self.history().len() <= MAX_RECORDS { self.history().len() } else { MAX_RECORDS as nat }),
            self.history().len() <= MAX_RECORDS ==> self.kept() == self.history(),
            self.kept().to_multiset() == self.history().subrange(
                self.history().len() - self.kept().len(), self.history().len() as int).to_multiset(),
    {
        lemma_ring_keeps_recent(self.log@);
    }

    /// An empty tracker.
    pub fn new() -> (r: Tracker)
        ensures
            r.wf(),
            r.history() == Seq::<AnalysisRecord>::empty(),
    {
        Tracker { records: Vec::new(), next_index: 0, log: Ghost(Seq::empty()) }
    }

    /// Records a run: appended while there is room, else written over the
    /// oldest kept run.
    pub fn record(&mut self, record: AnalysisRecord)
        requires
            old(self).wf(),
        ensures
            final(self).wf(),
            final(self).history() == old(self).history().push(record),
    {
        let ghost log0 = self.log@;
        let ghost log1 = log0.push(record);
        if self.records.len() < MAX_RECORDS {
            self.records.push(record);
            self.log = Ghost(log1);
            proof {
                if log1.len() == MAX_RECORDS {
                    assert(self.next_index == 0);
                }
            }
        } else {
            let ghost r0 = self.records@;
            let i = self.next_index;
            self.records.set(i, record);
            self.next_index = (self.next_index + 1) % MAX_RECORDS;
            self.log = Ghost(log1);
            proof {
                assert(log0.len() >= MAX_RECORDS);
                let n0 = log0.len();
                let n1 = log1.len();
                assert(i == n0 % (MAX_RECORDS as nat)) by {
                    if n0 == MAX_RECORDS {
                        assert(n0 % (MAX_RECORDS as nat) == 0);
                    }
                }
                assert(self.next_index == n1 % (MAX_RECORDS as nat)) by {
                    assert((n0 + 1) % (MAX_RECORDS as nat) == (n0 % (MAX_RECORDS as nat) + 1) % (MAX_RECORDS as nat)) by (nonlinear_arith);
                }
                assert forall|p: int| 0 <= p < MAX_RECORDS implies #[trigger] self.records@[p] == ring_of(log1)[p] by {
                    let next0 = (n0 % (MAX_RECORDS as nat)) as int;
                    let next1 = (n1 % (MAX_RECORDS as nat)) as int;
                    if p == i {
                        assert(self.records@[p] == record);
                    } else {
                        assert(self.records@[p] == r0[p]);
                        if n0 == MAX_RECORDS {
                            assert(r0[p] == log0[p]);
                        }
                    }
                }
                assert(self.records@ =~= ring_of(log1));
            }
        }
    }

    /// Totals over the kept runs.
    pub fn stats(&self) -> (r: TrackingStats)
        requires
            self.wf(),
            issue_sum(self.kept()) <= usize::MAX,
            duration_sum(self.kept()) <= u64::MAX,
            output_sum(self.kept()) <= usize::MAX,
        ensures
            stats_of(r, self.kept()),
            r.total_runs == r.successful_runs + r.failed_runs,
    {
        proof { lemma_successes_bound(self.records@); }
        let mut s = TrackingStats::default();
        let mut i: usize = 0;
        while i < self.records.len()
            invariant
                i <= self.records@.len() <= MAX_RECORDS,
                stats_of(s, self.records@.take(i as int)),
                issue_sum(self.records@) <= usize::MAX,
                duration_sum(self.records@) <= u64::MAX,
                output_sum(self.records@) <= usize::MAX,
            decreases self.records@.len() - i,
        {
            let r = &self.records[i];
            let ghost pre = self.records@.take(i as int);
            let ghost cur = self.records@.take(i + 1);
            assert(cur.drop_last() =~= pre);
            proof {
                lemma_prefix_sums(self.records@, i + 1);
                lemma_successes_bound(pre);
            }
            s.total_runs = s.total_runs + 1;
            if r.success {
                s.successful_runs = s.successful_runs + 1;
            } else {
                s.failed_runs = s.failed_runs + 1;
            }
            s.total_issues = s.total_issues + r.issue_count;
            s.total_duration_ms = s.total_duration_ms + r.duration_ms;
            s.total_output_bytes = s.total_output_bytes + r.output_bytes;
            i += 1;
        }
        assert(self.records@.take(self.records@.len() as int) =~= self.records@);
        s
    }

    /// The kept runs, in slot order.
    pub fn records(&self) -> (r: &Vec<AnalysisRecord>)
        ensures
            r@ == self.kept(),
    {
        &self.records
    }
}

/// The sums over a prefix are at most the sums over the whole list.
proof fn lemma_prefix_sums(rs: Seq<AnalysisRecord>, n: int)
    requires
        0 <= n <= rs.len(),
    ensures
        issue_sum(rs.take(n)) <= issue_sum(rs),
        duration_sum(rs.take(n)) <= duration_sum(rs),
        output_sum(rs.take(n)) <= output_sum(rs),
    decreases rs.len() - n,
{
    if n == rs.len() {
        assert(rs.take(n) =~= rs);
    } else {
        lemma_prefix_sums(rs, n + 1);
        assert(rs.take(n + 1).drop_last() =~= rs.take(n));
    }
}

} // verus!
