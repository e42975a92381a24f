use vstd::prelude::*;
use crate::detector::IssueSeverity;
use crate::engine::{found_issues, issue_of, DetectorOutcome, Issue};

verus! {

/// The issues of `s` whose severity is `sev`, in order.
pub open spec fn bucket(s: Seq<Issue>, sev: IssueSeverity) -> Seq<Issue>
    decreases s.len(),
{
    if s.len() == 0 {
        Seq::empty()
    } else {
        let prev = bucket(s.drop_last(), sev);
        if s.last().severity == sev {
            prev.push(s.last())
        } else {
            prev
        }
    }
}

/// How many issues each severity holds.
#[derive(Debug, Clone, Copy, PartialEq, Eq, Structural)]
pub struct IssueCount {
    pub critical: usize,
    pub high: usize,
    pub medium: usize,
    pub low: usize,
    pub nc: usize,
}

/// The issues of one run, bucketed by severity, each bucket in run order.
#[derive(Debug)]
pub struct Report {
    pub criticals: Vec<Issue>,
    pub highs: Vec<Issue>,
    pub mediums: Vec<Issue>,
    pub lows: Vec<Issue>,
    pub ncs: Vec<Issue>,
}

/// Groups the results of a run by severity, keeping their order within each group.
pub fn aggregate(results: Vec<Issue>) -> (r: Report)
    ensures
        r.criticals@ == bucket(results@, IssueSeverity::Critical),
        r.highs@ == bucket(results@, IssueSeverity::High),
        r.mediums@ == bucket(results@, IssueSeverity::Medium),
        r.lows@ == bucket(results@, IssueSeverity::Low),
        r.ncs@ == bucket(results@, IssueSeverity::NC),
{
    let ghost all = results@;
    let mut rest = results;
    let n = rest.len();
    let mut r = Report {
        criticals: Vec::new(),
        highs: Vec::new(),
        mediums: Vec::new(),
        lows: Vec::new(),
        ncs: Vec::new(),
    };
    let mut i: usize = 0;
    while rest.len() > 0
        invariant
            i <= all.len(),
            all.len() == n,
            rest@ == all.subrange(i as int, all.len() as int),
            r.criticals@ == bucket(all.subrange(0, i as int), IssueSeverity::Critical),
            r.highs@ == bucket(all.subrange(0, i as int), IssueSeverity::High),
            r.mediums@ == bucket(all.subrange(0, i as int), IssueSeverity::Medium),
            r.lows@ == bucket(all.subrange(0, i as int), IssueSeverity::Low),
            r.ncs@ == bucket(all.subrange(0, i as int), IssueSeverity::NC),
        decreases rest@.len(),
    {
        let issue = rest.remove(0);
        proof {
            assert(issue == all[i as int]);
            assert(all.subrange(0, i + 1).drop_last() =~= all.subrange(0, i as int));
            assert(rest@ =~= all.subrange(i + 1, all.len() as int));
        }
        match issue.severity {
            IssueSeverity::Critical => r.criticals.push(issue),
            IssueSeverity::High => r.highs.push(issue),
            IssueSeverity::Medium => r.mediums.push(issue),
            IssueSeverity::Low => r.lows.push(issue),
            IssueSeverity::NC => r.ncs.push(issue),
        }
        i += 1;
    }
    proof {
        assert(all.subrange(0, i as int) =~= all);
    }
    r
}

impl Report {
    /// The number of issues in each bucket.
    pub fn issue_count(&self) -> (r: IssueCount)
        ensures
            r.critical == self.criticals@.len(),
            r.high == self.highs@.len(),
            r.medium == self.mediums@.len(),
            r.low == self.lows@.len(),
            r.nc == self.ncs@.len(),
    {
        IssueCount {
            critical: self.criticals.len(),
            high: self.highs.len(),
            medium: self.mediums.len(),
            low: self.lows.len(),
            nc: self.ncs.len(),
        }
    }
}

/// Aggregation partitions the results: every issue of a bucket has that
/// bucket's severity and comes from the results, every result lands in the
/// bucket of its own severity, and the five buckets together hold exactly as
/// many issues as the results.
pub proof fn lemma_aggregation_partition(s: Seq<Issue>)
    ensures
        forall|sev: IssueSeverity, j: int|
            0 <= j < bucket(s, sev).len() ==> (#[trigger] bucket(s, sev)[j]).severity == sev
                && s.contains(bucket(s, sev)[j]),
        forall|i: int| 0 <= i < s.len() ==> bucket(s, (#[trigger] s[i]).severity).contains(s[i]),
        bucket(s, IssueSeverity::Critical).len() + bucket(s, IssueSeverity::High).len()
            + bucket(s, IssueSeverity::Medium).len() + bucket(s, IssueSeverity::Low).len()
            + bucket(s, IssueSeverity::NC).len() == s.len(),
    decreases s.len(),
{
    if s.len() > 0 {
        let p = s.drop_last();
        lemma_aggregation_partition(p);
        assert forall|sev: IssueSeverity, j: int|
            0 <= j < bucket(s, sev).len() implies (#[trigger] bucket(s, sev)[j]).severity == sev
                && s.contains(bucket(s, sev)[j]) by {
            if j < bucket(p, sev).len() {
                assert(bucket(s, sev)[j] == bucket(p, sev)[j]);
                let k = choose|k: int| 0 <= k < p.len() && p[k] == bucket(p, sev)[j];
                assert(s[k] == p[k]);
            } else {
                assert(s[s.len() - 1] == s.last());
            }
        }
        assert forall|i: int| 0 <= i < s.len() implies bucket(s, (#[trigger] s[i]).severity).contains(s[i]) by {
            let sev = s[i].severity;
            if i < s.len() - 1 {
                assert(p[i] == s[i]);
                assert(bucket(p, sev).contains(p[i]));
                let k = choose|k: int| 0 <= k < bucket(p, sev).len() && bucket(p, sev)[k] == p[i];
                assert(bucket(s, sev)[k] == s[i]);
            } else {
                let b = bucket(s, sev);
                assert(b[b.len() - 1] == s[i]);
            }
        }
    }
}

proof fn lemma_found_issues(o: Seq<DetectorOutcome>)
    ensures
        forall|i: int| 0 <= i < o.len() && (#[trigger] o[i]).status is Found ==> found_issues(o).contains(issue_of(o[i])),
        forall|j: int|
            0 <= j < found_issues(o).len() ==> exists|i: int|
                0 <= i < o.len() && o[i].status is Found && #[trigger] found_issues(o)[j] == issue_of(o[i]),
    decreases o.len(),
{
    if o.len() > 0 {
        let p = o.drop_last();
        lemma_found_issues(p);
        let f = found_issues(o);
        let fp = found_issues(p);
        assert forall|i: int| 0 <= i < o.len() && (#[trigger] o[i]).status is Found implies f.contains(issue_of(o[i])) by {
            if i < o.len() - 1 {
                assert(o[i] == p[i]);
                assert(fp.contains(issue_of(p[i])));
                let k = choose|k: int| 0 <= k < fp.len() && fp[k] == issue_of(p[i]);
                assert(f[k] == fp[k]);
            } else {
                assert(f[f.len() - 1] == issue_of(o[i]));
            }
        }
        assert forall|j: int| 0 <= j < f.len() implies exists|i: int|
            0 <= i < o.len() && o[i].status is Found && #[trigger] f[j] == issue_of(o[i]) by {
            if j < fp.len() {
                assert(f[j] == fp[j]);
                let i = choose|i: int| 0 <= i < p.len() && p[i].status is Found && fp[j] == issue_of(p[i]);
                assert(o[i] == p[i]);
            } else {
                assert(f[j] == issue_of(o[o.len() - 1]));
            }
        }
    }
}

/// Aggregating a run's results partitions the triggered detectors: each
/// detector whose pass found something lands, with its findings, in the
/// bucket of its declared severity, and every issue of a bucket is such a
/// detector's, with that bucket's severity.
pub proof fn lemma_report_partitions_triggered(o: Seq<DetectorOutcome>)
    ensures
        forall|i: int|
            0 <= i < o.len() && (#[trigger] o[i]).status is Found ==> bucket(found_issues(o), o[i].severity).contains(
                issue_of(o[i]),
            ),
        forall|sev: IssueSeverity, j: int|
            0 <= j < bucket(found_issues(o), sev).len() ==> (#[trigger] bucket(found_issues(o), sev)[j]).severity == sev
                && exists|i: int| 0 <= i < o.len() && o[i].status is Found && bucket(found_issues(o), sev)[j] == issue_of(o[i]),
{
    let f = found_issues(o);
    lemma_found_issues(o);
    lemma_aggregation_partition(f);
    assert forall|i: int| 0 <= i < o.len() && (#[trigger] o[i]).status is Found implies bucket(f, o[i].severity).contains(issue_of(o[i])) by {
        assert(f.contains(issue_of(o[i])));
        let k = choose|k: int| 0 <= k < f.len() && f[k] == issue_of(o[i]);
        assert(bucket(f, f[k].severity).contains(f[k]));
    }
    assert forall|sev: IssueSeverity, j: int| 0 <= j < bucket(f, sev).len() implies (#[trigger] bucket(f, sev)[j]).severity == sev
        && exists|i: int| 0 <= i < o.len() && o[i].status is Found && bucket(f, sev)[j] == issue_of(o[i]) by {
        assert(f.contains(bucket(f, sev)[j]));
        let k = choose|k: int| 0 <= k < f.len() && f[k] == bucket(f, sev)[j];
        assert(f[k] == bucket(f, sev)[j]);
    }
}

} // verus!
