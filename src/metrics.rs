use vstd::prelude::*;
use crate::detector::IssueSeverity;
use crate::text::str_eq;

verus! {

/// Calibration counters kept for one detector.
#[derive(Debug)]
pub struct Metrics {
    pub detector_name: String,
    pub true_positives: u64,
    pub false_positives: u64,
    pub trigger_count: u64,
    pub experience: u64,
    pub current_severity: IssueSeverity,
}

/// The counters of every registered detector, one record per name, and the
/// path of the file they are kept in.
#[derive(Debug)]
pub struct MetricsDatabase {
    pub metrics: Vec<Metrics>,
    pub db_path: String,
}

/// No two records share a detector name.
pub open spec fn names_unique(s: Seq<Metrics>) -> bool {
    forall|i: int, j: int|
        0 <= i < s.len() && 0 <= j < s.len() && i != j ==> s[i].detector_name@ != s[j].detector_name@
}

/// Some record is kept under `name`.
pub open spec fn has_record(s: Seq<Metrics>, name: Seq<char>) -> bool {
    exists|i: int| 0 <= i < s.len() && s[i].detector_name@ == name
}

/// The position of the record kept under `name`.
pub open spec fn record_pos(s: Seq<Metrics>, name: Seq<char>) -> int {
    choose|i: int| 0 <= i < s.len() && s[i].detector_name@ == name
}

/// `r` is `m` with each counter raised by the given amount.
pub open spec fn raised(m: Metrics, r: Metrics, tp: int, fp: int, trig: int, exp: int) -> bool {
    &&& r.detector_name@ == m.detector_name@
    &&& r.current_severity == m.current_severity
    &&& r.true_positives == m.true_positives + tp
    &&& r.false_positives == m.false_positives + fp
    &&& r.trigger_count == m.trigger_count + trig
    &&& r.experience == m.experience + exp
}

impl MetricsDatabase {
    pub open spec fn wf(&self) -> bool {
        names_unique(self.metrics@)
    }

    /// An empty database kept at `db_path`.
    pub fn new(db_path: String) -> (r: MetricsDatabase)
        ensures
            r.wf(),
            r.metrics@.len() == 0,
            r.db_path@ == db_path@,
    {
        MetricsDatabase { metrics: Vec::new(), db_path }
    }

    /// Whether a record is kept under `name`.
    pub fn contains(&self, name: &str) -> (r: bool)
        ensures
            r == has_record(self.metrics@, name@),
    {
        let mut i: usize = 0;
        while i < self.metrics.len()
            invariant
                i <= self.metrics@.len(),
                forall|k: int| 0 <= k < i ==> self.metrics@[k].detector_name@ != name@,
            decreases self.metrics@.len() - i,
        {
            if str_eq(self.metrics[i].detector_name.as_str(), name) {
                return true;
            }
            i += 1;
        }
        false
    }

    fn find(&self, name: &str) -> (r: usize)
        requires
            self.wf(),
            has_record(self.metrics@, name@),
        ensures
            r == record_pos(self.metrics@, name@),
            r < self.metrics@.len(),
            self.metrics@[r as int].detector_name@ == name@,
    {
        let ghost p = record_pos(self.metrics@, name@);
        let mut i: usize = 0;
        while i < self.metrics.len()
            invariant
                i <= self.metrics@.len(),
                names_unique(self.metrics@),
                0 <= p < self.metrics@.len(),
                self.metrics@[p].detector_name@ == name@,
                forall|k: int| 0 <= k < i ==> self.metrics@[k].detector_name@ != name@,
            decreases self.metrics@.len() - i,
        {
            if str_eq(self.metrics[i].detector_name.as_str(), name) {
                return i;
            }
            i += 1;
        }
        i
    }

    /// Starts the counters of a new detector: each of true positives,
    /// triggers and experience at the number of severity levels, no false
    /// positives.
    pub fn register_new_detector(&mut self, name: String, current_severity: IssueSeverity)
        requires
            old(self).wf(),
            !has_record(old(self).metrics@, name@),
        ensures
            final(self).wf(),
            final(self).db_path == old(self).db_path,
            final(self).metrics@ == old(self).metrics@.push(
                Metrics {
                    detector_name: name,
                    true_positives: IssueSeverity::COUNT,
                    false_positives: 0,
                    trigger_count: IssueSeverity::COUNT,
                    experience: IssueSeverity::COUNT,
                    current_severity,
                },
            ),
    {
        let payload = Metrics {
            detector_name: name,
            true_positives: IssueSeverity::COUNT,
            false_positives: 0,
            trigger_count: IssueSeverity::COUNT,
            experience: IssueSeverity::COUNT,
            current_severity,
        };
        self.metrics.push(payload);
    }

    fn raise(&mut self, name: &str, tp: u64, fp: u64, trig: u64, exp: u64)
        requires
            old(self).wf(),
            has_record(old(self).metrics@, name@),
            tp <= 1 && fp <= 1 && trig <= 1 && exp <= 1,
            ({
                let m = old(self).metrics@[record_pos(old(self).metrics@, name@)];
                &&& m.true_positives + tp <= u64::MAX
                &&& m.false_positives + fp <= u64::MAX
                &&& m.trigger_count + trig <= u64::MAX
                &&& m.experience + exp <= u64::MAX
            }),
        ensures
            final(self).wf(),
            final(self).db_path == old(self).db_path,
            ({
                let p = record_pos(old(self).metrics@, name@);
                &&& final(self).metrics@.len() == old(self).metrics@.len()
                &&& raised(old(self).metrics@[p], final(self).metrics@[p], tp as int, fp as int, trig as int, exp as int)
                &&& forall|k: int| 0 <= k < old(self).metrics@.len() && k != p ==> final(self).metrics@[k] == old(self).metrics@[k]
            }),
    {
        let i = self.find(name);
        let m = Metrics {
            detector_name: self.metrics[i].detector_name.clone(),
            true_positives: self.metrics[i].true_positives + tp,
            false_positives: self.metrics[i].false_positives + fp,
            trigger_count: self.metrics[i].trigger_count + trig,
            experience: self.metrics[i].experience + exp,
            current_severity: self.metrics[i].current_severity,
        };
        self.metrics.set(i, m);
    }

    /// Counts one more true positive and one more trigger for `name`.
    pub fn increase_true_positive_with_trigger_count(&mut self, name: String)
        requires
            old(self).wf(),
            has_record(old(self).metrics@, name@),
            old(self).metrics@[record_pos(old(self).metrics@, name@)].true_positives < u64::MAX,
            old(self).metrics@[record_pos(old(self).metrics@, name@)].trigger_count < u64::MAX,
        ensures
            final(self).wf(),
            final(self).db_path == old(self).db_path,
            ({
                let p = record_pos(old(self).metrics@, name@);
                &&& final(self).metrics@.len() == old(self).metrics@.len()
                &&& raised(old(self).metrics@[p], final(self).metrics@[p], 1, 0, 1, 0)
                &&& forall|k: int| 0 <= k < old(self).metrics@.len() && k != p ==> final(self).metrics@[k] == old(self).metrics@[k]
            }),
    {
        self.raise(name.as_str(), 1, 0, 1, 0);
    }

    /// Counts one more false positive and one more trigger for `name`.
    pub fn increase_false_positive_with_trigger_count(&mut self, name: String)
        requires
            old(self).wf(),
            has_record(old(self).metrics@, name@),
            old(self).metrics@[record_pos(old(self).metrics@, name@)].false_positives < u64::MAX,
            old(self).metrics@[record_pos(old(self).metrics@, name@)].trigger_count < u64::MAX,
        ensures
            final(self).wf(),
            final(self).db_path == old(self).db_path,
            ({
                let p = record_pos(old(self).metrics@, name@);
                &&& final(self).metrics@.len() == old(self).metrics@.len()
                &&& raised(old(self).metrics@[p], final(self).metrics@[p], 0, 1, 1, 0)
                &&& forall|k: int| 0 <= k < old(self).metrics@.len() && k != p ==> final(self).metrics@[k] == old(self).metrics@[k]
            }),
    {
        self.raise(name.as_str(), 0, 1, 1, 0);
    }

    /// Counts one more trigger for `name`.
    pub fn increase_trigger_count(&mut self, name: String)
        requires
            old(self).wf(),
            has_record(old(self).metrics@, name@),
            old(self).metrics@[record_pos(old(self).metrics@, name@)].trigger_count < u64::MAX,
        ensures
            final(self).wf(),
            final(self).db_path == old(self).db_path,
            ({
                let p = record_pos(old(self).metrics@, name@);
                &&& final(self).metrics@.len() == old(self).metrics@.len()
                &&& raised(old(self).metrics@[p], final(self).metrics@[p], 0, 0, 1, 0)
                &&& forall|k: int| 0 <= k < old(self).metrics@.len() && k != p ==> final(self).metrics@[k] == old(self).metrics@[k]
            }),
    {
        self.raise(name.as_str(), 0, 0, 1, 0);
    }

    /// Counts one more unit of experience for `name`.
    pub fn increase_experience(&mut self, name: String)
        requires
            old(self).wf(),
            has_record(old(self).metrics@, name@),
            old(self).metrics@[record_pos(old(self).metrics@, name@)].experience < u64::MAX,
        ensures
            final(self).wf(),
            final(self).db_path == old(self).db_path,
            ({
                let p = record_pos(old(self).metrics@, name@);
                &&& final(self).metrics@.len() == old(self).metrics@.len()
                &&& raised(old(self).metrics@[p], final(self).metrics@[p], 0, 0, 0, 1)
                &&& forall|k: int| 0 <= k < old(self).metrics@.len() && k != p ==> final(self).metrics@[k] == old(self).metrics@[k]
            }),
    {
        self.raise(name.as_str(), 0, 0, 0, 1);
    }

    /// A copy of the counters kept for `detector_name`.
    pub fn get_metrics(&self, detector_name: String) -> (r: Metrics)
        requires
            self.wf(),
            has_record(self.metrics@, detector_name@),
        ensures
            raised(self.metrics@[record_pos(self.metrics@, detector_name@)], r, 0, 0, 0, 0),
    {
        let i = self.find(detector_name.as_str());
        Metrics {
            detector_name: self.metrics[i].detector_name.clone(),
            true_positives: self.metrics[i].true_positives,
            false_positives: self.metrics[i].false_positives,
            trigger_count: self.metrics[i].trigger_count,
            experience: self.metrics[i].experience,
            current_severity: self.metrics[i].current_severity,
        }
    }

    /// The names of all detectors that have records, in record order.
    pub fn get_all_detectors_names(&self) -> (r: Vec<String>)
        ensures
            r@.len() == self.metrics@.len(),
            forall|i: int| 0 <= i < r@.len() ==> (#[trigger] r@[i])@ == self.metrics@[i].detector_name@,
    {
        let mut r: Vec<String> = Vec::new();
        let mut i: usize = 0;
        while i < self.metrics.len()
            invariant
                i <= self.metrics@.len(),
                r@.len() == i,
                forall|k: int| 0 <= k < i ==> (#[trigger] r@[k])@ == self.metrics@[k].detector_name@,
            decreases self.metrics@.len() - i,
        {
            r.push(self.metrics[i].detector_name.clone());
            i += 1;
        }
        r
    }
}

} // verus!
