use vstd::prelude::*;
use crate::ast::NodeID;
use crate::context::WorkspaceContext;
use crate::detector::{IssueDetector, IssueSeverity};
use crate::instances::{represents, Instance, InstanceKey};

verus! {

/// How one detector's pass ended.
#[derive(Debug)]
pub enum DetectionStatus {
    Found,
    NotFound,
    Failed(String),
}

/// What one detector reported in a run.
#[derive(Debug)]
pub struct DetectorOutcome {
    pub name: String,
    pub severity: IssueSeverity,
    pub title: String,
    pub description: String,
    pub instances: Vec<Instance>,
    pub status: DetectionStatus,
}

/// A triggered detector's finding, ready for reporting.
#[derive(Debug)]
pub struct Issue {
    pub detector_name: String,
    pub title: String,
    pub description: String,
    pub severity: IssueSeverity,
    pub instances: Vec<Instance>,
}

/// A detector whose pass failed, with its error.
#[derive(Debug)]
pub struct DetectorFailure {
    pub detector_name: String,
    pub message: String,
}

/// The triggered detectors' issues and the failed detectors, each in run order.
#[derive(Debug)]
pub struct EngineOutput {
    pub results: Vec<Issue>,
    pub failures: Vec<DetectorFailure>,
}

/// `o` records a pass of the detector `before` over `context`.
pub open spec fn records_pass<D: IssueDetector>(o: DetectorOutcome, before: D, context: WorkspaceContext) -> bool {
    &&& o.name@ == before.spec_name()
    &&& o.severity == before.spec_severity()
    &&& o.title@ == before.spec_title()
    &&& o.description@ == before.spec_description()
    &&& o.status is Found ==> represents(o.instances@, before.expected(&context))
        && before.expected(&context) != Map::<InstanceKey, NodeID>::empty()
    &&& o.status is NotFound ==> before.expected(&context) == Map::<InstanceKey, NodeID>::empty()
    &&& before.always_succeeds() ==> !(o.status is Failed)
}

pub open spec fn issue_of(o: DetectorOutcome) -> Issue {
    Issue {
        detector_name: o.name,
        title: o.title,
        description: o.description,
        severity: o.severity,
        instances: o.instances,
    }
}

/// The issues of the outcomes that found something, in order.
pub open spec fn found_issues(s: Seq<DetectorOutcome>) -> Seq<Issue>
    decreases s.len(),
{
    if s.len() == 0 {
        Seq::empty()
    } else {
        let prev = found_issues(s.drop_last());
        if s.last().status is Found {
            prev.push(issue_of(s.last()))
        } else {
            prev
        }
    }
}

/// The failures among the outcomes, in order.
pub open spec fn failures_of(s: Seq<DetectorOutcome>) -> Seq<DetectorFailure>
    decreases s.len(),
{
    if s.len() == 0 {
        Seq::empty()
    } else {
        let prev = failures_of(s.drop_last());
        match s.last().status {
            DetectionStatus::Failed(m) => prev.push(DetectorFailure { detector_name: s.last().name, message: m }),
            _ => prev,
        }
    }
}

/// Runs every detector once over `context`, in order, recording how each pass ended.
pub fn run_detectors<D: IssueDetector>(context: &WorkspaceContext, detectors: &mut Vec<D>) -> (r: Vec<DetectorOutcome>)
    requires
        context.wf(),
    ensures
        r@.len() == old(detectors)@.len(),
        final(detectors)@.len() == old(detectors)@.len(),
        forall|i: int| 0 <= i < r@.len() ==> records_pass(#[trigger] r@[i], old(detectors)@[i], *context),
{
    let ghost start = detectors@;
    let mut r: Vec<DetectorOutcome> = Vec::new();
    let mut i: usize = 0;
    while i < detectors.len()
        invariant
            context.wf(),
            i <= detectors@.len(),
            detectors@.len() == start.len(),
            r@.len() == i,
            forall|j: int| i <= j < start.len() ==> detectors@[j] == start[j],
            forall|j: int| 0 <= j < i ==> records_pass(#[trigger] r@[j], start[j], *context),
        decreases start.len() - i,
    {
        let outcome = detectors[i].detect(context);
        let d = &detectors[i];
        let status = match outcome {
            Ok(true) => DetectionStatus::Found,
            Ok(false) => DetectionStatus::NotFound,
            Err(e) => DetectionStatus::Failed(e),
        };
        let instances = match status {
            DetectionStatus::Found => d.instances(),
            _ => Vec::new(),
        };
        r.push(DetectorOutcome {
            name: d.name(),
            severity: d.severity(),
            title: d.title(),
            description: d.description(),
            instances,
            status,
        });
        i += 1;
    }
    r
}

/// Splits outcomes into the issues of the detectors that found something and
/// the failures, keeping run order in both.
pub fn collect_results(outcomes: Vec<DetectorOutcome>) -> (r: EngineOutput)
    ensures
        r.results@ == found_issues(outcomes@),
        r.failures@ == failures_of(outcomes@),
{
    let ghost all = outcomes@;
    let mut rest = outcomes;
    let n = rest.len();
    let mut results: Vec<Issue> = Vec::new();
    let mut failures: Vec<DetectorFailure> = Vec::new();
    let mut i: usize = 0;
    while rest.len() > 0
        invariant
            i <= all.len(),
            all.len() == n,
            rest@ == all.subrange(i as int, all.len() as int),
            results@ == found_issues(all.subrange(0, i as int)),
            failures@ == failures_of(all.subrange(0, i as int)),
        decreases rest@.len(),
    {
        let o = rest.remove(0);
        proof {
            assert(o == all[i as int]);
            assert(all.subrange(0, i + 1).drop_last() =~= all.subrange(0, i as int));
            assert(rest@ =~= all.subrange(i + 1, all.len() as int));
        }
        match o.status {
            DetectionStatus::Found => {
                results.push(
                    Issue {
                        detector_name: o.name,
                        title: o.title,
                        description: o.description,
                        severity: o.severity,
                        instances: o.instances,
                    },
                );
            },
            DetectionStatus::NotFound => {},
            DetectionStatus::Failed(m) => {
                failures.push(DetectorFailure { detector_name: o.name, message: m });
            },
        }
        i += 1;
    }
    proof {
        assert(all.subrange(0, i as int) =~= all);
    }
    EngineOutput { results, failures }
}

/// Runs every detector once over `context`; a detector that fails is left out
/// of the results and listed among the failures, and the others still run.
pub fn execute<D: IssueDetector>(context: &WorkspaceContext, detectors: &mut Vec<D>) -> (r: EngineOutput)
    requires
        context.wf(),
    ensures
        final(detectors)@.len() == old(detectors)@.len(),
        exists|o: Seq<DetectorOutcome>|
            {
                &&& o.len() == old(detectors)@.len()
                &&& forall|i: int| 0 <= i < o.len() ==> records_pass(#[trigger] o[i], old(detectors)@[i], *context)
                &&& r.results@ == found_issues(o)
                &&& r.failures@ == failures_of(o)
            },
{
    let outcomes = run_detectors(context, detectors);
    let ghost o = outcomes@;
    let r = collect_results(outcomes);
    proof {
        assert(r.results@ == found_issues(o));
    }
    r
}

/// Whether each detector of a run was triggered, for the metrics store.
#[derive(Debug)]
pub struct TriggerEvent {
    pub detector_name: String,
    pub triggered: bool,
}

/// One event per outcome, in run order: triggered when the pass found something.
pub fn trigger_events(outcomes: &Vec<DetectorOutcome>) -> (r: Vec<TriggerEvent>)
    ensures
        r@.len() == outcomes@.len(),
        forall|i: int|
            0 <= i < r@.len() ==> (#[trigger] r@[i]).detector_name@ == outcomes@[i].name@
                && r@[i].triggered == (outcomes@[i].status is Found),
{
    let mut r: Vec<TriggerEvent> = Vec::new();
    let mut i: usize = 0;
    while i < outcomes.len()
        invariant
            i <= outcomes@.len(),
            r@.len() == i,
            forall|k: int|
                0 <= k < i ==> (#[trigger] r@[k]).detector_name@ == outcomes@[k].name@
                    && r@[k].triggered == (outcomes@[k].status is Found),
        decreases outcomes@.len() - i,
    {
        let triggered = match outcomes[i].status {
            DetectionStatus::Found => true,
            _ => false,
        };
        r.push(TriggerEvent { detector_name: outcomes[i].name.clone(), triggered });
        i += 1;
    }
    r
}

} // verus!
