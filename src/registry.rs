use vstd::prelude::*;
use crate::ast::NodeID;
use crate::centralization_risk::CentralizationRiskDetector;
use crate::context::WorkspaceContext;
use crate::delegate_call_in_loop::DelegateCallInLoopDetector;
use crate::detector::{pool_name_of, pool_name_text, IssueDetector, IssueDetectorNamePool, IssueSeverity};
use crate::instances::{Instance, InstanceKey};
use crate::weird_erc20_not_handled::WeirdErc20NotHandledDetector;

verus! {

/// One of the detectors that ship with the library.
pub enum BuiltinDetector {
    DelegateCallInLoop(DelegateCallInLoopDetector),
    CentralizationRisk(CentralizationRiskDetector),
    WeirdErc20NotHandled(WeirdErc20NotHandledDetector),
}

impl IssueDetector for BuiltinDetector {
    open spec fn inv(&self) -> bool {
        match self {
            BuiltinDetector::DelegateCallInLoop(d) => d.inv(),
            BuiltinDetector::CentralizationRisk(d) => d.inv(),
            BuiltinDetector::WeirdErc20NotHandled(d) => d.inv(),
        }
    }

    open spec fn always_succeeds(&self) -> bool {
        true
    }

    open spec fn found(&self) -> Map<InstanceKey, NodeID> {
        match self {
            BuiltinDetector::DelegateCallInLoop(d) => d.found(),
            BuiltinDetector::CentralizationRisk(d) => d.found(),
            BuiltinDetector::WeirdErc20NotHandled(d) => d.found(),
        }
    }

    open spec fn expected(&self, context: &WorkspaceContext) -> Map<InstanceKey, NodeID> {
        match self {
            BuiltinDetector::DelegateCallInLoop(d) => d.expected(context),
            BuiltinDetector::CentralizationRisk(d) => d.expected(context),
            BuiltinDetector::WeirdErc20NotHandled(d) => d.expected(context),
        }
    }

    open spec fn spec_severity(&self) -> IssueSeverity {
        match self {
            BuiltinDetector::DelegateCallInLoop(d) => d.spec_severity(),
            BuiltinDetector::CentralizationRisk(d) => d.spec_severity(),
            BuiltinDetector::WeirdErc20NotHandled(d) => d.spec_severity(),
        }
    }

    open spec fn spec_name(&self) -> Seq<char> {
        match self {
            BuiltinDetector::DelegateCallInLoop(d) => d.spec_name(),
            BuiltinDetector::CentralizationRisk(d) => d.spec_name(),
            BuiltinDetector::WeirdErc20NotHandled(d) => d.spec_name(),
        }
    }

    open spec fn spec_title(&self) -> Seq<char> {
        match self {
            BuiltinDetector::DelegateCallInLoop(d) => d.spec_title(),
            BuiltinDetector::CentralizationRisk(d) => d.spec_title(),
            BuiltinDetector::WeirdErc20NotHandled(d) => d.spec_title(),
        }
    }

    open spec fn spec_description(&self) -> Seq<char> {
        match self {
            BuiltinDetector::DelegateCallInLoop(d) => d.spec_description(),
            BuiltinDetector::CentralizationRisk(d) => d.spec_description(),
            BuiltinDetector::WeirdErc20NotHandled(d) => d.spec_description(),
        }
    }

    fn detect(&mut self, context: &WorkspaceContext) -> (r: Result<bool, String>) {
        match self {
            BuiltinDetector::DelegateCallInLoop(d) => d.detect(context),
            BuiltinDetector::CentralizationRisk(d) => d.detect(context),
            BuiltinDetector::WeirdErc20NotHandled(d) => d.detect(context),
        }
    }

    fn severity(&self) -> (r: IssueSeverity) {
        match self {
            BuiltinDetector::DelegateCallInLoop(d) => d.severity(),
            BuiltinDetector::CentralizationRisk(d) => d.severity(),
            BuiltinDetector::WeirdErc20NotHandled(d) => d.severity(),
        }
    }

    fn title(&self) -> (r: String) {
        match self {
            BuiltinDetector::DelegateCallInLoop(d) => d.title(),
            BuiltinDetector::CentralizationRisk(d) => d.title(),
            BuiltinDetector::WeirdErc20NotHandled(d) => d.title(),
        }
    }

    fn description(&self) -> (r: String) {
        match self {
            BuiltinDetector::DelegateCallInLoop(d) => d.description(),
            BuiltinDetector::CentralizationRisk(d) => d.description(),
            BuiltinDetector::WeirdErc20NotHandled(d) => d.description(),
        }
    }

    fn name(&self) -> (r: String) {
        match self {
            BuiltinDetector::DelegateCallInLoop(d) => d.name(),
            BuiltinDetector::CentralizationRisk(d) => d.name(),
            BuiltinDetector::WeirdErc20NotHandled(d) => d.name(),
        }
    }

    fn instances(&self) -> (r: Vec<Instance>) {
        match self {
            BuiltinDetector::DelegateCallInLoop(d) => d.instances(),
            BuiltinDetector::CentralizationRisk(d) => d.instances(),
            BuiltinDetector::WeirdErc20NotHandled(d) => d.instances(),
        }
    }
}

/// The names of the registered detectors, in registry order.
pub open spec fn registered_names() -> Seq<Seq<char>> {
    seq![
        pool_name_text(IssueDetectorNamePool::DelegateCallInLoop),
        pool_name_text(IssueDetectorNamePool::CentralizationRisk),
    ]
}

/// A detector that has not run yet.
pub open spec fn is_fresh(d: BuiltinDetector) -> bool {
    d.inv() && d.found() == Map::<InstanceKey, NodeID>::empty()
}

/// A fresh instance of every registered detector, in registry order.
pub fn get_all_issue_detectors() -> (r: Vec<BuiltinDetector>)
    ensures
        r@.len() == registered_names().len(),
        forall|i: int| 0 <= i < r@.len() ==> is_fresh(#[trigger] r@[i]) && r@[i].spec_name() == registered_names()[i],
{
    let mut r: Vec<BuiltinDetector> = Vec::new();
    r.push(BuiltinDetector::DelegateCallInLoop(DelegateCallInLoopDetector::new()));
    r.push(BuiltinDetector::CentralizationRisk(CentralizationRiskDetector::new()));
    r
}

/// The names of every registered detector, in registry order.
pub fn get_all_detectors_names() -> (r: Vec<String>)
    ensures
        r@.len() == registered_names().len(),
        forall|i: int| 0 <= i < r@.len() ==> (#[trigger] r@[i])@ == registered_names()[i],
{
    let detectors = get_all_issue_detectors();
    let mut r: Vec<String> = Vec::new();
    let mut i: usize = 0;
    while i < detectors.len()
        invariant
            i <= detectors@.len(),
            detectors@.len() == registered_names().len(),
            forall|j: int| 0 <= j < detectors@.len() ==> (#[trigger] detectors@[j]).spec_name() == registered_names()[j],
            r@.len() == i,
            forall|j: int| 0 <= j < i ==> (#[trigger] r@[j])@ == registered_names()[j],
        decreases detectors@.len() - i,
    {
        r.push(detectors[i].name());
        i += 1;
    }
    r
}

/// A name that selects a registered detector.
pub open spec fn is_registered_name(name: Seq<char>) -> bool {
    match pool_name_of(name) {
        Some(n) => n != IssueDetectorNamePool::Undecided,
        None => false,
    }
}

/// A fresh instance of the registered detector called `detector_name`.
pub fn get_issue_detector_by_name(detector_name: &str) -> (r: BuiltinDetector)
    requires
        is_registered_name(detector_name@),
    ensures
        is_fresh(r),
        r.spec_name() == detector_name@,
{
    let n = IssueDetectorNamePool::parse(detector_name);
    match n {
        Some(IssueDetectorNamePool::CentralizationRisk) => BuiltinDetector::CentralizationRisk(
            CentralizationRiskDetector::new(),
        ),
        _ => BuiltinDetector::DelegateCallInLoop(DelegateCallInLoopDetector::new()),
    }
}

} // verus!
