use vstd::prelude::*;
use crate::context::WorkspaceContext;
use crate::instances::{represents, Instance, InstanceKey};
use crate::ast::NodeID;
use crate::text::str_eq;

verus! {

/// The five severity levels, from least to most severe.
#[derive(Debug, Clone, Copy, PartialEq, Eq, Structural)]
pub enum IssueSeverity {
    NC,
    Low,
    Medium,
    High,
    Critical,
}

/// The label under which a severity is shown in reports.
pub open spec fn severity_label(s: IssueSeverity) -> Seq<char> {
    match s {
        IssueSeverity::NC => "NC (Non Critical)"@,
        IssueSeverity::Low => "Low"@,
        IssueSeverity::Medium => "Medium"@,
        IssueSeverity::High => "High"@,
        IssueSeverity::Critical => "Critical"@,
    }
}

impl IssueSeverity {
    /// The number of severity levels.
    pub const COUNT: u64 = 5;

    /// The label under which this severity is shown in reports.
    pub fn label(&self) -> (r: String)
        ensures
            r@ == severity_label(*self),
    {
        match self {
            IssueSeverity::NC => "NC (Non Critical)".to_owned(),
            IssueSeverity::Low => "Low".to_owned(),
            IssueSeverity::Medium => "Medium".to_owned(),
            IssueSeverity::High => "High".to_owned(),
            IssueSeverity::Critical => "Critical".to_owned(),
        }
    }
}

/// The closed set of names under which built-in detectors can be requested.
#[derive(Debug, Clone, Copy, PartialEq, Eq, Structural)]
pub enum IssueDetectorNamePool {
    DelegateCallInLoop,
    CentralizationRisk,
    /// The name of a detector that has not been given one yet; it cannot be requested.
    Undecided,
}

/// The kebab-case text of a pool name.
pub open spec fn pool_name_text(n: IssueDetectorNamePool) -> Seq<char> {
    match n {
        IssueDetectorNamePool::DelegateCallInLoop => "delegate-call-in-loop"@,
        IssueDetectorNamePool::CentralizationRisk => "centralization-risk"@,
        IssueDetectorNamePool::Undecided => "undecided"@,
    }
}

/// The pool name whose text is `s`, if any.
pub open spec fn pool_name_of(s: Seq<char>) -> Option<IssueDetectorNamePool> {
    if s == "delegate-call-in-loop"@ {
        Some(IssueDetectorNamePool::DelegateCallInLoop)
    } else if s == "centralization-risk"@ {
        Some(IssueDetectorNamePool::CentralizationRisk)
    } else if s == "undecided"@ {
        Some(IssueDetectorNamePool::Undecided)
    } else {
        None
    }
}

impl IssueDetectorNamePool {
    /// The kebab-case text of this name.
    pub fn as_string(&self) -> (r: String)
        ensures
            r@ == pool_name_text(*self),
    {
        match self {
            IssueDetectorNamePool::DelegateCallInLoop => "delegate-call-in-loop".to_owned(),
            IssueDetectorNamePool::CentralizationRisk => "centralization-risk".to_owned(),
            IssueDetectorNamePool::Undecided => "undecided".to_owned(),
        }
    }

    /// Reads a name from its kebab-case text.
    pub fn parse(s: &str) -> (r: Option<IssueDetectorNamePool>)
        ensures
            r == pool_name_of(s@),
    {
        if str_eq(s, "delegate-call-in-loop") {
            Some(IssueDetectorNamePool::DelegateCallInLoop)
        } else if str_eq(s, "centralization-risk") {
            Some(IssueDetectorNamePool::CentralizationRisk)
        } else if str_eq(s, "undecided") {
            Some(IssueDetectorNamePool::Undecided)
        } else {
            None
        }
    }
}

/// A pluggable analysis over a workspace.
///
/// `found` is what the last detection pass captured, and `expected(context)`
/// what a pass over `context` captures, whatever was captured before: running
/// `detect` again on the same context gives the same findings.
pub trait IssueDetector {
    open spec fn inv(&self) -> bool {
        true
    }

    /// The pass cannot fail.
    open spec fn always_succeeds(&self) -> bool {
        false
    }

    open spec fn found(&self) -> Map<InstanceKey, NodeID> {
        Map::empty()
    }

    open spec fn expected(&self, context: &WorkspaceContext) -> Map<InstanceKey, NodeID> {
        Map::empty()
    }

    open spec fn spec_severity(&self) -> IssueSeverity {
        IssueSeverity::Medium
    }

    open spec fn spec_name(&self) -> Seq<char> {
        pool_name_text(IssueDetectorNamePool::Undecided)
    }

    open spec fn spec_title(&self) -> Seq<char> {
        "Title"@
    }

    open spec fn spec_description(&self) -> Seq<char> {
        "Description"@
    }

    /// Runs the detection pass; `Ok(true)` when something was found.
    fn detect(&mut self, context: &WorkspaceContext) -> (r: Result<bool, String>)
        requires
            context.wf(),
        ensures
            final(self).spec_name() == old(self).spec_name(),
            final(self).spec_severity() == old(self).spec_severity(),
            final(self).spec_title() == old(self).spec_title(),
            final(self).spec_description() == old(self).spec_description(),
            final(self).expected(context) == old(self).expected(context),
            final(self).always_succeeds() == old(self).always_succeeds(),
            old(self).always_succeeds() ==> r is Ok,
            r is Ok ==> final(self).inv() && final(self).found() == old(self).expected(context)
                && r->Ok_0 == (final(self).found() != Map::<InstanceKey, NodeID>::empty()),
    ;

    fn severity(&self) -> (r: IssueSeverity)
        ensures
            r == self.spec_severity(),
    ;

    fn title(&self) -> (r: String)
        ensures
            r@ == self.spec_title(),
    ;

    fn description(&self) -> (r: String)
        ensures
            r@ == self.spec_description(),
    ;

    fn name(&self) -> (r: String)
        ensures
            r@ == self.spec_name(),
    ;

    /// The findings of the last pass, in location order.
    fn instances(&self) -> (r: Vec<Instance>)
        requires
            self.inv(),
        ensures
            represents(r@, self.found()),
    ;
}

/// An analysis that narrows a set of nodes, by table position, to those that
/// match its pattern, for use inside other analyses.
pub trait ReusableDetector {
    fn detect(&mut self, context: &WorkspaceContext, using: &[usize], within: &[usize]) -> Result<
        Vec<usize>,
        String,
    >;

    fn name(&self) -> String;
}

/// Rerunning a detector on the same context reproduces its findings: `first`
/// is a detector after one pass over `context`, `second` the same detector
/// after a further pass over it.
pub proof fn lemma_detect_idempotent<D: IssueDetector>(
    before: D,
    first: D,
    second: D,
    context: WorkspaceContext,
)
    requires
        first.found() == before.expected(&context),
        first.expected(&context) == before.expected(&context),
        second.found() == first.expected(&context),
    ensures
        second.found() == first.found(),
{
}

} // verus!
