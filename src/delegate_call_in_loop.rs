use vstd::prelude::*;
use crate::ast::{NodeID, NodeKind};
use crate::context::{key_at, subtree_positions, IndexedNode, WorkspaceContext};
use crate::detector::{IssueDetector, IssueDetectorNamePool, IssueSeverity, pool_name_text};
use crate::instances::{Instance, InstanceKey, InstanceSet};
use crate::text::str_eq;

verus! {

/// `m` after capturing, in order, the member accesses at `ps` named `delegatecall`.
pub open spec fn capture_delegate_calls(
    t: Seq<IndexedNode>,
    ps: Seq<usize>,
    m: Map<InstanceKey, NodeID>,
) -> Map<InstanceKey, NodeID>
    decreases ps.len(),
{
    if ps.len() == 0 {
        m
    } else {
        let m0 = capture_delegate_calls(t, ps.drop_last(), m);
        let p = ps.last() as int;
        if p < t.len() && t[p].name@ == "delegatecall"@ {
            m0.insert(key_at(t, p), t[p].id)
        } else {
            m0
        }
    }
}

/// `m` after capturing, loop by loop, the `delegatecall` member accesses
/// inside each loop statement at `loops`.
pub open spec fn capture_in_loops(
    t: Seq<IndexedNode>,
    loops: Seq<usize>,
    m: Map<InstanceKey, NodeID>,
) -> Map<InstanceKey, NodeID>
    decreases loops.len(),
{
    if loops.len() == 0 {
        m
    } else {
        let m0 = capture_in_loops(t, loops.drop_last(), m);
        let l = loops.last() as int;
        if l < t.len() {
            capture_delegate_calls(t, subtree_positions(t, l, NodeKind::MemberAccess), m0)
        } else {
            m0
        }
    }
}

/// What a pass over `c` finds: `delegatecall` accesses inside for loops, then
/// inside while loops.
pub open spec fn delegate_call_findings(c: WorkspaceContext) -> Map<InstanceKey, NodeID> {
    capture_in_loops(
        c.nodes@,
        c.while_statements@,
        capture_in_loops(c.nodes@, c.for_statements@, Map::empty()),
    )
}

fn capture_accesses(context: &WorkspaceContext, ps: &Vec<usize>, found: &mut InstanceSet)
    requires
        old(found).wf(),
    ensures
        final(found).wf(),
        final(found)@ == capture_delegate_calls(context.nodes@, ps@, old(found)@),
{
    let ghost m = found@;
    let mut i: usize = 0;
    while i < ps.len()
        invariant
            i <= ps@.len(),
            found.wf(),
            found@ == capture_delegate_calls(context.nodes@, ps@.subrange(0, i as int), m),
        decreases ps@.len() - i,
    {
        let p = ps[i];
        proof {
            assert(ps@.subrange(0, i + 1).drop_last() =~= ps@.subrange(0, i as int));
        }
        if p < context.nodes.len() && str_eq(context.nodes[p].name.as_str(), "delegatecall") {
            let file = context.file_of(p);
            found.capture(file, context.nodes[p].src.line, context.nodes[p].id);
        }
        i += 1;
    }
    proof {
        assert(ps@.subrange(0, ps@.len() as int) =~= ps@);
    }
}

fn capture_loops(context: &WorkspaceContext, loops: &Vec<usize>, found: &mut InstanceSet)
    requires
        old(found).wf(),
    ensures
        final(found).wf(),
        final(found)@ == capture_in_loops(context.nodes@, loops@, old(found)@),
{
    let ghost m = found@;
    let mut i: usize = 0;
    while i < loops.len()
        invariant
            i <= loops@.len(),
            found.wf(),
            found@ == capture_in_loops(context.nodes@, loops@.subrange(0, i as int), m),
        decreases loops@.len() - i,
    {
        let l = loops[i];
        proof {
            assert(loops@.subrange(0, i + 1).drop_last() =~= loops@.subrange(0, i as int));
        }
        if l < context.nodes.len() {
            let accesses = context.extract_of_kind(l, NodeKind::MemberAccess);
            capture_accesses(context, &accesses, found);
        }
        i += 1;
    }
    proof {
        assert(loops@.subrange(0, loops@.len() as int) =~= loops@);
    }
}

/// Flags `delegatecall` inside loops, which credits the same `msg.value` repeatedly.
pub struct DelegateCallInLoopDetector {
    found_instances: InstanceSet,
}

impl DelegateCallInLoopDetector {
    pub fn new() -> (r: Self)
        ensures
            r.inv(),
            r.found() == Map::<InstanceKey, NodeID>::empty(),
    {
        DelegateCallInLoopDetector { found_instances: InstanceSet::new() }
    }
}

impl IssueDetector for DelegateCallInLoopDetector {
    closed spec fn inv(&self) -> bool {
        self.found_instances.wf()
    }

    open spec fn always_succeeds(&self) -> bool {
        true
    }

    closed spec fn found(&self) -> Map<InstanceKey, NodeID> {
        self.found_instances@
    }

    open spec fn expected(&self, context: &WorkspaceContext) -> Map<InstanceKey, NodeID> {
        delegate_call_findings(*context)
    }

    open spec fn spec_severity(&self) -> IssueSeverity {
        IssueSeverity::High
    }

    open spec fn spec_name(&self) -> Seq<char> {
        pool_name_text(IssueDetectorNamePool::DelegateCallInLoop)
    }

    open spec fn spec_title(&self) -> Seq<char> {
        "Using `delegatecall` in loop"@
    }

    open spec fn spec_description(&self) -> Seq<char> {
        "When calling `delegatecall` the same `msg.value` amount will be accredited multiple times."@
    }

    fn detect(&mut self, context: &WorkspaceContext) -> (r: Result<bool, String>) {
        let mut found = InstanceSet::new();
        capture_loops(context, &context.for_statements, &mut found);
        capture_loops(context, &context.while_statements, &mut found);
        self.found_instances = found;
        Ok(!self.found_instances.is_empty())
    }

    fn severity(&self) -> (r: IssueSeverity) {
        IssueSeverity::High
    }

    fn title(&self) -> (r: String) {
        "Using `delegatecall` in loop".to_owned()
    }

    fn description(&self) -> (r: String) {
        "When calling `delegatecall` the same `msg.value` amount will be accredited multiple times.".to_owned()
    }

    fn name(&self) -> (r: String) {
        IssueDetectorNamePool::DelegateCallInLoop.as_string()
    }

    fn instances(&self) -> (r: Vec<Instance>) {
        self.found_instances.to_vec()
    }
}

} // verus!
