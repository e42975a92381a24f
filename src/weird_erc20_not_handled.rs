use vstd::prelude::*;
use crate::ast::{NodeID, NodeKind};
use crate::context::{key_at, subtree_positions, IndexedNode, WorkspaceContext};
use crate::detector::{IssueDetector, IssueSeverity};
use crate::instances::{Instance, InstanceKey, InstanceSet};
use crate::text::{contains_str, has_infix, str_eq};

verus! {

/// The source unit at `u` imports a path that mentions `openzeppelin`.
pub open spec fn imports_openzeppelin(t: Seq<IndexedNode>, u: int) -> bool {
    let imports = subtree_positions(t, u, NodeKind::ImportDirective);
    exists|j: int|
        0 <= j < imports.len() && (imports[j] as int) < t.len() && has_infix(
            t[imports[j] as int].name@,
            "openzeppelin"@,
        )
}

/// The identifier at `p` is a `_mint` in a unit that imports OpenZeppelin.
pub open spec fn is_unhandled_mint(t: Seq<IndexedNode>, p: int) -> bool {
    let u = t[p].unit as int;
    t[p].name@ == "_mint"@ && u < t.len() && imports_openzeppelin(t, u)
}

/// `m` after capturing, in order, the identifiers at `ps` that are unhandled mints.
pub open spec fn capture_mints(t: Seq<IndexedNode>, ps: Seq<usize>, m: Map<InstanceKey, NodeID>) -> Map<
    InstanceKey,
    NodeID,
>
    decreases ps.len(),
{
    if ps.len() == 0 {
        m
    } else {
        let m0 = capture_mints(t, ps.drop_last(), m);
        let p = ps.last() as int;
        if p < t.len() && is_unhandled_mint(t, p) {
            m0.insert(key_at(t, p), t[p].id)
        } else {
            m0
        }
    }
}

/// Whether the source unit at `u` imports a path that mentions `openzeppelin`.
fn unit_imports_openzeppelin(context: &WorkspaceContext, u: usize) -> (r: bool)
    requires
        u < context.nodes@.len(),
    ensures
        r == imports_openzeppelin(context.nodes@, u as int),
{
    let imports = context.extract_of_kind(u, NodeKind::ImportDirective);
    let mut j: usize = 0;
    while j < imports.len()
        invariant
            imports@ == subtree_positions(context.nodes@, u as int, NodeKind::ImportDirective),
            j <= imports@.len(),
            forall|k: int|
                0 <= k < j ==> !((imports@[k] as int) < context.nodes@.len() && has_infix(
                    context.nodes@[imports@[k] as int].name@,
                    "openzeppelin"@,
                )),
        decreases imports@.len() - j,
    {
        let q = imports[j];
        if q < context.nodes.len() && contains_str(context.nodes[q].name.as_str(), "openzeppelin") {
            return true;
        }
        j += 1;
    }
    false
}

/// Flags `_mint` calls in units that build on OpenZeppelin tokens.
pub struct WeirdErc20NotHandledDetector {
    found_instances: InstanceSet,
}

impl WeirdErc20NotHandledDetector {
    pub fn new() -> (r: Self)
        ensures
            r.inv(),
            r.found() == Map::<InstanceKey, NodeID>::empty(),
    {
        WeirdErc20NotHandledDetector { found_instances: InstanceSet::new() }
    }
}

impl IssueDetector for WeirdErc20NotHandledDetector {
    closed spec fn inv(&self) -> bool {
        self.found_instances.wf()
    }

    open spec fn always_succeeds(&self) -> bool {
        true
    }

    closed spec fn found(&self) -> Map<InstanceKey, NodeID> {
        self.found_instances@
    }

    open spec fn expected(&self, context: &WorkspaceContext) -> Map<InstanceKey, NodeID> {
        capture_mints(context.nodes@, context.identifiers@, Map::empty())
    }

    open spec fn spec_severity(&self) -> IssueSeverity {
        IssueSeverity::NC
    }

    open spec fn spec_name(&self) -> Seq<char> {
        "WeirdErc20NotHandledDetector"@
    }

    open spec fn spec_title(&self) -> Seq<char> {
        "Title for WeirdErc20NotHandledDetector"@
    }

    open spec fn spec_description(&self) -> Seq<char> {
        "Description for WeirdErc20NotHandledDetector"@
    }

    fn detect(&mut self, context: &WorkspaceContext) -> (r: Result<bool, String>) {
        let mut found = InstanceSet::new();
        let ghost t = context.nodes@;
        let ps = &context.identifiers;
        let mut i: usize = 0;
        while i < ps.len()
            invariant
                i <= ps@.len(),
                found.wf(),
                found@ == capture_mints(t, ps@.subrange(0, i as int), Map::empty()),
                t == context.nodes@,
                ps == context.identifiers,
            decreases ps@.len() - i,
        {
            let p = ps[i];
            proof {
                assert(ps@.subrange(0, i + 1).drop_last() =~= ps@.subrange(0, i as int));
            }
            if p < context.nodes.len() && str_eq(context.nodes[p].name.as_str(), "_mint") {
                let u = context.nodes[p].unit;
                if u < context.nodes.len() && unit_imports_openzeppelin(context, u) {
                    let file = context.file_of(p);
                    found.capture(file, context.nodes[p].src.line, context.nodes[p].id);
                }
            }
            i += 1;
        }
        proof {
            assert(ps@.subrange(0, ps@.len() as int) =~= ps@);
        }
        self.found_instances = found;
        Ok(!self.found_instances.is_empty())
    }

    fn severity(&self) -> (r: IssueSeverity) {
        IssueSeverity::NC
    }

    fn title(&self) -> (r: String) {
        "Title for WeirdErc20NotHandledDetector".to_owned()
    }

    fn description(&self) -> (r: String) {
        "Description for WeirdErc20NotHandledDetector".to_owned()
    }

    fn name(&self) -> (r: String) {
        "WeirdErc20NotHandledDetector".to_owned()
    }

    fn instances(&self) -> (r: Vec<Instance>) {
        self.found_instances.to_vec()
    }
}

} // verus!
