use vstd::prelude::*;
use crate::ast::NodeID;
use crate::context::{key_at, IndexedNode, WorkspaceContext};
use crate::detector::{IssueDetector, IssueDetectorNamePool, IssueSeverity, pool_name_text};
use crate::instances::{Instance, InstanceKey, InstanceSet};
use crate::text::{contains_str, has_infix, str_eq};

verus! {

/// Base contracts that hand privileged rights to an owner or a role.
pub open spec fn is_access_control_base(name: Seq<char>) -> bool {
    ||| name == "Owned"@
    ||| name == "Ownable"@
    ||| name == "Ownable2Step"@
    ||| name == "AccessControl"@
    ||| name == "AccessControlCrossChain"@
    ||| name == "AccessControlEnumerable"@
    ||| name == "Auth"@
    ||| name == "RolesAuthority"@
    ||| name == "MultiRolesAuthority"@
}

/// Modifiers that restrict a function to an owner or a role.
pub open spec fn is_privileged_modifier(name: Seq<char>) -> bool {
    name == "onlyOwner"@ || name == "requiresAuth"@ || has_infix(name, "onlyRole"@)
}

/// `m` after capturing, in order, each node at the positions `ps` whose
/// inheritance base (when `bases`) or invoked modifier (otherwise) is privileged.
pub open spec fn capture_privileged(
    t: Seq<IndexedNode>,
    ps: Seq<usize>,
    bases: bool,
    m: Map<InstanceKey, NodeID>,
) -> Map<InstanceKey, NodeID>
    decreases ps.len(),
{
    if ps.len() == 0 {
        m
    } else {
        let m0 = capture_privileged(t, ps.drop_last(), bases, m);
        let p = ps.last() as int;
        if p < t.len() && (if bases {
            is_access_control_base(t[p].name@)
        } else {
            is_privileged_modifier(t[p].name@)
        }) {
            m0.insert(key_at(t, p), t[p].id)
        } else {
            m0
        }
    }
}

/// What a pass over `c` finds: inheritance from an access-control base, then
/// invocations of owner- or role-restricting modifiers.
pub open spec fn centralization_findings(c: WorkspaceContext) -> Map<InstanceKey, NodeID> {
    capture_privileged(
        c.nodes@,
        c.modifier_invocations@,
        false,
        capture_privileged(c.nodes@, c.inheritance_specifiers@, true, Map::empty()),
    )
}

fn access_control_base(name: &str) -> (r: bool)
    ensures
        r == is_access_control_base(name@),
{
    str_eq(name, "Owned") || str_eq(name, "Ownable") || str_eq(name, "Ownable2Step")
        || str_eq(name, "AccessControl") || str_eq(name, "AccessControlCrossChain")
        || str_eq(name, "AccessControlEnumerable") || str_eq(name, "Auth")
        || str_eq(name, "RolesAuthority") || str_eq(name, "MultiRolesAuthority")
}

fn privileged_modifier(name: &str) -> (r: bool)
    ensures
        r == is_privileged_modifier(name@),
{
    str_eq(name, "onlyOwner") || str_eq(name, "requiresAuth") || contains_str(name, "onlyRole")
}

/// Captures the privileged nodes among `ps` into `found`.
fn capture_list(context: &WorkspaceContext, ps: &Vec<usize>, bases: bool, found: &mut InstanceSet)
    requires
        old(found).wf(),
    ensures
        final(found).wf(),
        final(found)@ == capture_privileged(context.nodes@, ps@, bases, old(found)@),
{
    let ghost m = found@;
    let mut i: usize = 0;
    while i < ps.len()
        invariant
            i <= ps@.len(),
            found.wf(),
            found@ == capture_privileged(context.nodes@, ps@.subrange(0, i as int), bases, m),
        decreases ps@.len() - i,
    {
        let p = ps[i];
        proof {
            assert(ps@.subrange(0, i + 1).drop_last() =~= ps@.subrange(0, i as int));
        }
        if p < context.nodes.len() {
            let name = context.nodes[p].name.as_str();
            let hit = if bases { access_control_base(name) } else { privileged_modifier(name) };
            if hit {
                let file = context.file_of(p);
                found.capture(file, context.nodes[p].src.line, context.nodes[p].id);
            }
        }
        i += 1;
    }
    proof {
        assert(ps@.subrange(0, ps@.len() as int) =~= ps@);
    }
}

/// Flags contracts whose owners hold privileged rights.
pub struct CentralizationRiskDetector {
    found_instances: InstanceSet,
}

impl CentralizationRiskDetector {
    pub fn new() -> (r: Self)
        ensures
            r.inv(),
            r.found() == Map::<InstanceKey, NodeID>::empty(),
    {
        CentralizationRiskDetector { found_instances: InstanceSet::new() }
    }
}

impl IssueDetector for CentralizationRiskDetector {
    closed spec fn inv(&self) -> bool {
        self.found_instances.wf()
    }

    open spec fn always_succeeds(&self) -> bool {
        true
    }

    closed spec fn found(&self) -> Map<InstanceKey, NodeID> {
        self.found_instances@
    }

    open spec fn expected(&self, context: &WorkspaceContext) -> Map<InstanceKey, NodeID> {
        centralization_findings(*context)
    }

    open spec fn spec_severity(&self) -> IssueSeverity {
        IssueSeverity::Medium
    }

    open spec fn spec_name(&self) -> Seq<char> {
        pool_name_text(IssueDetectorNamePool::CentralizationRisk)
    }

    open spec fn spec_title(&self) -> Seq<char> {
        "Centralization Risk for trusted owners"@
    }

    open spec fn spec_description(&self) -> Seq<char> {
        "Contracts have owners with privileged rights to perform admin tasks and need to be trusted to not perform malicious updates or drain funds."@
    }

    fn detect(&mut self, context: &WorkspaceContext) -> (r: Result<bool, String>) {
        let mut found = InstanceSet::new();
        capture_list(context, &context.inheritance_specifiers, true, &mut found);
        capture_list(context, &context.modifier_invocations, false, &mut found);
        self.found_instances = found;
        Ok(!self.found_instances.is_empty())
    }

    fn severity(&self) -> (r: IssueSeverity) {
        IssueSeverity::Medium
    }

    fn title(&self) -> (r: String) {
        "Centralization Risk for trusted owners".to_owned()
    }

    fn description(&self) -> (r: String) {
        "Contracts have owners with privileged rights to perform admin tasks and need to be trusted to not perform malicious updates or drain funds.".to_owned()
    }

    fn name(&self) -> (r: String) {
        IssueDetectorNamePool::CentralizationRisk.as_string()
    }

    fn instances(&self) -> (r: Vec<Instance>) {
        self.found_instances.to_vec()
    }
}

} // verus!
