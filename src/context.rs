use vstd::prelude::*;
use crate::ast::{AstNode, NodeID, NodeKind, SourceLocation};
use crate::instances::InstanceKey;

verus! {

/// One node as it stands in the canonical table of a workspace.
///
/// `parent` is the table position of the node that holds it among its
/// children (`None` for a source unit), `unit` the position of the source unit
/// it belongs to, and `end` one past the position of its last descendant, so
/// that its subtree fills the positions from its own up to `end`.
#[derive(Debug)]
pub struct IndexedNode {
    pub id: NodeID,
    pub kind: NodeKind,
    pub name: String,
    pub src: SourceLocation,
    pub parent: Option<usize>,
    pub unit: usize,
    pub end: usize,
}

/// The table entries of `n` and its subtree in pre-order, `n` placed at `start`.
pub open spec fn flatten(n: AstNode, parent: Option<usize>, unit: usize, start: nat) -> Seq<IndexedNode>
    decreases n, n.children@.len() + 1,
{
    let kids = flatten_children(n, n.children@.len() as int, start, unit);
    seq![IndexedNode {
        id: n.id,
        kind: n.kind,
        name: n.name,
        src: n.src,
        parent: parent,
        unit: unit,
        end: (start + 1 + kids.len()) as usize,
    }] + kids
}

/// The table entries of the first `i` children of `n`, `n` placed at `start`.
pub open spec fn flatten_children(n: AstNode, i: int, start: nat, unit: usize) -> Seq<IndexedNode>
    decreases n, if i <= 0 { 0 } else { i },
{
    if i <= 0 || i > n.children@.len() {
        Seq::empty()
    } else {
        let prev = flatten_children(n, i - 1, start, unit);
        prev + flatten(n.children@[i - 1], Some(start as usize), unit, start + 1 + prev.len())
    }
}

/// The canonical table of the first `k` source units.
pub open spec fn flatten_units(units: Seq<AstNode>, k: int) -> Seq<IndexedNode>
    decreases if k <= 0 { 0 } else { k },
{
    if k <= 0 || k > units.len() {
        Seq::empty()
    } else {
        let prev = flatten_units(units, k - 1);
        prev + flatten(units[k - 1], None, prev.len() as usize, prev.len())
    }
}


/// Appends `node` and its subtree to `out` in pre-order, recording each
/// node's parent position, source unit and subtree end.
fn visit(node: &AstNode, parent: Option<usize>, unit: usize, out: &mut Vec<IndexedNode>)
    ensures
        final(out)@ == old(out)@ + flatten(*node, parent, unit, old(out)@.len()),
    decreases node,
{
    let pos = out.len();
    let ghost start = old(out)@;
    out.push(IndexedNode {
        id: node.id,
        kind: node.kind,
        name: node.name.clone(),
        src: node.src,
        parent,
        unit,
        end: pos,
    });
    let ghost head = out@[pos as int];
    let mut i: usize = 0;
    while i < node.children.len()
        invariant
            0 <= i <= node.children@.len(),
            pos == start.len(),
            out@ == start + seq![head] + flatten_children(*node, i as int, pos as nat, unit),
            head.id == node.id && head.kind == node.kind && head.name == node.name
                && head.src == node.src && head.parent == parent && head.unit == unit,
        decreases node.children@.len() - i,
    {
        proof {
            assert(decreases_to!(node => node.children@[i as int]));
        }
        visit(&node.children[i], Some(pos), unit, out);
        proof {
            assert(out@ =~= start + seq![head] + flatten_children(*node, i + 1, pos as nat, unit));
        }
        i += 1;
    }
    let end = out.len();
    let entry = IndexedNode {
        id: node.id,
        kind: node.kind,
        name: node.name.clone(),
        src: node.src,
        parent,
        unit,
        end,
    };
    out.set(pos, entry);
    proof {
        assert(out@ =~= start + flatten(*node, parent, unit, pos as nat));
    }
}

/// Table positions from `lo` up to (not including) `hi` whose node is of kind `k`, in order.
pub open spec fn positions_in(t: Seq<IndexedNode>, lo: int, hi: int, k: NodeKind) -> Seq<usize>
    decreases hi - lo,
{
    if hi <= lo || hi > t.len() {
        Seq::empty()
    } else {
        let prev = positions_in(t, lo, hi - 1, k);
        if t[hi - 1].kind == k {
            prev.push((hi - 1) as usize)
        } else {
            prev
        }
    }
}

/// Every position of the table whose node is of kind `k`, in order.
pub open spec fn kind_positions(t: Seq<IndexedNode>, k: NodeKind) -> Seq<usize> {
    positions_in(t, 0, t.len() as int, k)
}

/// Positions strictly inside the subtree rooted at `root` whose node is of kind `k`.
pub open spec fn subtree_positions(t: Seq<IndexedNode>, root: int, k: NodeKind) -> Seq<usize> {
    let end = if t[root].end as int <= t.len() { t[root].end as int } else { t.len() as int };
    positions_in(t, root + 1, end, k)
}

/// The indexed model of one run: every node of every source unit in one
/// canonical table, in pre-order, with the positions of each kind that the
/// analyses query kept in table order.
pub struct WorkspaceContext {
    pub nodes: Vec<IndexedNode>,
    pub source_units: Vec<usize>,
    pub contract_definitions: Vec<usize>,
    pub inheritance_specifiers: Vec<usize>,
    pub modifier_invocations: Vec<usize>,
    pub identifiers: Vec<usize>,
    pub member_accesses: Vec<usize>,
    pub for_statements: Vec<usize>,
    pub while_statements: Vec<usize>,
    pub import_directives: Vec<usize>,
}

/// Positions from `lo` up to `hi` in `nodes` whose node is of kind `k`.
fn collect_kind(nodes: &Vec<IndexedNode>, lo: usize, hi: usize, k: NodeKind) -> (r: Vec<usize>)
    requires
        lo <= hi <= nodes@.len(),
    ensures
        r@ == positions_in(nodes@, lo as int, hi as int, k),
{
    let mut r: Vec<usize> = Vec::new();
    let mut i: usize = lo;
    while i < hi
        invariant
            lo <= i <= hi <= nodes@.len(),
            r@ == positions_in(nodes@, lo as int, i as int, k),
        decreases hi - i,
    {
        if nodes[i].kind == k {
            r.push(i);
        }
        i += 1;
    }
    r
}

impl WorkspaceContext {
    /// The per-kind collections are exactly the positions of their kind in the table.
    pub open spec fn wf(&self) -> bool {
        &&& forall|j: int| 0 <= j < self.nodes@.len() ==> #[trigger] table_entry_ok(self.nodes@, j)
        &&& self.source_units@ == kind_positions(self.nodes@, NodeKind::SourceUnit)
        &&& self.contract_definitions@ == kind_positions(self.nodes@, NodeKind::ContractDefinition)
        &&& self.inheritance_specifiers@ == kind_positions(self.nodes@, NodeKind::InheritanceSpecifier)
        &&& self.modifier_invocations@ == kind_positions(self.nodes@, NodeKind::ModifierInvocation)
        &&& self.identifiers@ == kind_positions(self.nodes@, NodeKind::Identifier)
        &&& self.member_accesses@ == kind_positions(self.nodes@, NodeKind::MemberAccess)
        &&& self.for_statements@ == kind_positions(self.nodes@, NodeKind::ForStatement)
        &&& self.while_statements@ == kind_positions(self.nodes@, NodeKind::WhileStatement)
        &&& self.import_directives@ == kind_positions(self.nodes@, NodeKind::ImportDirective)
    }

    /// Indexes the given source units in one pre-order pass each.
    pub fn build(units: &Vec<AstNode>) -> (r: WorkspaceContext)
        ensures
            r.wf(),
            r.nodes@ == flatten_units(units@, units@.len() as int),
    {
        let mut nodes: Vec<IndexedNode> = Vec::new();
        let mut u: usize = 0;
        while u < units.len()
            invariant
                u <= units@.len(),
                nodes@ == flatten_units(units@, u as int),
            decreases units@.len() - u,
        {
            let pos = nodes.len();
            visit(&units[u], None, pos, &mut nodes);
            u += 1;
        }
        let n = nodes.len();
        proof {
            lemma_parent_contains(units@, units@.len() as int);
        }
        let source_units = collect_kind(&nodes, 0, n, NodeKind::SourceUnit);
        let contract_definitions = collect_kind(&nodes, 0, n, NodeKind::ContractDefinition);
        let inheritance_specifiers = collect_kind(&nodes, 0, n, NodeKind::InheritanceSpecifier);
        let modifier_invocations = collect_kind(&nodes, 0, n, NodeKind::ModifierInvocation);
        let identifiers = collect_kind(&nodes, 0, n, NodeKind::Identifier);
        let member_accesses = collect_kind(&nodes, 0, n, NodeKind::MemberAccess);
        let for_statements = collect_kind(&nodes, 0, n, NodeKind::ForStatement);
        let while_statements = collect_kind(&nodes, 0, n, NodeKind::WhileStatement);
        let import_directives = collect_kind(&nodes, 0, n, NodeKind::ImportDirective);
        WorkspaceContext {
            nodes,
            source_units,
            contract_definitions,
            inheritance_specifiers,
            modifier_invocations,
            identifiers,
            member_accesses,
            for_statements,
            while_statements,
            import_directives,
        }
    }

    /// Positions inside the subtree of the node at `root` whose node is of kind `k`.
    pub fn extract_of_kind(&self, root: usize, k: NodeKind) -> (r: Vec<usize>)
        requires
            root < self.nodes@.len(),
        ensures
            r@ == subtree_positions(self.nodes@, root as int, k),
    {
        let n = self.nodes.len();
        let end = if self.nodes[root].end <= n { self.nodes[root].end } else { n };
        if end <= root {
            return Vec::new();
        }
        collect_kind(&self.nodes, root + 1, end, k)
    }

    /// Position of the node that holds the node at `pos` among its children;
    /// `None` for a source unit.
    pub fn parent_of(&self, pos: usize) -> (r: Option<usize>)
        requires
            pos < self.nodes@.len(),
        ensures
            r == self.nodes@[pos as int].parent,
    {
        self.nodes[pos].parent
    }

    /// The closest proper ancestor of the node at `pos` whose kind is `k`;
    /// `None` when the walk up the parent chain reaches a root first.
    pub fn closest_ancestor_of_kind(&self, pos: usize, k: NodeKind) -> (r: Option<usize>)
        requires
            self.wf(),
            pos < self.nodes@.len(),
        ensures
            r == ancestor_of_kind(self.nodes@, pos as int, k),
    {
        let mut cur = pos;
        while true
            invariant
                self.wf(),
                cur < self.nodes@.len(),
                ancestor_of_kind(self.nodes@, pos as int, k) == ancestor_of_kind(self.nodes@, cur as int, k),
            decreases cur,
        {
            proof {
                assert(table_entry_ok(self.nodes@, cur as int));
            }
            match self.nodes[cur].parent {
                None => {
                    return None;
                },
                Some(p) => {
                    if self.nodes[p].kind == k {
                        return Some(p);
                    }
                    cur = p;
                },
            }
        }
        None
    }

    /// The absolute path of the source unit that holds the node at `pos`.
    pub fn file_of(&self, pos: usize) -> (r: String)
        requires
            pos < self.nodes@.len(),
        ensures
            r@ == file_path(self.nodes@, pos as int),
    {
        let u = self.nodes[pos].unit;
        if u < self.nodes.len() {
            self.nodes[u].name.clone()
        } else {
            String::new()
        }
    }
}

/// The closest proper ancestor of the node at `pos` whose kind is `k`,
/// walking parent links that lead to earlier positions.
pub open spec fn ancestor_of_kind(t: Seq<IndexedNode>, pos: int, k: NodeKind) -> Option<usize>
    decreases pos,
{
    if pos < 0 || pos >= t.len() {
        None
    } else {
        match t[pos].parent {
            None => None,
            Some(p) => if p < pos {
                if t[p as int].kind == k {
                    Some(p)
                } else {
                    ancestor_of_kind(t, p as int, k)
                }
            } else {
                None
            },
        }
    }
}

/// The absolute path of the source unit of the node at `pos`.
pub open spec fn file_path(t: Seq<IndexedNode>, pos: int) -> Seq<char> {
    let u = t[pos].unit as int;
    if u < t.len() { t[u].name@ } else { Seq::empty() }
}

/// Where a finding on the node at `pos` is reported: its file and line.
pub open spec fn key_at(t: Seq<IndexedNode>, pos: int) -> InstanceKey {
    (file_path(t, pos), t[pos].src.line)
}

/// The entry `k[j]`, placed at `start + 1 + j` after a head at `start`,
/// belongs to `unit` and has a parent placed before it, at the head or at an
/// entry of `k` whose subtree reaches past it.
pub open spec fn child_entry_ok(k: Seq<IndexedNode>, start: int, unit: usize, j: int) -> bool {
    &&& k[j].unit == unit
    &&& k[j].parent is Some
    &&& start <= k[j].parent->Some_0 < start + 1 + j
    &&& k[j].parent->Some_0 > start ==> start + 1 + j < k[k[j].parent->Some_0 - start - 1].end
}

/// The entry `s[j]`, placed at `start + j`, belongs to `unit` and has a
/// parent placed before it in `s` whose subtree reaches past it.
pub open spec fn inner_entry_ok(s: Seq<IndexedNode>, start: int, unit: usize, j: int) -> bool {
    &&& s[j].unit == unit
    &&& s[j].parent is Some
    &&& start <= s[j].parent->Some_0 < start + j
    &&& start + j < s[s[j].parent->Some_0 - start].end
}

proof fn lemma_children_parents(n: AstNode, i: int, start: nat, unit: usize)
    requires
        start + 1 + flatten_children(n, i, start, unit).len() <= usize::MAX,
    ensures
        forall|j: int|
            0 <= j < flatten_children(n, i, start, unit).len() ==> #[trigger] child_entry_ok(
                flatten_children(n, i, start, unit),
                start as int,
                unit,
                j,
            ),
    decreases n, if i <= 0 { 0 } else { i },
{
    if i <= 0 || i > n.children@.len() {
    } else {
        let prev = flatten_children(n, i - 1, start, unit);
        let cs = start + 1 + prev.len();
        let c = flatten(n.children@[i - 1], Some(start as usize), unit, cs);
        let k = flatten_children(n, i, start, unit);
        assert(k == prev + c);
        lemma_children_parents(n, i - 1, start, unit);
        lemma_flatten_parents(n.children@[i - 1], Some(start as usize), unit, cs);
        assert forall|j: int| 0 <= j < k.len() implies #[trigger] child_entry_ok(k, start as int, unit, j) by {
            if j < prev.len() {
                assert(child_entry_ok(prev, start as int, unit, j));
                assert(k[j] == prev[j]);
                let p = prev[j].parent->Some_0;
                if p > start {
                    assert(k[p - start - 1] == prev[p - start - 1]);
                }
            } else {
                let jj = j - prev.len();
                assert(k[j] == c[jj]);
                if jj > 0 {
                    assert(inner_entry_ok(c, cs as int, unit, jj));
                    let p = c[jj].parent->Some_0;
                    assert(k[p - start - 1] == c[p - cs]);
                }
            }
        }
    }
}

/// `flatten(n, parent, unit, start)` places `n` first, with `parent` and a
/// subtree end covering the whole sequence; every later entry belongs to
/// `unit` and has a parent placed before it whose subtree reaches past it.
proof fn lemma_flatten_parents(n: AstNode, parent: Option<usize>, unit: usize, start: nat)
    requires
        start + flatten(n, parent, unit, start).len() <= usize::MAX,
    ensures
        flatten(n, parent, unit, start).len() >= 1,
        flatten(n, parent, unit, start)[0].parent == parent,
        flatten(n, parent, unit, start)[0].unit == unit,
        flatten(n, parent, unit, start)[0].end == start + flatten(n, parent, unit, start).len(),
        forall|j: int|
            1 <= j < flatten(n, parent, unit, start).len() ==> #[trigger] inner_entry_ok(
                flatten(n, parent, unit, start),
                start as int,
                unit,
                j,
            ),
    decreases n, n.children@.len() + 1,
{
    let kids = flatten_children(n, n.children@.len() as int, start, unit);
    let s = flatten(n, parent, unit, start);
    assert(s.len() == 1 + kids.len());
    lemma_children_parents(n, n.children@.len() as int, start, unit);
    assert forall|j: int| 1 <= j < s.len() implies #[trigger] inner_entry_ok(s, start as int, unit, j) by {
        assert(child_entry_ok(kids, start as int, unit, j - 1));
        assert(s[j] == kids[j - 1]);
        let p = kids[j - 1].parent->Some_0;
        if p > start {
            assert(s[p - start] == kids[p - start - 1]);
        }
    }
}

/// The entry `t[j]` is a source unit, standing as its own unit with no
/// parent, or has a parent placed before it whose subtree contains it and
/// which belongs to the same unit.
pub open spec fn table_entry_ok(t: Seq<IndexedNode>, j: int) -> bool {
    match t[j].parent {
        None => t[j].unit == j,
        Some(p) => p < j < t[p as int].end && t[j].unit == t[p as int].unit,
    }
}

/// Every node of the canonical table is a source unit with no parent, or
/// has a parent placed before it whose subtree contains it.
pub proof fn lemma_parent_contains(units: Seq<AstNode>, k: int)
    requires
        flatten_units(units, k).len() <= usize::MAX,
    ensures
        forall|j: int|
            0 <= j < flatten_units(units, k).len() ==> #[trigger] table_entry_ok(flatten_units(units, k), j),
    decreases if k <= 0 { 0 } else { k },
{
    if k <= 0 || k > units.len() {
    } else {
        let prev = flatten_units(units, k - 1);
        let l = prev.len();
        let s = flatten(units[k - 1], None, l as usize, l);
        let t = flatten_units(units, k);
        assert(t == prev + s);
        lemma_parent_contains(units, k - 1);
        lemma_flatten_parents(units[k - 1], None, l as usize, l);
        assert forall|j: int| 0 <= j < t.len() implies #[trigger] table_entry_ok(t, j) by {
            if j < l {
                assert(table_entry_ok(prev, j));
                assert(t[j] == prev[j]);
                match prev[j].parent {
                    Some(p) => {
                        assert(t[p as int] == prev[p as int]);
                    },
                    None => {},
                }
            } else {
                assert(t[j] == s[j - l]);
                if j > l {
                    assert(inner_entry_ok(s, l as int, l as usize, j - l));
                    let p = s[j - l].parent->Some_0;
                    if p > l {
                        assert(inner_entry_ok(s, l as int, l as usize, p - l));
                    }
                    assert(t[p as int] == s[p - l]);
                }
            }
        }
    }
}

/// Building twice from the same source units gives the same table and the
/// same per-kind collections.
pub proof fn lemma_build_deterministic(units: Seq<AstNode>, a: WorkspaceContext, b: WorkspaceContext)
    requires
        a.wf(),
        b.wf(),
        a.nodes@ == flatten_units(units, units.len() as int),
        b.nodes@ == flatten_units(units, units.len() as int),
    ensures
        a.nodes@ == b.nodes@,
        a.source_units@ == b.source_units@,
        a.contract_definitions@ == b.contract_definitions@,
        a.inheritance_specifiers@ == b.inheritance_specifiers@,
        a.modifier_invocations@ == b.modifier_invocations@,
        a.identifiers@ == b.identifiers@,
        a.member_accesses@ == b.member_accesses@,
        a.for_statements@ == b.for_statements@,
        a.while_statements@ == b.while_statements@,
        a.import_directives@ == b.import_directives@,
{
}

} // verus!
