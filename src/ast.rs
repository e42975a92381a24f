use vstd::prelude::*;

verus! {

/// Identity of a node, assigned by the compiler that produced the tree.
pub type NodeID = u64;

/// The node kinds that the analyses look at; every other kind is `Other`.
#[derive(Debug, Clone, Copy, PartialEq, Eq, Structural)]
pub enum NodeKind {
    SourceUnit,
    ContractDefinition,
    InheritanceSpecifier,
    FunctionDefinition,
    ModifierDefinition,
    ModifierInvocation,
    Identifier,
    MemberAccess,
    ForStatement,
    WhileStatement,
    ImportDirective,
    Other,
}

/// Where a node stands in its file: byte offset, byte length and 1-based line.
#[derive(Debug, Clone, Copy, PartialEq, Eq, Structural)]
pub struct SourceLocation {
    pub offset: usize,
    pub length: usize,
    pub line: usize,
}

/// One node of a compiler-produced syntax tree, owning its children in source order.
///
/// `name` holds the text that the node's kind carries: the absolute path of a
/// source unit or of an imported file, the name of a contract, function,
/// modifier or identifier, the base name of an inheritance specifier, the
/// modifier named by an invocation, the member name of a member access.
/// It is empty for kinds that carry none.
#[derive(Debug)]
pub struct AstNode {
    pub id: NodeID,
    pub kind: NodeKind,
    pub name: String,
    pub src: SourceLocation,
    pub children: Vec<AstNode>,
}

} // verus!
