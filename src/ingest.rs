use vstd::prelude::*;
use crate::ast::{AstNode, NodeKind, SourceLocation};
use crate::text::str_eq;

verus! {

/// Why a syntax tree could not be taken in.
#[derive(Debug, Clone, Copy, PartialEq, Eq, Structural)]
pub enum IngestionError {
    /// A node has no id.
    MissingId,
    /// A node's `src` is absent or is not `offset:length[:file]` in decimal.
    MalformedLocation,
    /// A node lacks the text its kind carries.
    MissingName,
}

/// A node as the compiler's document gives it, before checking: its
/// `nodeType`, `id`, `src` and the text fields that some kinds carry.
#[derive(Debug)]
pub struct RawNode {
    pub node_type: String,
    pub id: Option<u64>,
    pub src: Option<String>,
    pub name: Option<String>,
    pub member_name: Option<String>,
    pub absolute_path: Option<String>,
    pub base_name: Option<String>,
    pub modifier_name: Option<String>,
    pub children: Vec<RawNode>,
}

/// The kind that a `nodeType` tag names.
pub open spec fn kind_of(t: Seq<char>) -> NodeKind {
    if t == "SourceUnit"@ { NodeKind::SourceUnit }
    else if t == "ContractDefinition"@ { NodeKind::ContractDefinition }
    else if t == "InheritanceSpecifier"@ { NodeKind::InheritanceSpecifier }
    else if t == "FunctionDefinition"@ { NodeKind::FunctionDefinition }
    else if t == "ModifierDefinition"@ { NodeKind::ModifierDefinition }
    else if t == "ModifierInvocation"@ { NodeKind::ModifierInvocation }
    else if t == "Identifier"@ { NodeKind::Identifier }
    else if t == "MemberAccess"@ { NodeKind::MemberAccess }
    else if t == "ForStatement"@ { NodeKind::ForStatement }
    else if t == "WhileStatement"@ { NodeKind::WhileStatement }
    else if t == "ImportDirective"@ { NodeKind::ImportDirective }
    else { NodeKind::Other }
}

impl NodeKind {
    /// The kind that a `nodeType` tag names; tags of kinds the analyses do
    /// not look at give `Other`.
    pub fn from_node_type(t: &str) -> (r: NodeKind)
        ensures
            r == kind_of(t@),
    {
        if str_eq(t, "SourceUnit") { NodeKind::SourceUnit }
        else if str_eq(t, "ContractDefinition") { NodeKind::ContractDefinition }
        else if str_eq(t, "InheritanceSpecifier") { NodeKind::InheritanceSpecifier }
        else if str_eq(t, "FunctionDefinition") { NodeKind::FunctionDefinition }
        else if str_eq(t, "ModifierDefinition") { NodeKind::ModifierDefinition }
        else if str_eq(t, "ModifierInvocation") { NodeKind::ModifierInvocation }
        else if str_eq(t, "Identifier") { NodeKind::Identifier }
        else if str_eq(t, "MemberAccess") { NodeKind::MemberAccess }
        else if str_eq(t, "ForStatement") { NodeKind::ForStatement }
        else if str_eq(t, "WhileStatement") { NodeKind::WhileStatement }
        else if str_eq(t, "ImportDirective") { NodeKind::ImportDirective }
        else { NodeKind::Other }
    }
}

/// The raw field that holds the text of a node of kind `k`; `None` for
/// kinds that carry no text.
pub open spec fn name_field(r: RawNode, k: NodeKind) -> Option<Option<String>> {
    match k {
        NodeKind::SourceUnit | NodeKind::ImportDirective => Some(r.absolute_path),
        NodeKind::ContractDefinition | NodeKind::FunctionDefinition | NodeKind::ModifierDefinition
        | NodeKind::Identifier => Some(r.name),
        NodeKind::InheritanceSpecifier => Some(r.base_name),
        NodeKind::ModifierInvocation => Some(r.modifier_name),
        NodeKind::MemberAccess => Some(r.member_name),
        _ => None,
    }
}

pub open spec fn is_digit(c: char) -> bool {
    48 <= (c as u32) <= 57
}

pub open spec fn all_digits(s: Seq<char>) -> bool {
    forall|i: int| 0 <= i < s.len() ==> is_digit(#[trigger] s[i])
}

/// The number that a run of decimal digits writes.
pub open spec fn digits_value(s: Seq<char>) -> nat
    decreases s.len(),
{
    if s.len() == 0 {
        0
    } else {
        digits_value(s.drop_last()) * 10 + ((s.last() as u32) - 48) as nat
    }
}

/// The position of the first `:` in `s`, or its length when there is none.
pub open spec fn colon_pos(s: Seq<char>) -> int
    decreases s.len(),
{
    if s.len() == 0 {
        0
    } else if s[0] == ':' {
        0
    } else {
        1 + colon_pos(s.drop_first())
    }
}

/// A field of a location: a non-empty run of digits whose value fits in `usize`.
pub open spec fn field_ok(s: Seq<char>) -> bool {
    s.len() > 0 && all_digits(s) && digits_value(s) <= usize::MAX
}

/// The second and later fields of a location.
pub open spec fn after_offset(s: Seq<char>) -> Seq<char> {
    s.subrange(colon_pos(s) + 1, s.len() as int)
}

/// `s` starts with `offset:length`, both fields in range.
pub open spec fn location_ok(s: Seq<char>) -> bool {
    let c = colon_pos(s);
    &&& c < s.len()
    &&& field_ok(s.subrange(0, c))
    &&& field_ok(after_offset(s).subrange(0, colon_pos(after_offset(s))))
}

/// The (offset, length) that a well-formed location gives.
pub open spec fn location_value(s: Seq<char>) -> (nat, nat) {
    let a = after_offset(s);
    (digits_value(s.subrange(0, colon_pos(s))), digits_value(a.subrange(0, colon_pos(a))))
}

proof fn lemma_colon_pos(s: Seq<char>)
    ensures
        0 <= colon_pos(s) <= s.len(),
        colon_pos(s) < s.len() ==> s[colon_pos(s)] == ':',
        forall|i: int| 0 <= i < colon_pos(s) ==> s[i] != ':',
    decreases s.len(),
{
    if s.len() > 0 && s[0] != ':' {
        lemma_colon_pos(s.drop_first());
        assert forall|i: int| 0 <= i < colon_pos(s) implies s[i] != ':' by {
            if i > 0 {
                assert(s[i] == s.drop_first()[i - 1]);
            }
        }
    }
}

proof fn lemma_colon_pos_at(s: Seq<char>, c: int)
    requires
        0 <= c <= s.len(),
        c < s.len() ==> s[c] == ':',
        forall|i: int| 0 <= i < c ==> s[i] != ':',
    ensures
        colon_pos(s) == c,
{
    lemma_colon_pos(s);
    if colon_pos(s) < c {
        assert(s[colon_pos(s)] != ':');
    } else if colon_pos(s) > c {
        assert(s[c] != ':');
    }
}

/// Reads one field of a location from position `start` of `s`, up to the
/// next `:` or the end: its value and where it stops.
fn read_field(s: &str, start: usize) -> (r: Option<(usize, usize)>)
    requires
        start <= s@.len(),
    ensures
        ({
            let rest = s@.subrange(start as int, s@.len() as int);
            let f = rest.subrange(0, colon_pos(rest));
            match r {
                Some((v, stop)) => field_ok(f) && v == digits_value(f) && stop == start + colon_pos(rest),
                None => !field_ok(f),
            }
        }),
{
    let n = s.unicode_len();
    let ghost rest = s@.subrange(start as int, s@.len() as int);
    let mut i: usize = start;
    let mut acc: usize = 0;
    let mut ok: bool = true;
    while i < n && s.get_char(i) != ':'
        invariant
            n == s@.len(),
            start <= i <= n,
            rest == s@.subrange(start as int, n as int),
            forall|k: int| start <= k < i ==> s@[k] != ':',
            ok ==> all_digits(s@.subrange(start as int, i as int)) && acc == digits_value(s@.subrange(start as int, i as int)),
            !ok ==> !(all_digits(s@.subrange(start as int, i as int)) && digits_value(s@.subrange(start as int, i as int)) <= usize::MAX),
        decreases n - i,
    {
        let c = s.get_char(i);
        let ghost pre = s@.subrange(start as int, i as int);
        let ghost cur = s@.subrange(start as int, i + 1);
        proof {
            assert(cur.drop_last() =~= pre);
            assert(cur.last() == c);
        }
        let u = c as u32;
        if ok {
            if u < 48 || u > 57 {
                ok = false;
                proof {
                    assert(!is_digit(cur[cur.len() - 1]));
                }
            } else {
                let d = (u - 48) as usize;
                if acc > (usize::MAX - d) / 10 {
                    ok = false;
                    proof {
                        assert(acc * 10 + d > usize::MAX) by (nonlinear_arith)
                            requires acc > (usize::MAX - d) / 10, d <= 9;
                    }
                } else {
                    proof {
                        assert(acc * 10 + d <= usize::MAX) by (nonlinear_arith)
                            requires acc <= (usize::MAX - d) / 10, d <= 9;
                    }
                    acc = acc * 10 + d;
                    proof {
                        assert forall|k: int| 0 <= k < cur.len() implies is_digit(#[trigger] cur[k]) by {
                            if k < pre.len() {
                                assert(cur[k] == pre[k]);
                            }
                        }
                    }
                }
            }
        } else {
            proof {
                if all_digits(cur) {
                    assert forall|k: int| 0 <= k < pre.len() implies is_digit(#[trigger] pre[k]) by {
                        assert(pre[k] == cur[k]);
                    }
                    assert(digits_value(cur) >= digits_value(pre));
                }
            }
        }
        i += 1;
    }
    proof {
        let f = s@.subrange(start as int, i as int);
        lemma_colon_pos_at(rest, i - start);
        assert(rest.subrange(0, i - start) =~= f);
    }
    if ok && i > start {
        Some((acc, i))
    } else {
        None
    }
}

/// Reads `offset:length` from the front of a location.
pub fn parse_location(s: &str) -> (r: Option<(usize, usize)>)
    ensures
        match r {
            Some((o, l)) => location_ok(s@) && (o as nat, l as nat) == location_value(s@),
            None => !location_ok(s@),
        },
{
    let n = s.unicode_len();
    proof {
        assert(s@.subrange(0, n as int) =~= s@);
        lemma_colon_pos(s@);
    }
    match read_field(s, 0) {
        None => None,
        Some((offset, stop)) => {
            if stop >= n {
                return None;
            }
            proof {
                let a = s@.subrange(stop + 1, n as int);
                assert(a =~= after_offset(s@));
                assert(s@.subrange(stop + 1, n as int).subrange(0, colon_pos(a)) =~= a.subrange(0, colon_pos(a)));
            }
            match read_field(s, stop + 1) {
                None => None,
                Some((length, _)) => Some((offset, length)),
            }
        },
    }
}

/// The number of newline bytes in `b`.
pub open spec fn newlines(b: Seq<u8>) -> nat
    decreases b.len(),
{
    if b.len() == 0 {
        0
    } else {
        newlines(b.drop_last()) + if b.last() == 10u8 { 1nat } else { 0nat }
    }
}

/// The 1-based line on which byte `offset` of `source` stands.
pub open spec fn line_of(source: Seq<u8>, offset: int) -> nat {
    let end = if offset < source.len() { offset } else { source.len() as int };
    1 + newlines(source.subrange(0, end))
}

proof fn lemma_newlines_bound(b: Seq<u8>)
    ensures
        newlines(b) <= b.len(),
    decreases b.len(),
{
    if b.len() > 0 {
        lemma_newlines_bound(b.drop_last());
    }
}

/// The 1-based line on which byte `offset` of `source` stands; an offset
/// past the end counts as the end.
pub fn line_at(source: &[u8], offset: usize) -> (r: usize)
    requires
        source@.len() < usize::MAX,
    ensures
        r == line_of(source@, offset as int),
{
    let end = if offset < source.len() { offset } else { source.len() };
    let mut line: usize = 1;
    let mut i: usize = 0;
    while i < end
        invariant
            end <= source@.len() < usize::MAX,
            i <= end,
            line == 1 + newlines(source@.subrange(0, i as int)),
        decreases end - i,
    {
        proof {
            assert(source@.subrange(0, i + 1).drop_last() =~= source@.subrange(0, i as int));
            lemma_newlines_bound(source@.subrange(0, i as int));
        }
        if source[i] == 10u8 {
            line = line + 1;
        }
        i += 1;
    }
    line
}

/// What is wrong with the node `r` itself, not looking at its children.
pub open spec fn node_error(r: RawNode) -> Option<IngestionError> {
    if r.id is None {
        Some(IngestionError::MissingId)
    } else if r.src is None || !location_ok(r.src->Some_0@) {
        Some(IngestionError::MalformedLocation)
    } else if name_field(r, kind_of(r.node_type@)) == Some(None::<String>) {
        Some(IngestionError::MissingName)
    } else {
        None
    }
}

/// The first fault of the tree `r` in pre-order.
pub open spec fn first_error(r: RawNode) -> Option<IngestionError>
    decreases r, r.children@.len() + 1,
{
    if node_error(r) is Some {
        node_error(r)
    } else {
        children_error(r, r.children@.len() as int)
    }
}

/// The first fault among the first `i` children of `r`, in pre-order.
pub open spec fn children_error(r: RawNode, i: int) -> Option<IngestionError>
    decreases r, if i <= 0 { 0 } else { i },
{
    if i <= 0 || i > r.children@.len() {
        None
    } else {
        match children_error(r, i - 1) {
            Some(e) => Some(e),
            None => first_error(r.children@[i - 1]),
        }
    }
}

/// The text that a checked node of kind `k` carries.
pub open spec fn name_text(r: RawNode, k: NodeKind) -> Seq<char> {
    match name_field(r, k) {
        Some(Some(s)) => s@,
        _ => Seq::empty(),
    }
}

/// `n` is what a fault-free raw node `r` becomes, at the node itself.
pub open spec fn node_ingested(r: RawNode, n: AstNode, source: Seq<u8>) -> bool {
    let (o, l) = location_value(r.src->Some_0@);
    &&& n.id == r.id->Some_0
    &&& n.kind == kind_of(r.node_type@)
    &&& n.name@ == name_text(r, n.kind)
    &&& n.src.offset == o && n.src.length == l
    &&& n.src.line == line_of(source, o as int)
    &&& n.children@.len() == r.children@.len()
}

/// `n` is what the fault-free raw tree `r` becomes.
pub open spec fn ingested(r: RawNode, n: AstNode, source: Seq<u8>) -> bool
    decreases r, r.children@.len() + 1,
{
    node_ingested(r, n, source) && children_ingested(r, n, source, r.children@.len() as int)
}

/// The first `i` children of `r` become the first `i` children of `n`.
pub open spec fn children_ingested(r: RawNode, n: AstNode, source: Seq<u8>, i: int) -> bool
    decreases r, if i <= 0 { 0 } else { i },
{
    if i <= 0 || i > r.children@.len() {
        true
    } else {
        children_ingested(r, n, source, i - 1) && i <= n.children@.len()
            && ingested(r.children@[i - 1], n.children@[i - 1], source)
    }
}

/// Takes in the raw tree `raw` of a file whose text is `source`, checking
/// every node; fails with the first fault found in pre-order.
pub fn ingest(raw: &RawNode, source: &[u8]) -> (r: Result<AstNode, IngestionError>)
    requires
        source@.len() < usize::MAX,
    ensures
        match r {
            Ok(n) => first_error(*raw) is None && ingested(*raw, n, source@),
            Err(e) => first_error(*raw) == Some(e),
        },
    decreases raw,
{
    let id = match raw.id {
        Some(id) => id,
        None => return Err(IngestionError::MissingId),
    };
    let (offset, length) = match &raw.src {
        Some(s) => match parse_location(s.as_str()) {
            Some(v) => v,
            None => return Err(IngestionError::MalformedLocation),
        },
        None => return Err(IngestionError::MalformedLocation),
    };
    let kind = NodeKind::from_node_type(raw.node_type.as_str());
    let field = match kind {
        NodeKind::SourceUnit | NodeKind::ImportDirective => Some(&raw.absolute_path),
        NodeKind::ContractDefinition | NodeKind::FunctionDefinition | NodeKind::ModifierDefinition
        | NodeKind::Identifier => Some(&raw.name),
        NodeKind::InheritanceSpecifier => Some(&raw.base_name),
        NodeKind::ModifierInvocation => Some(&raw.modifier_name),
        NodeKind::MemberAccess => Some(&raw.member_name),
        _ => None,
    };
    let name = match field {
        Some(Some(s)) => s.clone(),
        Some(None) => return Err(IngestionError::MissingName),
        None => String::new(),
    };
    let line = line_at(source, offset);
    let mut children: Vec<AstNode> = Vec::new();
    let mut i: usize = 0;
    while i < raw.children.len()
        invariant
            source@.len() < usize::MAX,
            i <= raw.children@.len(),
            children@.len() == i,
            children_error(*raw, i as int) is None,
            node_error(*raw) is None,
            forall|k: int| 0 <= k < i ==> ingested(raw.children@[k], #[trigger] children@[k], source@),
        decreases raw.children@.len() - i,
    {
        proof {
            assert(decreases_to!(raw => raw.children@[i as int]));
        }
        match ingest(&raw.children[i], source) {
            Ok(c) => {
                children.push(c);
            },
            Err(e) => {
                proof {
                    assert(children_error(*raw, i + 1) == Some(e));
                    lemma_children_error_sticks(*raw, i + 1, raw.children@.len() as int);
                }
                return Err(e);
            },
        }
        i += 1;
    }
    let n = AstNode { id, kind, name, src: SourceLocation { offset, length, line }, children };
    proof {
        lemma_children_ingested_all(*raw, n, source@, raw.children@.len() as int);
    }
    Ok(n)
}

proof fn lemma_children_error_sticks(r: RawNode, i: int, j: int)
    requires
        0 < i <= j <= r.children@.len(),
        children_error(r, i) is Some,
    ensures
        children_error(r, j) == children_error(r, i),
    decreases j - i,
{
    if j > i {
        lemma_children_error_sticks(r, i, j - 1);
    }
}

proof fn lemma_children_ingested_all(r: RawNode, n: AstNode, source: Seq<u8>, i: int)
    requires
        0 <= i <= r.children@.len(),
        n.children@.len() == r.children@.len(),
        forall|k: int| 0 <= k < r.children@.len() ==> ingested(r.children@[k], #[trigger] n.children@[k], source),
    ensures
        children_ingested(r, n, source, i),
    decreases i,
{
    if i > 0 {
        lemma_children_ingested_all(r, n, source, i - 1);
        assert(ingested(r.children@[i - 1], n.children@[i - 1], source));
    }
}

} // verus!
