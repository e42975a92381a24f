use vstd::prelude::*;
use crate::ast::NodeID;
use crate::text::{lemma_seq_lt_irrefl, lemma_seq_lt_total, lemma_seq_lt_trans, seq_lt, str_eq, str_lt};

verus! {

/// Where a finding was reported: a source file path and a 1-based line.
pub type InstanceKey = (Seq<char>, usize);

/// One reported location and the node that represents it.
#[derive(Debug)]
pub struct Instance {
    pub file: String,
    pub line: usize,
    pub node: NodeID,
}

pub open spec fn key_of(i: Instance) -> InstanceKey {
    (i.file@, i.line)
}

/// Order of report locations: by file path, then by line.
pub open spec fn key_lt(a: InstanceKey, b: InstanceKey) -> bool {
    seq_lt(a.0, b.0) || (a.0 == b.0 && a.1 < b.1)
}

/// `s` lists the entries of `m`, each once, ordered by location.
pub open spec fn represents(s: Seq<Instance>, m: Map<InstanceKey, NodeID>) -> bool {
    &&& forall|i: int, j: int| 0 <= i < j < s.len() ==> key_lt(key_of(s[i]), key_of(s[j]))
    &&& forall|i: int| 0 <= i < s.len() ==> #[trigger] m.contains_key(key_of(s[i])) && m[key_of(s[i])] == s[i].node
    &&& forall|k: InstanceKey| #[trigger] m.contains_key(k) ==> exists|i: int| 0 <= i < s.len() && key_of(s[i]) == k
}

proof fn lemma_key_lt_trans(a: InstanceKey, b: InstanceKey, c: InstanceKey)
    requires
        key_lt(a, b),
        key_lt(b, c),
    ensures
        key_lt(a, c),
{
    if seq_lt(a.0, b.0) && seq_lt(b.0, c.0) {
        lemma_seq_lt_trans(a.0, b.0, c.0, 0);
    }
}

proof fn lemma_key_lt_irrefl(a: InstanceKey)
    ensures
        !key_lt(a, a),
{
    lemma_seq_lt_irrefl(a.0, 0);
}

proof fn lemma_key_lt_total(a: InstanceKey, b: InstanceKey)
    requires
        a != b,
        !key_lt(a, b),
    ensures
        key_lt(b, a),
{
    if !seq_lt(b.0, a.0) {
        assert(a.0.subrange(0, 0) =~= b.0.subrange(0, 0));
        lemma_seq_lt_total(a.0, b.0, 0);
    }
}

/// A detector's findings: at most one node per (file, line), kept in
/// location order. Capturing a second node at a location replaces the first.
pub struct InstanceSet {
    entries: Vec<Instance>,
    model: Ghost<Map<InstanceKey, NodeID>>,
}

impl View for InstanceSet {
    type V = Map<InstanceKey, NodeID>;

    closed spec fn view(&self) -> Map<InstanceKey, NodeID> {
        self.model@
    }
}

/// Whether `a` is reported before `b`.
fn instance_lt(a: &Instance, b: &Instance) -> (r: bool)
    ensures
        r == key_lt(key_of(*a), key_of(*b)),
{
    if str_lt(a.file.as_str(), b.file.as_str()) {
        true
    } else if str_eq(a.file.as_str(), b.file.as_str()) {
        a.line < b.line
    } else {
        false
    }
}

impl InstanceSet {
    pub closed spec fn wf(&self) -> bool {
        represents(self.entries@, self.model@)
    }

    pub fn new() -> (r: InstanceSet)
        ensures
            r.wf(),
            r@ == Map::<InstanceKey, NodeID>::empty(),
    {
        InstanceSet { entries: Vec::new(), model: Ghost(Map::empty()) }
    }

    /// Records `node` as the finding at (`file`, `line`), replacing any earlier one there.
    pub fn capture(&mut self, file: String, line: usize, node: NodeID)
        requires
            old(self).wf(),
        ensures
            final(self).wf(),
            final(self)@ == old(self)@.insert((file@, line), node),
    {
        let item = Instance { file, line, node };
        let ghost k = key_of(item);
        let ghost s = self.entries@;
        let ghost m = self.model@;
        let n = self.entries.len();
        let mut p: usize = 0;
        while p < n && instance_lt(&self.entries[p], &item)
            invariant
                n == self.entries@.len(),
                self.entries@ == s,
                k == key_of(item),
                p <= n,
                forall|i: int| 0 <= i < p ==> key_lt(key_of(s[i]), k),
            decreases n - p,
        {
            p += 1;
        }
        let ghost m2 = m.insert(k, node);
        if p < n && str_eq(self.entries[p].file.as_str(), item.file.as_str())
            && self.entries[p].line == item.line
        {
            self.entries.set(p, item);
            self.model = Ghost(m2);
            proof {
                let s2 = self.entries@;
                assert(key_of(s[p as int]) == k);
                assert forall|i: int, j: int| 0 <= i < j < s2.len() implies key_lt(
                    key_of(s2[i]),
                    key_of(s2[j]),
                ) by {
                    assert(key_of(s2[i]) == key_of(s[i]));
                    assert(key_of(s2[j]) == key_of(s[j]));
                }
                assert forall|i: int| 0 <= i < s2.len() implies #[trigger] m2.contains_key(
                    key_of(s2[i]),
                ) && m2[key_of(s2[i])] == s2[i].node by {
                    if i != p {
                        assert(m.contains_key(key_of(s[i])));
                        lemma_key_lt_irrefl(k);
                        if i < p {
                            assert(key_lt(key_of(s[i]), key_of(s[p as int])));
                        } else {
                            assert(key_lt(key_of(s[p as int]), key_of(s[i])));
                        }
                    }
                }
                assert forall|kk: InstanceKey| #[trigger] m2.contains_key(kk) implies exists|i: int|
                    0 <= i < s2.len() && key_of(s2[i]) == kk by {
                    if kk == k {
                        assert(key_of(s2[p as int]) == kk);
                    } else {
                        assert(m.contains_key(kk));
                        let i = choose|i: int| 0 <= i < s.len() && key_of(s[i]) == kk;
                        assert(key_of(s2[i]) == kk);
                    }
                }
            }
        } else {
            proof {
                if p < n {
                    lemma_key_lt_total(key_of(s[p as int]), k);
                }
            }
            self.entries.insert(p, item);
            self.model = Ghost(m2);
            proof {
                let s2 = self.entries@;
                assert forall|i: int| 0 <= i < s.len() implies key_of(s[i]) != k by {
                    if i < p {
                        lemma_key_lt_irrefl(k);
                    } else {
                        if i > p {
                            lemma_key_lt_trans(k, key_of(s[p as int]), key_of(s[i]));
                        }
                        lemma_key_lt_irrefl(k);
                    }
                }
                assert forall|i: int, j: int| 0 <= i < j < s2.len() implies key_lt(
                    key_of(s2[i]),
                    key_of(s2[j]),
                ) by {
                    if j < p {
                    } else if j == p {
                    } else if i < p {
                        if j > p + 1 {
                            lemma_key_lt_trans(k, key_of(s[p as int]), key_of(s2[j]));
                        }
                        lemma_key_lt_trans(key_of(s2[i]), k, key_of(s2[j]));
                    } else if i == p {
                        if j > p + 1 {
                            lemma_key_lt_trans(k, key_of(s[p as int]), key_of(s2[j]));
                        }
                    } else {
                        assert(key_of(s2[i]) == key_of(s[i - 1]));
                        assert(key_of(s2[j]) == key_of(s[j - 1]));
                    }
                }
                assert forall|i: int| 0 <= i < s2.len() implies #[trigger] m2.contains_key(
                    key_of(s2[i]),
                ) && m2[key_of(s2[i])] == s2[i].node by {
                    if i < p {
                        assert(m.contains_key(key_of(s[i])));
                    } else if i > p {
                        assert(s2[i] == s[i - 1]);
                        assert(m.contains_key(key_of(s[i - 1])));
                    }
                }
                assert forall|kk: InstanceKey| #[trigger] m2.contains_key(kk) implies exists|i: int|
                    0 <= i < s2.len() && key_of(s2[i]) == kk by {
                    if kk == k {
                        assert(key_of(s2[p as int]) == kk);
                    } else {
                        assert(m.contains_key(kk));
                        let i = choose|i: int| 0 <= i < s.len() && key_of(s[i]) == kk;
                        if i < p {
                            assert(key_of(s2[i]) == kk);
                        } else {
                            assert(key_of(s2[i + 1]) == kk);
                        }
                    }
                }
            }
        }
    }

    /// Whether nothing was captured.
    pub fn is_empty(&self) -> (r: bool)
        requires
            self.wf(),
        ensures
            r == (self@ == Map::<InstanceKey, NodeID>::empty()),
    {
        proof {
            if self.entries@.len() > 0 {
                assert(self@.contains_key(key_of(self.entries@[0])));
            } else {
                assert(self@ =~= Map::<InstanceKey, NodeID>::empty());
            }
        }
        self.entries.len() == 0
    }

    /// The findings in location order.
    pub fn to_vec(&self) -> (r: Vec<Instance>)
        requires
            self.wf(),
        ensures
            represents(r@, self@),
    {
        let mut r: Vec<Instance> = Vec::new();
        let mut i: usize = 0;
        while i < self.entries.len()
            invariant
                i <= self.entries@.len(),
                r@ == self.entries@.subrange(0, i as int),
            decreases self.entries@.len() - i,
        {
            let e = Instance {
                file: self.entries[i].file.clone(),
                line: self.entries[i].line,
                node: self.entries[i].node,
            };
            r.push(e);
            proof {
                assert(r@ =~= self.entries@.subrange(0, i + 1));
            }
            i += 1;
        }
        proof {
            assert(r@ =~= self.entries@);
        }
        r
    }
}

} // verus!
