//! Equality of nodes by what they hold and how they were derived.

use vstd::prelude::*;
use vstd::std_specs::cmp::PartialEqSpec;
use crate::engine::{positions, Graph, Value};
use crate::model::{node_ok, well_formed, with_leaf, Node};
use crate::op::Op;

verus! {

/// Nodes `a` and `b` of `m` were derived in the same way: their numbers
/// compare equal, their labels and tags are the same, and so, pair by pair,
/// were their operands derived.
pub open spec fn same_derivation<T: PartialEq>(m: Seq<Node<T>>, a: int, b: int) -> bool
    decreases a,
{
    &&& m[a].data.eq_spec(&m[b].data)
    &&& m[a].label == m[b].label
    &&& m[a].op == m[b].op
    &&& m[a].operands.len() == m[b].operands.len()
    &&& forall|k: int|
        0 <= k < m[a].operands.len() && 0 <= #[trigger] m[a].operands[k] < a ==> same_derivation(
            m,
            m[a].operands[k],
            m[b].operands[k],
        )
}

/// The whole derivation of a node, written out as a tree: what the node
/// holds, and the derivations of its operands in place of their positions.
pub struct Term<T> {
    pub data: T,
    pub label: Seq<char>,
    pub op: Op,
    pub operands: Seq<Term<T>>,
}

/// The derivation of node `i` of `m`.
pub open spec fn derivation<T>(m: Seq<Node<T>>, i: int) -> Term<T>
    decreases i,
{
    Term {
        data: m[i].data,
        label: m[i].label,
        op: m[i].op,
        operands: Seq::new(
            m[i].operands.len(),
            |k: int|
                if 0 <= m[i].operands[k] < i {
                    derivation(m, m[i].operands[k])
                } else {
                    arbitrary()
                },
        ),
    }
}

/// `==` of `T` holds of two values exactly when they are the same value.
pub open spec fn eq_is_identity<T: PartialEq>() -> bool {
    forall|x: T, y: T| #[trigger] x.eq_spec(&y) <==> x == y
}

/// Where `==` of the numbers is identity, two nodes of a valid graph were
/// derived in the same way exactly when their derivations are the same tree:
/// equality looks at the whole chain of operands, not at the number alone.
pub proof fn lemma_same_derivation_is_same_tree<T: PartialEq>(m: Seq<Node<T>>, a: int, b: int)
    requires
        well_formed(m),
        0 <= a < m.len(),
        0 <= b < m.len(),
        eq_is_identity::<T>(),
    ensures
        same_derivation(m, a, b) <==> derivation(m, a) == derivation(m, b),
    decreases a,
{
    assert(node_ok(m, a));
    assert(node_ok(m, b));
    let ta = derivation(m, a);
    let tb = derivation(m, b);
    if same_derivation(m, a, b) {
        assert forall|k: int| 0 <= k < ta.operands.len() implies ta.operands[k]
            == tb.operands[k] by {
            lemma_same_derivation_is_same_tree(m, m[a].operands[k], m[b].operands[k]);
        }
        assert(ta.operands =~= tb.operands);
    }
    if ta == tb {
        assert forall|k: int|
            0 <= k < m[a].operands.len() && 0 <= #[trigger] m[a].operands[k]
                < a implies same_derivation(m, m[a].operands[k], m[b].operands[k]) by {
            assert(ta.operands[k] == tb.operands[k]);
            lemma_same_derivation_is_same_tree(m, m[a].operands[k], m[b].operands[k]);
        }
    }
}

/// Two literals of a graph with the same label, whose numbers compare equal,
/// are equal, wherever they are stored.
pub proof fn lemma_equal_leaves<T: PartialEq>(m: Seq<Node<T>>, a: int, b: int)
    requires
        m[a].op == Op::Nop,
        m[b].op == Op::Nop,
        m[a].operands.len() == 0,
        m[b].operands.len() == 0,
        m[a].label == m[b].label,
        m[a].data.eq_spec(&m[b].data),
    ensures
        same_derivation(m, a, b),
{
}

/// Two literals made one after the other from the same number and the same
/// label are equal, though they are two nodes, if the number is equal to
/// itself.
pub proof fn lemma_twin_leaves_are_equal<T: PartialEq>(m: Seq<Node<T>>, data: T, label: Seq<char>)
    requires
        data.eq_spec(&data),
    ensures
        same_derivation(
            with_leaf(with_leaf(m, data, label), data, label),
            m.len() as int,
            m.len() as int + 1,
        ),
{
    let twice = with_leaf(with_leaf(m, data, label), data, label);
    lemma_equal_leaves(twice, m.len() as int, m.len() as int + 1);
}

impl Value {
    /// Compares two nodes by what they hold and by how they were derived,
    /// not by where they are stored.
    pub fn structural_eq<T: PartialEq>(&self, g: &Graph<T>, other: &Value) -> (r: bool)
        requires
            g.wf(),
            g.contains(*self),
            g.contains(*other),
        ensures
            T::obeys_eq_spec() ==> r == same_derivation(g@, self@, other@),
        decreases self@,
    {
        if !(self.payload(g).data == other.payload(g).data) {
            return false;
        }
        if !(self.payload(g).label == other.payload(g).label) {
            return false;
        }
        if !(self.payload(g).op == other.payload(g).op) {
            return false;
        }
        let xs = &self.payload(g).prev;
        let ys = &other.payload(g).prev;
        if xs.len() != ys.len() {
            return false;
        }
        let mut k: usize = 0;
        while k < xs.len()
            invariant
                k <= xs.len(),
                xs.len() == ys.len(),
                g.wf(),
                g.contains(*self),
                g.contains(*other),
                node_ok(g@, self@),
                node_ok(g@, other@),
                positions(xs@) == g@[self@].operands,
                positions(ys@) == g@[other@].operands,
                T::obeys_eq_spec() ==> forall|j: int|
                    0 <= j < k ==> same_derivation(
                        g@,
                        #[trigger] g@[self@].operands[j],
                        g@[other@].operands[j],
                    ),
            decreases xs.len() - k,
        {
            assert(0 <= g@[self@].operands[k as int] < self@);
            assert(0 <= g@[other@].operands[k as int] < other@);
            if !xs[k].structural_eq(g, &ys[k]) {
                return false;
            }
            k += 1;
        }
        true
    }
}

} // verus!
