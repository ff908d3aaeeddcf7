//! The mathematical model of a graph: a sequence of nodes in the order of
//! their creation, each naming its operands by their positions.

use vstd::prelude::*;
use crate::op::Op;

verus! {

/// What one node of a graph holds, as a mathematical value.
pub struct Node<T> {
    /// The number computed when the node was made.
    pub data: T,
    /// The display label.
    pub label: Seq<char>,
    /// How `data` was produced.
    pub op: Op,
    /// The positions of the nodes that `data` was computed from, in order.
    pub operands: Seq<int>,
}

/// Node `i` records as many operands as its tag takes, and each of them
/// stands before `i`.
pub open spec fn node_ok<T>(m: Seq<Node<T>>, i: int) -> bool {
    &&& m[i].operands.len() == m[i].op.arity()
    &&& forall|k: int| 0 <= k < m[i].operands.len() ==> 0 <= #[trigger] m[i].operands[k] < i
}

/// Every node of `m` is in order.
pub open spec fn well_formed<T>(m: Seq<Node<T>>) -> bool {
    forall|i: int| 0 <= i < m.len() ==> #[trigger] node_ok(m, i)
}

/// `m` with one more node at its end.
pub open spec fn with_node<T>(
    m: Seq<Node<T>>,
    data: T,
    label: Seq<char>,
    op: Op,
    operands: Seq<int>,
) -> Seq<Node<T>> {
    m.push(Node { data, label, op, operands })
}

/// `m` with one more literal at its end.
pub open spec fn with_leaf<T>(m: Seq<Node<T>>, data: T, label: Seq<char>) -> Seq<Node<T>> {
    with_node(m, data, label, Op::Nop, Seq::empty())
}

/// `m` with the label of node `i` replaced and nothing else changed.
pub open spec fn relabelled<T>(m: Seq<Node<T>>, i: int, label: Seq<char>) -> Seq<Node<T>> {
    m.update(i, Node { label, ..m[i] })
}

/// A new literal holds the number and the label it was given, has no
/// operands, and stands at the end of the graph.
pub proof fn lemma_leaf_holds_what_it_was_given<T>(m: Seq<Node<T>>, data: T, label: Seq<char>)
    ensures
        with_leaf(m, data, label).len() == m.len() + 1,
        with_leaf(m, data, label)[m.len() as int].data == data,
        with_leaf(m, data, label)[m.len() as int].label == label,
        with_leaf(m, data, label)[m.len() as int].op == Op::Nop,
        with_leaf(m, data, label)[m.len() as int].operands.len() == 0,
{
}

/// Adding a node changes no node that was there before.
pub proof fn lemma_growth_keeps_nodes<T>(
    m: Seq<Node<T>>,
    data: T,
    label: Seq<char>,
    op: Op,
    operands: Seq<int>,
    i: int,
)
    requires
        0 <= i < m.len(),
    ensures
        with_node(m, data, label, op, operands)[i] == m[i],
{
}

/// Adding a node whose operands are as many as its tag takes, and all
/// already in the graph, keeps the graph valid.
pub proof fn lemma_growth_keeps_validity<T>(
    m: Seq<Node<T>>,
    data: T,
    label: Seq<char>,
    op: Op,
    operands: Seq<int>,
)
    requires
        well_formed(m),
        operands.len() == op.arity(),
        forall|k: int| 0 <= k < operands.len() ==> 0 <= #[trigger] operands[k] < m.len(),
    ensures
        well_formed(with_node(m, data, label, op, operands)),
{
    let n = with_node(m, data, label, op, operands);
    assert forall|i: int| 0 <= i < n.len() implies #[trigger] node_ok(n, i) by {
        if i < m.len() {
            assert(node_ok(m, i));
        }
    }
}

/// Setting a label changes nothing but that label: every number, tag and
/// operand list stays, and so does the label of every other node.
pub proof fn lemma_relabelling_keeps_the_rest<T>(
    m: Seq<Node<T>>,
    i: int,
    label: Seq<char>,
    j: int,
)
    requires
        0 <= i < m.len(),
        0 <= j < m.len(),
    ensures
        relabelled(m, i, label).len() == m.len(),
        relabelled(m, i, label)[j].data == m[j].data,
        relabelled(m, i, label)[j].op == m[j].op,
        relabelled(m, i, label)[j].operands == m[j].operands,
        j != i ==> relabelled(m, i, label)[j] == m[j],
{
}

/// Setting a label keeps the graph valid.
pub proof fn lemma_relabelling_keeps_validity<T>(m: Seq<Node<T>>, i: int, label: Seq<char>)
    requires
        well_formed(m),
        0 <= i < m.len(),
    ensures
        well_formed(relabelled(m, i, label)),
{
    let n = relabelled(m, i, label);
    assert forall|j: int| 0 <= j < n.len() implies #[trigger] node_ok(n, j) by {
        assert(node_ok(m, j));
    }
}

} // verus!
