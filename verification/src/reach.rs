//! Chains of operands, and why none of them leads back to its start.

use vstd::prelude::*;
use crate::model::{
    lemma_growth_keeps_validity, lemma_relabelling_keeps_validity, node_ok, relabelled,
    well_formed, with_node, Node,
};
use crate::op::Op;

verus! {

/// Node `path[k + 1]` is an operand of node `path[k]`.
pub open spec fn is_step<T>(m: Seq<Node<T>>, path: Seq<int>, k: int) -> bool {
    &&& 0 <= path[k] < m.len()
    &&& m[path[k]].operands.contains(path[k + 1])
}

/// Each node of `path` but the first is an operand of the one before it.
pub open spec fn is_operand_chain<T>(m: Seq<Node<T>>, path: Seq<int>) -> bool {
    forall|k: int| 0 <= k < path.len() - 1 ==> #[trigger] is_step(m, path, k)
}

/// Node `to` is an operand of node `from`, or an operand of one of its
/// operands, and so on.
pub open spec fn reaches<T>(m: Seq<Node<T>>, from: int, to: int) -> bool {
    exists|path: Seq<int>|
        #![trigger is_operand_chain(m, path)]
        path.len() >= 2 && path.first() == from && path.last() == to && is_operand_chain(m, path)
}

/// In a valid graph every chain of operands leads strictly backwards.
pub proof fn lemma_chains_lead_backwards<T>(m: Seq<Node<T>>, path: Seq<int>)
    requires
        well_formed(m),
        is_operand_chain(m, path),
        path.len() >= 2,
    ensures
        path.last() < path.first(),
    decreases path.len(),
{
    let last = path.len() - 1;
    assert(is_step(m, path, last - 1));
    let parent = path[last - 1];
    assert(node_ok(m, parent));
    if path.len() > 2 {
        let shorter = path.drop_last();
        assert forall|j: int| 0 <= j < shorter.len() - 1 implies #[trigger] is_step(
            m,
            shorter,
            j,
        ) by {
            assert(is_step(m, path, j));
        }
        lemma_chains_lead_backwards(m, shorter);
    }
}

/// In a valid graph no node is among its own operands, directly or through
/// any chain of them.
pub proof fn lemma_no_node_reaches_itself<T>(m: Seq<Node<T>>, i: int)
    requires
        well_formed(m),
    ensures
        !reaches(m, i, i),
{
    if reaches(m, i, i) {
        let path = choose|path: Seq<int>|
            #![trigger is_operand_chain(m, path)]
            path.len() >= 2 && path.first() == i && path.last() == i && is_operand_chain(m, path);
        lemma_chains_lead_backwards(m, path);
    }
}

/// One change that the library makes to a graph.
pub enum Change<T> {
    /// A node is added at the end, as every constructor and operator does.
    Grow { data: T, label: Seq<char>, op: Op, operands: Seq<int> },
    /// The label of a node is replaced.
    Relabel { at: int, label: Seq<char> },
}

/// The library makes change `c` to graph `m`: a new node takes as many
/// operands as its tag says, all of them nodes of `m`, and a label is
/// replaced only on a node of `m`.
pub open spec fn allowed<T>(m: Seq<Node<T>>, c: Change<T>) -> bool {
    match c {
        Change::Grow { data, label, op, operands } => {
            &&& operands.len() == op.arity()
            &&& forall|k: int| 0 <= k < operands.len() ==> 0 <= #[trigger] operands[k] < m.len()
        },
        Change::Relabel { at, label } => 0 <= at < m.len(),
    }
}

/// Graph `m` after change `c`.
pub open spec fn changed<T>(m: Seq<Node<T>>, c: Change<T>) -> Seq<Node<T>> {
    match c {
        Change::Grow { data, label, op, operands } => with_node(m, data, label, op, operands),
        Change::Relabel { at, label } => relabelled(m, at, label),
    }
}

/// The graph that a sequence of changes builds, starting from the empty one.
pub open spec fn built<T>(changes: Seq<Change<T>>) -> Seq<Node<T>>
    decreases changes.len(),
{
    if changes.len() == 0 {
        Seq::empty()
    } else {
        changed(built(changes.drop_last()), changes.last())
    }
}

/// Each change of the sequence is one that the library makes to the graph
/// built so far.
pub open spec fn is_history<T>(changes: Seq<Change<T>>) -> bool
    decreases changes.len(),
{
    changes.len() > 0 ==> {
        &&& is_history(changes.drop_last())
        &&& allowed(built(changes.drop_last()), changes.last())
    }
}

/// Whatever sequence of changes the library makes, the graph stays valid.
pub proof fn lemma_every_history_is_valid<T>(changes: Seq<Change<T>>)
    requires
        is_history(changes),
    ensures
        well_formed(built(changes)),
    decreases changes.len(),
{
    if changes.len() > 0 {
        let before = built(changes.drop_last());
        lemma_every_history_is_valid(changes.drop_last());
        match changes.last() {
            Change::Grow { data, label, op, operands } => {
                lemma_growth_keeps_validity(before, data, label, op, operands);
            },
            Change::Relabel { at, label } => {
                lemma_relabelling_keeps_validity(before, at, label);
            },
        }
    }
}

/// No sequence of changes that the library makes gives a node that is
/// among its own operands, directly or through any chain of them.
pub proof fn lemma_no_history_closes_a_cycle<T>(changes: Seq<Change<T>>, i: int)
    requires
        is_history(changes),
    ensures
        !reaches(built(changes), i, i),
{
    lemma_every_history_is_valid(changes);
    lemma_no_node_reaches_itself(built(changes), i);
}

} // verus!
