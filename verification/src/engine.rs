//! The graph, its stored records and the handles on its nodes.

use vstd::prelude::*;
use crate::model::{node_ok, relabelled, well_formed, with_leaf, with_node, Node};
use crate::numeric::clones_exactly;
pub use crate::numeric::Exp;
pub use crate::op::Op;

verus! {

/// A handle on one node of a [`Graph`].
///
/// A handle is a position in the graph that issued it and means nothing in
/// another graph. Copies of a handle name the same node.
#[derive(Clone, Copy, Debug)]
pub struct Value {
    id: usize,
}

/// The stored record of one node.
#[derive(Debug)]
pub struct ValueData<T> {
    /// The number computed when the node was made.
    pub data: T,
    /// The display label.
    pub label: String,
    /// How `data` was produced.
    pub op: Op,
    /// The handles of the nodes that `data` was computed from, in order.
    pub prev: Vec<Value>,
}

/// The store that owns every node.
///
/// Nodes are only ever added at the end, and a node records as operands
/// only nodes that stand before it. After a node is made, nothing of it
/// changes but its label.
#[derive(Debug)]
pub struct Graph<T> {
    nodes: Vec<ValueData<T>>,
}

impl View for Value {
    type V = int;

    /// The position of the node that the handle names.
    closed spec fn view(&self) -> int {
        self.id as int
    }
}

/// The positions that a sequence of handles names.
pub open spec fn positions(handles: Seq<Value>) -> Seq<int> {
    handles.map_values(|h: Value| h@)
}

impl<T> View for ValueData<T> {
    type V = Node<T>;

    open spec fn view(&self) -> Node<T> {
        Node { data: self.data, label: self.label@, op: self.op, operands: positions(self.prev@) }
    }
}

impl<T> View for Graph<T> {
    type V = Seq<Node<T>>;

    closed spec fn view(&self) -> Seq<Node<T>> {
        self.nodes@.map_values(|d: ValueData<T>| d@)
    }
}

impl<T> Graph<T> {
    /// The graph's validity: operands are counted by the tag and point backwards.
    pub open spec fn wf(&self) -> bool {
        well_formed(self@)
    }

    /// `h` names a node of this graph.
    pub open spec fn contains(&self, h: Value) -> bool {
        0 <= h@ < self@.len()
    }

    /// A graph without nodes.
    pub fn new() -> (g: Self)
        ensures
            g@ == Seq::<Node<T>>::empty(),
            g.wf(),
    {
        Graph { nodes: Vec::new() }
    }

    /// The number of nodes.
    pub fn len(&self) -> (n: usize)
        ensures
            n == self@.len(),
    {
        self.nodes.len()
    }

    /// Whether `h` names a node of this graph.
    pub fn holds(&self, h: &Value) -> (b: bool)
        ensures
            b == self.contains(*h),
    {
        h.id < self.nodes.len()
    }
}

/// A label set through one handle is the label read through every clone of
/// that handle: the clones name one node, and the graph holds one label for
/// it.
pub proof fn lemma_alias_sees_new_label<T>(
    before: Seq<Node<T>>,
    after: Seq<Node<T>>,
    h1: Value,
    h2: Value,
    label: Seq<char>,
)
    requires
        0 <= h1@ < before.len(),
        cloned(h1, h2),
        after == relabelled(before, h2@, label),
    ensures
        after[h1@].label == label,
{
}

impl Value {
    /// The position of the node that the handle names.
    pub fn index(&self) -> (i: usize)
        ensures
            i == self@,
    {
        self.id
    }

    /// Adds a literal to `g` and returns its handle.
    pub fn new<T>(g: &mut Graph<T>, data: T, label: String) -> (h: Value)
        requires
            old(g).wf(),
        ensures
            final(g)@ == with_leaf(old(g)@, data, label@),
            final(g).wf(),
            h@ == old(g)@.len(),
    {
        let children: Vec<Value> = Vec::new();
        assert(positions(children@) =~= Seq::<int>::empty());
        Value::new_from_op(g, data, label, Op::Nop, children)
    }

    /// Adds to `g` a node that records `children` as the operands of `op`,
    /// and returns its handle.
    ///
    /// `data` is stored as it is given: the caller vouches that it is what
    /// `op` yields for the numbers of `children`.
    pub fn new_from_op<T>(
        g: &mut Graph<T>,
        data: T,
        label: String,
        op: Op,
        children: Vec<Value>,
    ) -> (h: Value)
        requires
            old(g).wf(),
            children@.len() == op.arity(),
            forall|k: int| 0 <= k < children@.len() ==> old(g).contains(#[trigger] children@[k]),
        ensures
            final(g)@ == with_node(old(g)@, data, label@, op, positions(children@)),
            final(g).wf(),
            h@ == old(g)@.len(),
    {
        let id = g.nodes.len();
        g.nodes.push(ValueData { data, label, op, prev: children });
        assert forall|i: int| 0 <= i < g@.len() implies #[trigger] node_ok(g@, i) by {
            if i < old(g)@.len() {
                assert(node_ok(old(g)@, i));
            }
        }
        Value { id }
    }

    /// A copy of the number that the node holds.
    pub fn data<T: Clone>(&self, g: &Graph<T>) -> (r: T)
        requires
            g.contains(*self),
        ensures
            cloned(g@[self@].data, r),
            clones_exactly::<T>() ==> r == g@[self@].data,
    {
        g.nodes[self.id].data.clone()
    }

    /// The stored record of the node, to read its number and label in place.
    pub fn payload<'a, T>(&self, g: &'a Graph<T>) -> (r: &'a ValueData<T>)
        requires
            g.contains(*self),
        ensures
            r@ == g@[self@],
    {
        &g.nodes[self.id]
    }

    /// A copy of the node's label.
    pub fn label<T>(&self, g: &Graph<T>) -> (r: String)
        requires
            g.contains(*self),
        ensures
            r@ == g@[self@].label,
    {
        g.nodes[self.id].label.clone()
    }

    /// Replaces the node's label. Every handle on the node sees the new one.
    pub fn set_label<T>(&self, g: &mut Graph<T>, label: String)
        requires
            old(g).contains(*self),
        ensures
            final(g)@ == relabelled(old(g)@, self@, label@),
            old(g).wf() ==> final(g).wf(),
    {
        g.nodes[self.id].label = label;
        assert forall|i: int| old(g).wf() && 0 <= i < g@.len() implies #[trigger] node_ok(
            g@,
            i,
        ) by {
            assert(node_ok(old(g)@, i));
        }
    }
}

} // verus!
