//! The diagnostic line for a node.

use vstd::prelude::*;
use vstd::string::{to_string_from_display_ensures, StringExecFns};
use std::fmt::Display;
use crate::engine::{positions, Graph, Value};
use crate::model::{node_ok, Node};

verus! {

/// The text that `{:?}` gives for a string: the string between double quotes,
/// with the escapes that the standard library's formatter applies.
pub uninterp spec fn debug_quoted(s: Seq<char>) -> Seq<char>;

/// Calls `format!("{:?}", s)`, which formats `s` with the `Debug`
/// implementation of `str`. Verus does not read the body. The contract
/// claims that the text depends on the characters of `s` alone; it names
/// the text and does not spell it out.
#[verifier::external_body]
fn quote(s: &str) -> (r: String)
    ensures
        r@ == debug_quoted(s@),
{
    format!("{:?}", s)
}

/// The items, each but the first after a comma and a space.
pub open spec fn joined(items: Seq<Seq<char>>) -> Seq<char>
    decreases items.len(),
{
    if items.len() == 0 {
        Seq::empty()
    } else if items.len() == 1 {
        items[0]
    } else {
        joined(items.drop_last()) + ", "@ + items.last()
    }
}

/// The quoted labels of the operands of node `i`, in order.
pub open spec fn quoted_operand_labels<T>(m: Seq<Node<T>>, i: int) -> Seq<Seq<char>> {
    m[i].operands.map_values(|j: int| debug_quoted(m[j].label))
}

/// The quoted labels of the operands of node `i`, as a list in square brackets.
pub open spec fn operand_list<T>(m: Seq<Node<T>>, i: int) -> Seq<char> {
    "["@ + joined(quoted_operand_labels(m, i)) + "]"@
}

/// The diagnostic line for node `i`, given the text of its number: the
/// label, the number, the tag and the labels of the immediate operands.
pub open spec fn description<T>(m: Seq<Node<T>>, i: int, value_text: Seq<char>) -> Seq<char> {
    m[i].label + " (data: "@ + value_text + ", op, "@ + m[i].op.name() + ", prev: "@
        + operand_list(m, i) + ")"@
}

proof fn lemma_joined_step(items: Seq<Seq<char>>, k: int)
    requires
        0 <= k < items.len(),
    ensures
        joined(items.take(k + 1)) == if k == 0 {
            items[k]
        } else {
            joined(items.take(k)) + ", "@ + items[k]
        },
{
    let prefix = items.take(k + 1);
    assert(prefix.drop_last() =~= items.take(k));
}

impl Value {
    /// The diagnostic line for the node, with the number formatted by its
    /// `Display`.
    pub fn describe<T: Display>(&self, g: &Graph<T>) -> (s: String)
        requires
            g.wf(),
            g.contains(*self),
        ensures
            exists|text: String|
                to_string_from_display_ensures::<T>(&g@[self@].data, text) && s@ == description(
                    g@,
                    self@,
                    text@,
                ),
    {
        let payload = self.payload(g);
        let text = payload.data.to_string();
        assert(payload@.data == payload.data);
        self.describe_with(g, text.as_str())
    }

    /// The diagnostic line for the node, with `value_text` in the place of
    /// its number.
    pub fn describe_with<T>(&self, g: &Graph<T>, value_text: &str) -> (s: String)
        requires
            g.wf(),
            g.contains(*self),
        ensures
            s@ == description(g@, self@, value_text@),
    {
        let list = self.operand_list_text(g);
        let mut s = self.label(g);
        s.append(" (data: ");
        s.append(value_text);
        s.append(", op, ");
        s.append(self.payload(g).op.to_text().as_str());
        s.append(", prev: ");
        s.append(list.as_str());
        s.append(")");
        s
    }

    fn operand_list_text<T>(&self, g: &Graph<T>) -> (s: String)
        requires
            g.wf(),
            g.contains(*self),
        ensures
            s@ == operand_list(g@, self@),
    {
        let operands = &self.payload(g).prev;
        let ghost items = quoted_operand_labels(g@, self@);
        let mut s = String::from_str("[");
        let mut k: usize = 0;
        while k < operands.len()
            invariant
                k <= operands.len(),
                g.contains(*self),
                node_ok(g@, self@),
                positions(operands@) == g@[self@].operands,
                items == quoted_operand_labels(g@, self@),
                s@ == "["@ + joined(items.take(k as int)),
            decreases operands.len() - k,
        {
            assert(0 <= g@[self@].operands[k as int] < self@);
            let quoted = quote(operands[k].payload(g).label.as_str());
            proof {
                lemma_joined_step(items, k as int);
            }
            if k > 0 {
                s.append(", ");
            }
            s.append(quoted.as_str());
            k += 1;
        }
        assert(items.take(k as int) =~= items);
        s.append("]");
        s
    }
}

} // verus!
