//! The labels that the operators give their results.

use vstd::prelude::*;
use vstd::string::StringExecFns;
use crate::op::Op;

verus! {

/// The label that a binary operation gives its result: both operand labels
/// around the tag's name, in parentheses.
pub open spec fn infix_label(lhs: Seq<char>, op: Op, rhs: Seq<char>) -> Seq<char> {
    "("@ + lhs + " "@ + op.name() + " "@ + rhs + ")"@
}

/// The label that the hyperbolic tangent gives its result.
pub open spec fn tanh_label(arg: Seq<char>) -> Seq<char> {
    "tanh("@ + arg + ")"@
}

/// Builds the label of a binary operation's result.
pub fn infix(lhs: &str, op: Op, rhs: &str) -> (s: String)
    ensures
        s@ == infix_label(lhs@, op, rhs@),
{
    let name = op.to_text();
    let mut s = String::from_str("(");
    s.append(lhs);
    s.append(" ");
    s.append(name.as_str());
    s.append(" ");
    s.append(rhs);
    s.append(")");
    s
}

/// Builds the label of a hyperbolic tangent's result.
pub fn tanh_of(arg: &str) -> (s: String)
    ensures
        s@ == tanh_label(arg@),
{
    let mut s = String::from_str("tanh(");
    s.append(arg);
    s.append(")");
    s
}

} // verus!
