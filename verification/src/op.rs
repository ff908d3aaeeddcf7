//! The tags that say how a node's number was produced.

use vstd::prelude::*;
use vstd::string::StringExecFns;

verus! {

/// How the value of a node was produced.
#[derive(Clone, Copy, Debug, PartialEq, Eq, PartialOrd, Structural)]
pub enum Op {
    /// A literal: the node has no operands.
    Nop,
    /// The sum of two operands.
    Add,
    /// The product of two operands.
    Mul,
    /// The hyperbolic tangent of one operand.
    Tanh,
}

impl Op {
    /// The number of operands that a node with this tag records.
    pub open spec fn arity(self) -> nat {
        match self {
            Op::Nop => 0,
            Op::Add => 2,
            Op::Mul => 2,
            Op::Tanh => 1,
        }
    }

    /// The tag's name as it appears in labels and descriptions.
    pub open spec fn name(self) -> Seq<char> {
        match self {
            Op::Nop => "Nop"@,
            Op::Add => "Add"@,
            Op::Mul => "Mul"@,
            Op::Tanh => "Tanh"@,
        }
    }

    /// The number of operands that a node with this tag records.
    pub fn operand_count(&self) -> (n: usize)
        ensures
            n == self.arity(),
    {
        match self {
            Op::Nop => 0,
            Op::Add => 2,
            Op::Mul => 2,
            Op::Tanh => 1,
        }
    }

    /// The tag's name as a string.
    pub fn to_text(&self) -> (s: String)
        ensures
            s@ == self.name(),
    {
        match self {
            Op::Nop => String::from_str("Nop"),
            Op::Add => String::from_str("Add"),
            Op::Mul => String::from_str("Mul"),
            Op::Tanh => String::from_str("Tanh"),
        }
    }
}

} // verus!
