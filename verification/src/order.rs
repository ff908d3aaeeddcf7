//! The order of nodes by what they hold and how they were derived.

use vstd::prelude::*;
use vstd::std_specs::cmp::{PartialEqSpec, PartialOrdSpec};
use vstd::std_specs::iter::IteratorSpec;
use std::cmp::Ordering;
use crate::engine::{positions, Graph, Value};
use crate::equality::same_derivation;
use crate::model::{node_ok, well_formed, Node};
use crate::op::Op;

verus! {

/// The code point of a character.
pub open spec fn code_point(c: char) -> nat {
    (c as u32) as nat
}

/// Different characters have different code points.
pub proof fn lemma_code_points_differ(x: char, y: char)
    requires
        x != y,
    ensures
        code_point(x) != code_point(y),
{
    vstd::utf8::char_u32_cast(x, x as u32);
    vstd::utf8::char_u32_cast(y, y as u32);
}

/// Whether the code point of `x` is less than that of `y`.
fn comes_before(x: char, y: char) -> (r: bool)
    ensures
        r == (code_point(x) < code_point(y)),
{
    x < y
}

/// The order of two natural numbers.
pub open spec fn nat_order(x: nat, y: nat) -> Ordering {
    if x < y {
        Ordering::Less
    } else if x == y {
        Ordering::Equal
    } else {
        Ordering::Greater
    }
}

/// The order of two strings: that of the first code points in which they
/// differ, and where one is the beginning of the other, the shorter is less.
pub open spec fn text_order(a: Seq<char>, b: Seq<char>) -> Ordering
    decreases a.len(),
{
    if a.len() == 0 || b.len() == 0 {
        nat_order(a.len(), b.len())
    } else if a[0] != b[0] {
        nat_order(code_point(a[0]), code_point(b[0]))
    } else {
        text_order(a.skip(1), b.skip(1))
    }
}

/// Compares two strings as `str::cmp` does: by their code points, a string
/// that begins another before it.
fn compare_text(a: &str, b: &str) -> (r: Ordering)
    ensures
        r == text_order(a@, b@),
{
    broadcast use vstd::string::group_string_axioms;

    let mut xs = a.chars();
    let mut ys = b.chars();
    loop
        invariant
            text_order(a@, b@) == text_order(xs.remaining(), ys.remaining()),
            xs.decrease() is Some,
        decreases xs.decrease()->0,
    {
        let x = xs.next();
        let y = ys.next();
        match (x, y) {
            (None, None) => {
                return Ordering::Equal;
            },
            (None, Some(_)) => {
                return Ordering::Less;
            },
            (Some(_), None) => {
                return Ordering::Greater;
            },
            (Some(c), Some(d)) => {
                if comes_before(c, d) {
                    return Ordering::Less;
                }
                if comes_before(d, c) {
                    return Ordering::Greater;
                }
                proof {
                    if c != d {
                        lemma_code_points_differ(c, d);
                    }
                }
            },
        }
    }
}

/// The place of a tag among the tags, in the order of their declaration.
pub open spec fn rank(op: Op) -> nat {
    match op {
        Op::Nop => 0,
        Op::Add => 1,
        Op::Mul => 2,
        Op::Tanh => 3,
    }
}

fn rank_of(op: Op) -> (r: u8)
    ensures
        r == rank(op),
{
    match op {
        Op::Nop => 0,
        Op::Add => 1,
        Op::Mul => 2,
        Op::Tanh => 3,
    }
}

/// How node `a` of `m` stands to node `b`: by their numbers; where those
/// are equal, by their labels; then by their tags; then by their operands,
/// pair by pair in the same way, and at last by how many operands they have.
pub open spec fn derivation_order<T: PartialOrd>(m: Seq<Node<T>>, a: int, b: int) -> Option<
    Ordering,
>
    decreases a, m[a].operands.len() + 1,
{
    match m[a].data.partial_cmp_spec(&m[b].data) {
        Some(Ordering::Equal) => match text_order(m[a].label, m[b].label) {
            Ordering::Equal => match nat_order(rank(m[a].op), rank(m[b].op)) {
                Ordering::Equal => operands_order(m, a, b, 0),
                unequal => Some(unequal),
            },
            unequal => Some(unequal),
        },
        unequal => unequal,
    }
}

/// How the operands of node `a` from the `k`-th on stand to those of node
/// `b`: as the first pair that is not equal, and where there is none, as
/// the number of operands of `a` to that of `b`.
pub open spec fn operands_order<T: PartialOrd>(m: Seq<Node<T>>, a: int, b: int, k: int) -> Option<
    Ordering,
>
    decreases a, m[a].operands.len() - k,
{
    let xs = m[a].operands;
    let ys = m[b].operands;
    if k < 0 || k >= xs.len() || k >= ys.len() {
        Some(nat_order(xs.len(), ys.len()))
    } else if !(0 <= xs[k] < a) {
        None
    } else {
        match derivation_order(m, xs[k], ys[k]) {
            Some(Ordering::Equal) => operands_order(m, a, b, k + 1),
            unequal => unequal,
        }
    }
}

/// The order of `T` calls two numbers equal exactly when `==` of `T` does.
pub open spec fn order_agrees_with_eq<T: PartialOrd>() -> bool {
    forall|x: T, y: T|
        #![trigger x.partial_cmp_spec(&y)]
        #![trigger x.eq_spec(&y)]
        x.partial_cmp_spec(&y) == Some(Ordering::Equal) <==> x.eq_spec(&y)
}

/// Two strings are equal in order exactly when they are the same string.
pub proof fn lemma_text_order_equal(a: Seq<char>, b: Seq<char>)
    ensures
        text_order(a, b) == Ordering::Equal <==> a == b,
    decreases a.len(),
{
    if a.len() == 0 || b.len() == 0 {
        if a.len() == b.len() {
            assert(a =~= b);
        }
    } else if a[0] != b[0] {
        lemma_code_points_differ(a[0], b[0]);
    } else {
        lemma_text_order_equal(a.skip(1), b.skip(1));
        if a.skip(1) == b.skip(1) {
            assert forall|i: int| 0 <= i < a.len() implies a[i] == b[i] by {
                if i > 0 {
                    assert(a.skip(1)[i - 1] == a[i]);
                    assert(b.skip(1)[i - 1] == b[i]);
                }
            }
            assert(a =~= b);
        }
    }
}

/// Where the order of the numbers agrees with their `==`, two nodes of a
/// valid graph are equal in order exactly when they were derived in the
/// same way.
pub proof fn lemma_equal_in_order_is_same_derivation<T: PartialOrd>(
    m: Seq<Node<T>>,
    a: int,
    b: int,
)
    requires
        well_formed(m),
        0 <= a < m.len(),
        0 <= b < m.len(),
        order_agrees_with_eq::<T>(),
    ensures
        derivation_order(m, a, b) == Some(Ordering::Equal) <==> same_derivation(m, a, b),
    decreases a, m[a].operands.len() + 1,
{
    assert(node_ok(m, a));
    lemma_text_order_equal(m[a].label, m[b].label);
    lemma_operands_equal_in_order(m, a, b, 0);
}

proof fn lemma_operands_equal_in_order<T: PartialOrd>(m: Seq<Node<T>>, a: int, b: int, k: int)
    requires
        well_formed(m),
        0 <= a < m.len(),
        0 <= b < m.len(),
        order_agrees_with_eq::<T>(),
        0 <= k <= m[a].operands.len(),
    ensures
        operands_order(m, a, b, k) == Some(Ordering::Equal) <==> {
            &&& m[a].operands.len() == m[b].operands.len()
            &&& forall|j: int|
                k <= j < m[a].operands.len() ==> same_derivation(
                    m,
                    #[trigger] m[a].operands[j],
                    m[b].operands[j],
                )
        },
    decreases a, m[a].operands.len() - k,
{
    assert(node_ok(m, a));
    assert(node_ok(m, b));
    let xs = m[a].operands;
    let ys = m[b].operands;
    if k < xs.len() && k < ys.len() {
        lemma_equal_in_order_is_same_derivation(m, xs[k], ys[k]);
        lemma_operands_equal_in_order(m, a, b, k + 1);
    }
}

impl Value {
    /// Orders two nodes by what they hold and by how they were derived.
    pub fn structural_partial_cmp<T: PartialOrd>(&self, g: &Graph<T>, other: &Value) -> (r: Option<
        Ordering,
    >)
        requires
            g.wf(),
            g.contains(*self),
            g.contains(*other),
        ensures
            T::obeys_partial_cmp_spec() ==> r == derivation_order(g@, self@, other@),
        decreases self@,
    {
        match self.payload(g).data.partial_cmp(&other.payload(g).data) {
            Some(Ordering::Equal) => {},
            unequal => {
                return unequal;
            },
        }
        match compare_text(self.payload(g).label.as_str(), other.payload(g).label.as_str()) {
            Ordering::Equal => {},
            unequal => {
                return Some(unequal);
            },
        }
        let rank_a = rank_of(self.payload(g).op);
        let rank_b = rank_of(other.payload(g).op);
        if rank_a < rank_b {
            return Some(Ordering::Less);
        }
        if rank_a > rank_b {
            return Some(Ordering::Greater);
        }
        let xs = &self.payload(g).prev;
        let ys = &other.payload(g).prev;
        let mut k: usize = 0;
        let ghost mut at: int = 0;
        while k < xs.len() && k < ys.len()
            invariant
                at == k,
                g.wf(),
                g.contains(*self),
                g.contains(*other),
                node_ok(g@, self@),
                node_ok(g@, other@),
                positions(xs@) == g@[self@].operands,
                positions(ys@) == g@[other@].operands,
                T::obeys_partial_cmp_spec() ==> derivation_order(g@, self@, other@)
                    == operands_order(g@, self@, other@, at),
            decreases xs.len() - k,
        {
            match xs[k].structural_partial_cmp(g, &ys[k]) {
                Some(Ordering::Equal) => {},
                unequal => {
                    return unequal;
                },
            }
            k += 1;
            proof {
                at = at + 1;
            }
        }
        if xs.len() < ys.len() {
            Some(Ordering::Less)
        } else if xs.len() == ys.len() {
            Some(Ordering::Equal)
        } else {
            Some(Ordering::Greater)
        }
    }
}

} // verus!
