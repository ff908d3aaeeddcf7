//! The operators that add a derived node to a graph.

use vstd::prelude::*;
use vstd::std_specs::ops::{AddSpec, MulSpec};
use std::ops::{Add, Div, Mul, Sub};
use crate::engine::{positions, Graph, Value};
use crate::label::{infix, infix_label, tanh_label, tanh_of};
use crate::model::with_node;
use crate::numeric::{
    can_add, can_mul, clones_exactly, doubled, exact_arithmetic, is_double_of, is_exp_of,
    is_one_less_than, is_one_more_than, is_product_of, is_sum_of, is_tanh_of, lemma_exact_tanh,
    tanh_defined, tanh_from_exp, total_arithmetic, Exp,
};
use crate::op::Op;

verus! {

impl Value {
    /// Adds to `g` the sum of two of its nodes and returns its handle.
    ///
    /// The new node stands at the end of `g`, records `self` and `rhs` as its
    /// operands in that order, and is labelled with both operand labels.
    /// The operands are not changed. The sum is stored as `+` of `T` gives
    /// it: for a floating-point type that may be an infinity or a NaN.
    pub fn add<T: Clone + Add<Output = T>>(&self, g: &mut Graph<T>, rhs: &Value) -> (h: Value)
        requires
            old(g).wf(),
            old(g).contains(*self),
            old(g).contains(*rhs),
            can_add(old(g)@[self@].data, old(g)@[rhs@].data),
        ensures
            h@ == old(g)@.len(),
            final(g)@ == with_node(
                old(g)@,
                final(g)@[h@].data,
                infix_label(old(g)@[self@].label, Op::Add, old(g)@[rhs@].label),
                Op::Add,
                seq![self@, rhs@],
            ),
            is_sum_of(old(g)@[self@].data, old(g)@[rhs@].data, final(g)@[h@].data),
            T::obeys_add_spec() && clones_exactly::<T>() ==> final(g)@[h@].data == old(
                g,
            )@[self@].data.add_spec(old(g)@[rhs@].data),
            final(g).wf(),
    {
        let t = self.data(g) + rhs.data(g);
        let label = infix(self.payload(g).label.as_str(), Op::Add, rhs.payload(g).label.as_str());
        let children = vec![*self, *rhs];
        assert(positions(children@) =~= seq![self@, rhs@]);
        Value::new_from_op(g, t, label, Op::Add, children)
    }

    /// Adds to `g` the product of two of its nodes and returns its handle.
    ///
    /// The new node stands at the end of `g`, records `self` and `rhs` as its
    /// operands in that order, and is labelled with both operand labels.
    /// The operands are not changed. The product is stored as `*` of `T`
    /// gives it: for a floating-point type that may be an infinity or a NaN.
    pub fn mul<T: Clone + Mul<Output = T>>(&self, g: &mut Graph<T>, rhs: &Value) -> (h: Value)
        requires
            old(g).wf(),
            old(g).contains(*self),
            old(g).contains(*rhs),
            can_mul(old(g)@[self@].data, old(g)@[rhs@].data),
        ensures
            h@ == old(g)@.len(),
            final(g)@ == with_node(
                old(g)@,
                final(g)@[h@].data,
                infix_label(old(g)@[self@].label, Op::Mul, old(g)@[rhs@].label),
                Op::Mul,
                seq![self@, rhs@],
            ),
            is_product_of(old(g)@[self@].data, old(g)@[rhs@].data, final(g)@[h@].data),
            T::obeys_mul_spec() && clones_exactly::<T>() ==> final(g)@[h@].data == old(
                g,
            )@[self@].data.mul_spec(old(g)@[rhs@].data),
            final(g).wf(),
    {
        let t = self.data(g) * rhs.data(g);
        let label = infix(self.payload(g).label.as_str(), Op::Mul, rhs.payload(g).label.as_str());
        let children = vec![*self, *rhs];
        assert(positions(children@) =~= seq![self@, rhs@]);
        Value::new_from_op(g, t, label, Op::Mul, children)
    }

    /// Adds to `g` the hyperbolic tangent of one of its nodes and returns its
    /// handle.
    ///
    /// The number is (e - 1) / (e + 1), where e is the exponential of twice
    /// the operand's number. The new node stands at the end of `g` and
    /// records `self` as its one operand. No step is checked for a finite
    /// result: where e overflows to an infinity the quotient is a NaN, and
    /// that is what the node holds.
    pub fn tanh<T>(&self, g: &mut Graph<T>) -> (h: Value) where
        T: Clone + From<u8> + Mul<Output = T> + Sub<Output = T> + Add<Output = T> + Div<
            Output = T,
        > + Exp,

        requires
            old(g).wf(),
            old(g).contains(*self),
            total_arithmetic::<T>() || (exact_arithmetic::<T>() && tanh_defined(
                old(g)@[self@].data,
            )),
        ensures
            h@ == old(g)@.len(),
            final(g)@ == with_node(
                old(g)@,
                final(g)@[h@].data,
                tanh_label(old(g)@[self@].label),
                Op::Tanh,
                seq![self@],
            ),
            is_tanh_of(old(g)@[self@].data, final(g)@[h@].data),
            exact_arithmetic::<T>() ==> exists|e: T|
                #[trigger] is_exp_of(doubled(old(g)@[self@].data), e) && final(g)@[h@].data
                    == tanh_from_exp(e),
            final(g).wf(),
    {
        let twice = self.data(g) * T::from(2u8);
        let e = twice.exp();
        let e_upper = e.clone();
        let e_lower = e.clone();
        assert(cloned(e, e_upper) && cloned(e, e_lower));
        assert(exact_arithmetic::<T>() ==> is_exp_of(doubled(g@[self@].data), e));
        let upper = e_upper - T::from(1u8);
        let lower = e_lower + T::from(1u8);
        let t = upper / lower;
        proof {
            assert(is_double_of(g@[self@].data, twice));
            assert(is_one_less_than(e, upper));
            assert(is_one_more_than(e, lower));
            if exact_arithmetic::<T>() {
                lemma_exact_tanh(g@[self@].data, t);
            }
        }
        let label = tanh_of(self.payload(g).label.as_str());
        let children = vec![*self];
        assert(positions(children@) =~= seq![self@]);
        Value::new_from_op(g, t, label, Op::Tanh, children)
    }
}

} // verus!
