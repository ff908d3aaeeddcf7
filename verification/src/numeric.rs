//! What the operators ask of the type of the numbers, and what they
//! compute with it.

use vstd::prelude::*;
use vstd::std_specs::convert::FromSpec;
use vstd::std_specs::ops::{AddSpec, DivSpec, MulSpec, SubSpec};
use std::ops::{Add, Div, Mul, Sub};

verus! {

/// Exponentiation to the base of the natural logarithm.
///
/// The trait promises nothing of the result. An implementation that Verus
/// verifies may say with an `ensures` what `exp` returns; the contract of
/// the hyperbolic tangent speaks of the result through [`is_exp_of`], and
/// so through that `ensures`.
pub trait Exp {
    fn exp(self) -> Self;
}

/// Cloning a `T` gives back the same value.
pub open spec fn clones_exactly<T: Clone>() -> bool {
    forall|x: T, y: T| #[trigger] cloned(x, y) ==> x == y
}

/// `+` accepts the copies that `clone` makes of `a` and `b`.
pub open spec fn can_add<T: Clone + Add<Output = T>>(a: T, b: T) -> bool {
    if clones_exactly::<T>() {
        a.add_req(b)
    } else {
        forall|x: T, y: T| cloned(a, x) && cloned(b, y) ==> #[trigger] x.add_req(y)
    }
}

/// `*` accepts the copies that `clone` makes of `a` and `b`.
pub open spec fn can_mul<T: Clone + Mul<Output = T>>(a: T, b: T) -> bool {
    if clones_exactly::<T>() {
        a.mul_req(b)
    } else {
        forall|x: T, y: T| cloned(a, x) && cloned(b, y) ==> #[trigger] x.mul_req(y)
    }
}

/// `r` is a value that `+` may return for a clone of `a` and a clone of `b`.
pub open spec fn is_sum_of<T: Clone + Add<Output = T>>(a: T, b: T, r: T) -> bool {
    exists|x: T, y: T|
        cloned(a, x) && cloned(b, y) && #[trigger] call_ensures(<T as Add>::add, (x, y), r)
}

/// `r` is a value that `*` may return for a clone of `a` and a clone of `b`.
pub open spec fn is_product_of<T: Clone + Mul<Output = T>>(a: T, b: T, r: T) -> bool {
    exists|x: T, y: T|
        cloned(a, x) && cloned(b, y) && #[trigger] call_ensures(<T as Mul>::mul, (x, y), r)
}

/// Where cloning is exact and `+` is the function `add_spec`, the only sum
/// of `a` and `b` is `a.add_spec(b)`.
pub proof fn lemma_exact_sum<T: Clone + Add<Output = T>>(a: T, b: T, r: T)
    requires
        is_sum_of(a, b, r),
        clones_exactly::<T>(),
        T::obeys_add_spec(),
    ensures
        r == a.add_spec(b),
{
}

/// Where cloning is exact and `*` is the function `mul_spec`, the only
/// product of `a` and `b` is `a.mul_spec(b)`.
pub proof fn lemma_exact_product<T: Clone + Mul<Output = T>>(a: T, b: T, r: T)
    requires
        is_product_of(a, b, r),
        clones_exactly::<T>(),
        T::obeys_mul_spec(),
    ensures
        r == a.mul_spec(b),
{
}

/// The scalar 1 of `T`.
pub open spec fn one<T: From<u8>>() -> T {
    T::from_spec(1u8)
}

/// The scalar 2 of `T`.
pub open spec fn two<T: From<u8>>() -> T {
    T::from_spec(2u8)
}

/// Twice `x`.
pub open spec fn doubled<T: From<u8> + Mul<Output = T>>(x: T) -> T {
    x.mul_spec(two::<T>())
}

/// `e` is a value that `exp` may return for `x`.
pub open spec fn is_exp_of<T: Exp>(x: T, e: T) -> bool {
    call_ensures(T::exp, (x,), e)
}

/// The quotient (e - 1) / (e + 1): the hyperbolic tangent of x, where e is
/// the exponential of 2x.
pub open spec fn tanh_from_exp<T>(e: T) -> T where
    T: From<u8> + Sub<Output = T> + Add<Output = T> + Div<Output = T>,
 {
    e.sub_spec(one::<T>()).div_spec(e.add_spec(one::<T>()))
}

/// `-`, `+` and `/` accept what [`tanh_from_exp`] hands them at `e`.
pub open spec fn quotient_defined<T>(e: T) -> bool where
    T: From<u8> + Sub<Output = T> + Add<Output = T> + Div<Output = T>,
 {
    &&& e.sub_req(one::<T>())
    &&& e.add_req(one::<T>())
    &&& e.sub_spec(one::<T>()).div_req(e.add_spec(one::<T>()))
}

/// Each step of the hyperbolic tangent is defined at `x`, whatever `exp`
/// returns for twice `x`.
pub open spec fn tanh_defined<T>(x: T) -> bool where
    T: From<u8> + Mul<Output = T> + Sub<Output = T> + Add<Output = T> + Div<Output = T> + Exp,
 {
    &&& x.mul_req(two::<T>())
    &&& forall|e: T| #[trigger] is_exp_of(doubled(x), e) ==> quotient_defined(e)
}

/// Cloning, the conversion from `u8`, `*`, `-`, `+` and `/` of `T` are the
/// functions that their specifications name.
pub open spec fn exact_arithmetic<T>() -> bool where
    T: Clone + From<u8> + Mul<Output = T> + Sub<Output = T> + Add<Output = T> + Div<Output = T>,
 {
    &&& clones_exactly::<T>()
    &&& <T as FromSpec<u8>>::obeys_from_spec()
    &&& <T as MulSpec>::obeys_mul_spec()
    &&& <T as SubSpec>::obeys_sub_spec()
    &&& <T as AddSpec>::obeys_add_spec()
    &&& <T as DivSpec>::obeys_div_spec()
}

/// `*`, `-`, `+` and `/` of `T` accept every pair of arguments.
pub open spec fn total_arithmetic<T>() -> bool where
    T: Mul<Output = T> + Sub<Output = T> + Add<Output = T> + Div<Output = T>,
 {
    &&& forall|x: T, y: T| #[trigger] x.mul_req(y)
    &&& forall|x: T, y: T| #[trigger] x.sub_req(y)
    &&& forall|x: T, y: T| #[trigger] x.add_req(y)
    &&& forall|x: T, y: T| #[trigger] x.div_req(y)
}

/// `n` is a value that the conversion from `u8` may return for `k`.
pub open spec fn is_scalar<T: From<u8>>(k: u8, n: T) -> bool {
    call_ensures(<T as From<u8>>::from, (k,), n)
}

/// `r` is a value that `*` may return for a clone of `x` and the scalar 2.
pub open spec fn is_double_of<T: Clone + From<u8> + Mul<Output = T>>(x: T, r: T) -> bool {
    exists|c: T, n: T|
        cloned(x, c) && is_scalar(2u8, n) && #[trigger] call_ensures(<T as Mul>::mul, (c, n), r)
}

/// `r` is a value that `-` may return for a clone of `e` and the scalar 1.
pub open spec fn is_one_less_than<T: Clone + From<u8> + Sub<Output = T>>(e: T, r: T) -> bool {
    exists|c: T, n: T|
        cloned(e, c) && is_scalar(1u8, n) && #[trigger] call_ensures(<T as Sub>::sub, (c, n), r)
}

/// `r` is a value that `+` may return for a clone of `e` and the scalar 1.
pub open spec fn is_one_more_than<T: Clone + From<u8> + Add<Output = T>>(e: T, r: T) -> bool {
    exists|c: T, n: T|
        cloned(e, c) && is_scalar(1u8, n) && #[trigger] call_ensures(<T as Add>::add, (c, n), r)
}

/// `r` is a value that the computation (e - 1) / (e + 1) may return, where
/// e is what `exp` returned for twice `x`.
pub open spec fn is_tanh_of<T>(x: T, r: T) -> bool where
    T: Clone + From<u8> + Mul<Output = T> + Sub<Output = T> + Add<Output = T> + Div<
        Output = T,
    > + Exp,
 {
    exists|twice: T, e: T, upper: T, lower: T|
        #![trigger is_double_of(x, twice), is_one_less_than(e, upper), is_one_more_than(e, lower)]
        {
            &&& is_double_of(x, twice)
            &&& is_exp_of(twice, e)
            &&& is_one_less_than(e, upper)
            &&& is_one_more_than(e, lower)
            &&& call_ensures(<T as Div>::div, (upper, lower), r)
        }
}

/// Where the arithmetic of `T` is exact, every hyperbolic tangent of `x` is
/// (e - 1) / (e + 1) for an e that `exp` may return for twice `x`.
pub proof fn lemma_exact_tanh<T>(x: T, r: T) where
    T: Clone + From<u8> + Mul<Output = T> + Sub<Output = T> + Add<Output = T> + Div<
        Output = T,
    > + Exp,

    requires
        is_tanh_of(x, r),
        exact_arithmetic::<T>(),
    ensures
        exists|e: T| #[trigger] is_exp_of(doubled(x), e) && r == tanh_from_exp(e),
{
    let (twice, e, upper, lower) = choose|twice: T, e: T, upper: T, lower: T|
        #![trigger is_double_of(x, twice), is_one_less_than(e, upper), is_one_more_than(e, lower)]
        {
            &&& is_double_of(x, twice)
            &&& is_exp_of(twice, e)
            &&& is_one_less_than(e, upper)
            &&& is_one_more_than(e, lower)
            &&& call_ensures(<T as Div>::div, (upper, lower), r)
        };
    assert(is_exp_of(doubled(x), e));
}

} // verus!
