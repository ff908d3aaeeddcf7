use scalar_graph::engine::{Exp, Graph, Op, Value};
use std::fmt;
use std::ops::{Add, Div, Mul, Sub};

/// A double-precision number with the capabilities that `tanh` asks for.
#[derive(Clone, Copy, Debug, PartialEq, PartialOrd)]
struct Real(f64);

impl From<u8> for Real {
    fn from(n: u8) -> Real {
        Real(f64::from(n))
    }
}

impl Add for Real {
    type Output = Real;
    fn add(self, rhs: Real) -> Real {
        Real(self.0 + rhs.0)
    }
}

impl Sub for Real {
    type Output = Real;
    fn sub(self, rhs: Real) -> Real {
        Real(self.0 - rhs.0)
    }
}

impl Mul for Real {
    type Output = Real;
    fn mul(self, rhs: Real) -> Real {
        Real(self.0 * rhs.0)
    }
}

impl Div for Real {
    type Output = Real;
    fn div(self, rhs: Real) -> Real {
        Real(self.0 / rhs.0)
    }
}

impl Exp for Real {
    fn exp(self) -> Real {
        Real(self.0.exp())
    }
}

impl fmt::Display for Real {
    fn fmt(&self, f: &mut fmt::Formatter) -> fmt::Result {
        self.0.fmt(f)
    }
}

fn tanh_of(x: f64) -> f64 {
    let mut g = Graph::new();
    let leaf = Value::new(&mut g, Real(x), String::from("x"));
    let t = leaf.tanh(&mut g);
    t.data(&g).0
}

#[test]
fn can_create_new() {
    let mut gi = Graph::new();
    let v1i = Value::new(&mut gi, 1, String::from("v1"));
    assert_eq!(v1i.data(&gi), 1);

    let mut gf = Graph::new();
    let v1f = Value::new(&mut gf, 1.0, String::from("v1"));
    assert_eq!(v1f.data(&gf), 1.0);
}

#[test]
fn can_add_value() {
    let mut gi = Graph::new();
    let v1i = Value::new(&mut gi, 1, String::from("v1"));
    let v2i = Value::new(&mut gi, 2, String::from("v2"));
    let v3i = v1i.add(&mut gi, &v2i);
    assert_eq!(v3i.data(&gi), 3);

    let mut gf = Graph::new();
    let v1f = Value::new(&mut gf, 1.0, String::from("v1"));
    let v2f = Value::new(&mut gf, 2.0, String::from("v2"));
    let v3f = v1f.add(&mut gf, &v2f);
    assert_eq!(v3f.data(&gf), 3.0);
}

#[test]
fn can_mul_value() {
    let mut gi = Graph::new();
    let v1i = Value::new(&mut gi, 2, String::from("v1"));
    let v2i = Value::new(&mut gi, 3, String::from("v2"));
    let v3i = v1i.mul(&mut gi, &v2i);
    assert_eq!(v3i.data(&gi), 6);

    let mut gf = Graph::new();
    let v1f = Value::new(&mut gf, 2.0, String::from("v1"));
    let v2f = Value::new(&mut gf, 3.0, String::from("v2"));
    let v3f = v1f.mul(&mut gf, &v2f);
    assert_eq!(v3f.data(&gf), 6.0);
}

#[test]
fn sample_graph() {
    let mut g = Graph::new();
    let a = Value::new(&mut g, 2, String::from("a"));
    let b = Value::new(&mut g, -3, String::from("b"));
    let c = Value::new(&mut g, 10, String::from("c"));
    let e = a.mul(&mut g, &b);
    assert_eq!(e.data(&g), -6);
    e.set_label(&mut g, String::from("e"));
    let d = c.add(&mut g, &e);
    assert_eq!(d.data(&g), 4);
    d.set_label(&mut g, String::from("d"));
    let f = Value::new(&mut g, -2, String::from("f"));
    let l = f.mul(&mut g, &d);
    assert_eq!(l.data(&g), -8);
    l.set_label(&mut g, String::from("d"));
    println!("{}", l.describe(&g));
    println!("{}", e.describe(&g));
    println!("{}", b.describe(&g));
    assert_eq!(l.describe(&g), "d (data: -8, op, Mul, prev: [\"f\", \"d\"])");
    assert_eq!(e.describe(&g), "e (data: -6, op, Mul, prev: [\"a\", \"b\"])");
    assert_eq!(b.describe(&g), "b (data: -3, op, Nop, prev: [])");
    assert_eq!(a.data(&g), 2);
    assert_eq!(b.data(&g), -3);
    assert_eq!(c.data(&g), 10);
    assert_eq!(f.data(&g), -2);
}

#[test]
fn sample_neuron() {
    let mut g = Graph::new();
    let x1 = Value::new(&mut g, Real(2.0), String::from("x1"));
    let x2 = Value::new(&mut g, Real(0.0), String::from("x2"));

    let w1 = Value::new(&mut g, Real(-3.0), String::from("w1"));
    let w2 = Value::new(&mut g, Real(1.0), String::from("w2"));

    let b = Value::new(&mut g, Real(6.88137), String::from("b"));

    let x1w1 = x1.mul(&mut g, &w1);
    let x2w2 = x2.mul(&mut g, &w2);
    let x1w1x2w2 = x1w1.add(&mut g, &x2w2);

    let n = x1w1x2w2.add(&mut g, &b);
    n.set_label(&mut g, String::from("n"));
    let o = n.tanh(&mut g);
    o.set_label(&mut g, String::from("o"));
    println!("{}", o.describe(&g));
    println!("{}", n.describe(&g));

    assert_eq!(x1w1.data(&g), Real(-6.0));
    assert_eq!(x2w2.data(&g), Real(0.0));
    assert_eq!(x1w1x2w2.data(&g), Real(-6.0));
    assert!((n.data(&g).0 - 0.88137).abs() < 1e-12);
    assert!((o.data(&g).0 - 0.88137f64.tanh()).abs() < 1e-12);
    assert!((o.data(&g).0 - 0.7071).abs() < 1e-4);
    assert_eq!(o.payload(&g).op, Op::Tanh);
    assert_eq!(o.payload(&g).prev.len(), 1);
    assert_eq!(o.payload(&g).prev[0].index(), n.index());
    assert_eq!(o.describe(&g), format!("o (data: {}, op, Tanh, prev: [\"n\"])", o.data(&g).0));
}

#[test]
fn tanh_of_zero_is_zero() {
    assert_eq!(tanh_of(0.0), 0.0);
}

#[test]
fn tanh_follows_the_exponential_formula() {
    let e = 1.0f64.exp();
    assert_eq!(tanh_of(0.5), (e - 1.0) / (e + 1.0));
    assert!((tanh_of(0.5) - 0.46211715726000974).abs() < 1e-15);
    assert!((tanh_of(-0.5) + 0.46211715726000974).abs() < 1e-15);
}

#[test]
fn tanh_approaches_one_for_large_positive_input() {
    assert!((tanh_of(5.0) - 1.0).abs() < 1e-4);
    assert!(tanh_of(5.0) < 1.0);
    assert_eq!(tanh_of(20.0), 1.0);
}

#[test]
fn tanh_approaches_minus_one_for_large_negative_input() {
    assert!((tanh_of(-5.0) + 1.0).abs() < 1e-4);
    assert!(tanh_of(-5.0) > -1.0);
    assert_eq!(tanh_of(-20.0), -1.0);
    assert_eq!(tanh_of(-1000.0), -1.0);
}

#[test]
fn tanh_stores_what_the_arithmetic_yields_when_it_overflows() {
    assert!(tanh_of(1000.0).is_nan());
    assert!(tanh_of(f64::NAN).is_nan());
    assert!(tanh_of(f64::INFINITY).is_nan());
    assert_eq!(tanh_of(f64::NEG_INFINITY), -1.0);
}

#[test]
fn tanh_records_its_operand_and_label() {
    let mut g = Graph::new();
    let x = Value::new(&mut g, Real(0.25), String::from("x"));
    let t = x.tanh(&mut g);
    assert_eq!(t.index(), 1);
    assert_eq!(g.len(), 2);
    assert_eq!(t.label(&g), "tanh(x)");
    assert_eq!(t.payload(&g).op, Op::Tanh);
    assert_eq!(t.payload(&g).prev.len(), 1);
    assert_eq!(t.payload(&g).prev[0].index(), x.index());
    assert_eq!(x.data(&g), Real(0.25));
    assert_eq!(x.label(&g), "x");
}

#[test]
fn non_finite_values_are_stored_and_propagated() {
    let mut g = Graph::new();
    let big = Value::new(&mut g, f64::MAX, String::from("big"));
    let sum = big.add(&mut g, &big);
    assert_eq!(sum.data(&g), f64::INFINITY);
    let zero = Value::new(&mut g, 0.0, String::from("zero"));
    let product = sum.mul(&mut g, &zero);
    assert!(product.data(&g).is_nan());
    let next = product.add(&mut g, &zero);
    assert!(next.data(&g).is_nan());
}
