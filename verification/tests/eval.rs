//! Numeric evaluation scenarios.
//!
//! The library keeps trees and their structural operations; numeric
//! evaluation is IEEE-754 work done by the caller.  These tests walk the
//! public tree exactly as the specification defines evaluation, variant
//! by variant.

use diff_func::Function;
use diff_func::FunctionAdd;
use diff_func::FunctionDiv;
use diff_func::FunctionMul;
use diff_func::FunctionNeg;
use diff_func::FunctionOf;
use diff_func::FunctionSub;

fn eval(f: &Function, x: f64) -> f64 {
    match f {
        Function::Const(bits, _) => f64::from_bits(*bits),
        Function::Id => x,
        Function::Sin => x.sin(),
        Function::Cos => x.cos(),
        Function::Exp => x.exp(),
        Function::Log => x.ln(),
        Function::Negation(s) => -eval(s, x),
        Function::Sum(l, r) => eval(l, x) + eval(r, x),
        Function::Difference(l, r) => eval(l, x) - eval(r, x),
        Function::Product(l, r) => eval(l, x) * eval(r, x),
        Function::Quotient(t, b) => eval(t, x) / eval(b, x),
        Function::Composition(s, t) => eval(s, eval(t, x)),
    }
}

fn constant(c: f64) -> Function {
    Function::Const(c.to_bits(), format!("{}", c))
}

#[test]
fn eval_const() {
    let two = constant(2.0);
    assert_eq!(eval(&two, 1.0), 2.0);
}

#[test]
fn eval_id() {
    let id = Function::Id;
    assert_eq!(eval(&id, 3.0), 3.0);
}

#[test]
fn eval_sin() {
    let sin = Function::Sin;
    assert_eq!(eval(&sin, 4.0), 4f64.sin());
}

#[test]
fn eval_cos() {
    let cos = Function::Cos;
    assert_eq!(eval(&cos, 5.0), 5f64.cos());
}

#[test]
fn eval_exp() {
    let exp = Function::Exp;
    assert_eq!(eval(&exp, 6.0), 6f64.exp());
}

#[test]
fn eval_log() {
    let log = Function::Log;
    assert_eq!(eval(&log, 7.0), 7f64.ln());
}

#[test]
fn eval_sum() {
    let three = constant(3.0).add(constant(2.0));
    assert_eq!(eval(&three, 8.0), 5.0);
}

#[test]
fn eval_diff() {
    let three_minus_x = constant(3.0).sub(Function::Id);
    assert_eq!(eval(&three_minus_x, 9.0), -6.0);
}

#[test]
fn eval_neg() {
    let minus_x = Function::Id.neg();
    assert_eq!(eval(&minus_x, 10.0), -10.0);
}

#[test]
fn eval_mul() {
    let x_sqr = Function::Id.mul(Function::Id);
    assert_eq!(eval(&x_sqr, 11.0), 121.0);
}

#[test]
fn eval_div() {
    let inv = constant(1.0).div(Function::Id);
    assert_eq!(eval(&inv, 12.0), 1.0 / 12.0);
}

#[test]
fn eval_comp() {
    let x_sqr = Function::Id.mul(Function::Id);
    let sin_of_sqr = Function::Sin.of(x_sqr);
    assert_eq!(eval(&sin_of_sqr, -1.0), 1f64.sin());
}

#[test]
fn eval_leaves_negative_and_fractional() {
    assert_eq!(eval(&constant(-2.5), -0.75), -2.5);
    assert_eq!(eval(&Function::Id, -0.75), -0.75);
    assert_eq!(eval(&Function::Id, 0.5), 0.5);
    assert_eq!(eval(&Function::Sin, -0.75), (-0.75f64).sin());
    assert_eq!(eval(&Function::Sin, 0.5), 0.5f64.sin());
    assert_eq!(eval(&Function::Cos, -1.25), (-1.25f64).cos());
    assert_eq!(eval(&Function::Cos, 0.25), 0.25f64.cos());
    assert_eq!(eval(&Function::Exp, -1.5), (-1.5f64).exp());
    assert_eq!(eval(&Function::Exp, 0.125), 0.125f64.exp());
    assert_eq!(eval(&Function::Log, 0.5), 0.5f64.ln());
    assert_eq!(eval(&Function::Log, 2.75), 2.75f64.ln());
}
