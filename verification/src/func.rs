//! The expression tree, its ghost model, and the combinator traits.

use std::rc::Rc;
use vstd::prelude::*;

verus! {

/// Ghost model of an expression tree.
///
/// A constant carries the IEEE-754 bit pattern of its value together with
/// the text it renders as; no structural operation ever interprets the bit
/// pattern, so the scalar stays opaque to the verified core.
#[verifier::ext_equal]
pub enum Expr {
    Const(u64, Seq<char>),
    Id,
    Sin,
    Cos,
    Exp,
    Log,
    Negation(Box<Expr>),
    Sum(Box<Expr>, Box<Expr>),
    Difference(Box<Expr>, Box<Expr>),
    Product(Box<Expr>, Box<Expr>),
    Quotient(Box<Expr>, Box<Expr>),
    Composition(Box<Expr>, Box<Expr>),
}

/// An immutable expression tree for a real-valued function of one variable.
///
/// Children are shared through `Rc`: every operation returns a new tree and
/// reuses existing nodes by reference where its rule permits.  A constant
/// holds the IEEE-754 bit pattern of its value and the text it renders as;
/// callers that evaluate numerically convert the bit pattern back to a
/// double.
pub enum Function {
    Const(u64, String),
    Id,
    Sin,
    Cos,
    Exp,
    Log,
    Negation(Rc<Function>),
    Sum(Rc<Function>, Rc<Function>),
    Difference(Rc<Function>, Rc<Function>),
    Product(Rc<Function>, Rc<Function>),
    Quotient(Rc<Function>, Rc<Function>),
    Composition(Rc<Function>, Rc<Function>),
}

impl View for Function {
    type V = Expr;

    open spec fn view(&self) -> Expr
        decreases self,
    {
        match self {
            Function::Const(bits, text) => Expr::Const(*bits, text@),
            Function::Id => Expr::Id,
            Function::Sin => Expr::Sin,
            Function::Cos => Expr::Cos,
            Function::Exp => Expr::Exp,
            Function::Log => Expr::Log,
            Function::Negation(s) => Expr::Negation(Box::new((**s).view())),
            Function::Sum(l, r) => Expr::Sum(Box::new((**l).view()), Box::new((**r).view())),
            Function::Difference(l, r) => Expr::Difference(
                Box::new((**l).view()),
                Box::new((**r).view()),
            ),
            Function::Product(l, r) => Expr::Product(Box::new((**l).view()), Box::new((**r).view())),
            Function::Quotient(t, b) => Expr::Quotient(Box::new((**t).view()), Box::new((**b).view())),
            Function::Composition(s, t) => Expr::Composition(
                Box::new((**s).view()),
                Box::new((**t).view()),
            ),
        }
    }
}

/// Relies on `Rc::clone`: the cloned handle refers to the same node.
#[verifier::external_body]
pub(crate) fn rc_dup(f: &Rc<Function>) -> (r: Rc<Function>)
    ensures
        r == *f,
{
    Rc::clone(f)
}

/// Composition: `f.of(g)` is the function `x -> f(g(x))`, `f` outer and
/// `g` inner.
pub trait FunctionOf: View<V = Expr> + Sized {
    fn of(self, other: Self) -> (r: Self)
        ensures
            r@ == Expr::Composition(Box::new(self@), Box::new(other@)),
    ;
}

/// Pointwise addition: `f.add(g)` is the function `x -> f(x) + g(x)`.
pub trait FunctionAdd: View<V = Expr> + Sized {
    fn add(self, other: Self) -> (r: Self)
        ensures
            r@ == Expr::Sum(Box::new(self@), Box::new(other@)),
    ;
}

/// Pointwise subtraction: `f.sub(g)` is the function `x -> f(x) - g(x)`.
pub trait FunctionSub: View<V = Expr> + Sized {
    fn sub(self, other: Self) -> (r: Self)
        ensures
            r@ == Expr::Difference(Box::new(self@), Box::new(other@)),
    ;
}

/// Pointwise negation: `f.neg()` is the function `x -> -f(x)`.
pub trait FunctionNeg: View<V = Expr> + Sized {
    fn neg(self) -> (r: Self)
        ensures
            r@ == Expr::Negation(Box::new(self@)),
    ;
}

/// Pointwise multiplication: `f.mul(g)` is the function `x -> f(x) * g(x)`.
pub trait FunctionMul: View<V = Expr> + Sized {
    fn mul(self, other: Self) -> (r: Self)
        ensures
            r@ == Expr::Product(Box::new(self@), Box::new(other@)),
    ;
}

/// Pointwise division: `f.div(g)` is the function `x -> f(x) / g(x)`;
/// `f` is the numerator.
pub trait FunctionDiv: View<V = Expr> + Sized {
    fn div(self, other: Self) -> (r: Self)
        ensures
            r@ == Expr::Quotient(Box::new(self@), Box::new(other@)),
    ;
}

impl FunctionOf for Function {
    fn of(self, other: Function) -> (r: Function) {
        Function::Composition(Rc::new(self), Rc::new(other))
    }
}

impl FunctionAdd for Function {
    fn add(self, other: Function) -> (r: Function) {
        Function::Sum(Rc::new(self), Rc::new(other))
    }
}

impl FunctionSub for Function {
    fn sub(self, other: Function) -> (r: Function) {
        Function::Difference(Rc::new(self), Rc::new(other))
    }
}

impl FunctionNeg for Function {
    fn neg(self) -> (r: Function) {
        Function::Negation(Rc::new(self))
    }
}

impl FunctionMul for Function {
    fn mul(self, other: Function) -> (r: Function) {
        Function::Product(Rc::new(self), Rc::new(other))
    }
}

impl FunctionDiv for Function {
    fn div(self, other: Function) -> (r: Function) {
        Function::Quotient(Rc::new(self), Rc::new(other))
    }
}

impl Function {
    /// A copy of the node that models the very same expression; children
    /// are shared, not copied.
    pub fn duplicate(&self) -> (r: Function)
        ensures
            r == *self,
    {
        match self {
            Function::Const(bits, text) => Function::Const(*bits, text.clone()),
            Function::Id => Function::Id,
            Function::Sin => Function::Sin,
            Function::Cos => Function::Cos,
            Function::Exp => Function::Exp,
            Function::Log => Function::Log,
            Function::Negation(s) => Function::Negation(rc_dup(s)),
            Function::Sum(l, r) => Function::Sum(rc_dup(l), rc_dup(r)),
            Function::Difference(l, r) => Function::Difference(rc_dup(l), rc_dup(r)),
            Function::Product(l, r) => Function::Product(rc_dup(l), rc_dup(r)),
            Function::Quotient(t, b) => Function::Quotient(rc_dup(t), rc_dup(b)),
            Function::Composition(s, t) => Function::Composition(rc_dup(s), rc_dup(t)),
        }
    }
}

} // verus!
