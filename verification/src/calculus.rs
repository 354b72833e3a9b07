//! Symbolic differentiation.

use std::rc::Rc;
use vstd::prelude::*;
use vstd::string::StringExecFns;

use crate::func::rc_dup;
use crate::func::Expr;
use crate::func::Function;

verus! {

/// IEEE-754 double bit pattern of the value zero.
pub const ZERO_BITS: u64 = 0;

/// IEEE-754 double bit pattern of the value one.
pub const ONE_BITS: u64 = 0x3FF0_0000_0000_0000;

/// The symbolic derivative of `e` with respect to the variable, rule by
/// rule and without any simplification afterwards:
///
/// - a constant becomes zero and the identity becomes one;
/// - sine becomes cosine, cosine becomes negated sine, the exponential is
///   its own derivative, and the natural logarithm becomes one over the
///   variable;
/// - negation, sum and difference differentiate child by child;
/// - a product obeys the product rule, a quotient the quotient rule with
///   the denominator squared, and a composition the chain rule with the
///   outer derivative composed onto the unchanged inner child.
///
/// The undifferentiated children reappear in the product, quotient and
/// chain rules exactly as they stood in `e`.
pub open spec fn deriv(e: Expr) -> Expr
    decreases e,
{
    match e {
        Expr::Const(_, _) => Expr::Const(ZERO_BITS, "0"@),
        Expr::Id => Expr::Const(ONE_BITS, "1"@),
        Expr::Sin => Expr::Cos,
        Expr::Cos => Expr::Negation(Box::new(Expr::Sin)),
        Expr::Exp => Expr::Exp,
        Expr::Log => Expr::Quotient(
            Box::new(Expr::Const(ONE_BITS, "1"@)),
            Box::new(Expr::Id),
        ),
        Expr::Negation(s) => Expr::Negation(Box::new(deriv(*s))),
        Expr::Sum(l, r) => Expr::Sum(Box::new(deriv(*l)), Box::new(deriv(*r))),
        Expr::Difference(l, r) => Expr::Difference(
            Box::new(deriv(*l)),
            Box::new(deriv(*r)),
        ),
        Expr::Product(l, r) => Expr::Sum(
            Box::new(Expr::Product(Box::new(deriv(*l)), r)),
            Box::new(Expr::Product(Box::new(deriv(*r)), l)),
        ),
        Expr::Quotient(t, b) => Expr::Quotient(
            Box::new(Expr::Difference(
                Box::new(Expr::Product(Box::new(deriv(*t)), b)),
                Box::new(Expr::Product(Box::new(deriv(*b)), t)),
            )),
            Box::new(Expr::Product(b, b)),
        ),
        Expr::Composition(s, t) => Expr::Product(
            Box::new(Expr::Composition(Box::new(deriv(*s)), t)),
            Box::new(deriv(*t)),
        ),
    }
}

impl Function {
    /// The symbolic derivative as a new tree; `self` is left untouched and
    /// its nodes are reused by reference wherever the rules repeat them.
    pub fn diff(&self) -> (r: Function)
        ensures
            r@ == deriv(self@),
        decreases *self,
    {
        match self {
            Function::Const(_, _) => Function::Const(ZERO_BITS, String::from_str("0")),
            Function::Id => Function::Const(ONE_BITS, String::from_str("1")),
            Function::Sin => Function::Cos,
            Function::Cos => {
                assert(Function::Sin@ == Expr::Sin);
                Function::Negation(Rc::new(Function::Sin))
            },
            Function::Exp => Function::Exp,
            Function::Log => {
                let one = Function::Const(ONE_BITS, String::from_str("1"));
                assert(one@ == Expr::Const(ONE_BITS, "1"@));
                assert(Function::Id@ == Expr::Id);
                Function::Quotient(Rc::new(one), Rc::new(Function::Id))
            },
            Function::Negation(s) => Function::Negation(Rc::new((**s).diff())),
            Function::Sum(l, r) => Function::Sum(
                Rc::new((**l).diff()),
                Rc::new((**r).diff()),
            ),
            Function::Difference(l, r) => Function::Difference(
                Rc::new((**l).diff()),
                Rc::new((**r).diff()),
            ),
            Function::Product(l, r) => {
                let lt = Function::Product(Rc::new((**l).diff()), rc_dup(r));
                let rt = Function::Product(Rc::new((**r).diff()), rc_dup(l));
                assert(lt@ == Expr::Product(Box::new(deriv((**l)@)), Box::new((**r)@)));
                assert(rt@ == Expr::Product(Box::new(deriv((**r)@)), Box::new((**l)@)));
                Function::Sum(Rc::new(lt), Rc::new(rt))
            },
            Function::Quotient(t, b) => {
                let num_l = Function::Product(Rc::new((**t).diff()), rc_dup(b));
                let num_r = Function::Product(Rc::new((**b).diff()), rc_dup(t));
                assert(num_l@ == Expr::Product(Box::new(deriv((**t)@)), Box::new((**b)@)));
                assert(num_r@ == Expr::Product(Box::new(deriv((**b)@)), Box::new((**t)@)));
                let num = Function::Difference(Rc::new(num_l), Rc::new(num_r));
                let den = Function::Product(rc_dup(b), rc_dup(b));
                assert(num@ == Expr::Difference(
                    Box::new(Expr::Product(Box::new(deriv((**t)@)), Box::new((**b)@))),
                    Box::new(Expr::Product(Box::new(deriv((**b)@)), Box::new((**t)@))),
                ));
                assert(den@ == Expr::Product(Box::new((**b)@), Box::new((**b)@)));
                Function::Quotient(Rc::new(num), Rc::new(den))
            },
            Function::Composition(s, t) => {
                let outer = Function::Composition(Rc::new((**s).diff()), rc_dup(t));
                assert(outer@ == Expr::Composition(Box::new(deriv((**s)@)), Box::new((**t)@)));
                Function::Product(Rc::new(outer), Rc::new((**t).diff()))
            },
        }
    }
}

} // verus!
