//! The laws the library states about its own operations.

use vstd::prelude::*;

use crate::calculus::deriv;
use crate::calculus::ONE_BITS;
use crate::calculus::ZERO_BITS;
use crate::expand::cross_products;
use crate::expand::lemma_cross_len;
use crate::expand::negate_each;
use crate::expand::over_each;
use crate::expand::terms_of;
use crate::expand::times_each;
use crate::func::Expr;
use crate::render::text_of;

verus! {

/// The derivative of sine is cosine.
pub proof fn lemma_deriv_sin()
    ensures
        deriv(Expr::Sin) == Expr::Cos,
{
}

/// The derivative of a constant is the constant zero, whatever value the
/// constant holds — including zero itself.
pub proof fn lemma_deriv_const(bits: u64, text: Seq<char>)
    ensures
        deriv(Expr::Const(bits, text)) == Expr::Const(ZERO_BITS, "0"@),
{
}

/// The derivative of the identity is the constant one.
pub proof fn lemma_deriv_id()
    ensures
        deriv(Expr::Id) == Expr::Const(ONE_BITS, "1"@),
{
}

/// The product rule: the derivative of `f * g` is
/// `f' * g + g' * f`, with the undifferentiated `f` and `g` standing
/// unchanged in the cross terms.
pub proof fn lemma_product_rule(f: Expr, g: Expr)
    ensures
        deriv(Expr::Product(Box::new(f), Box::new(g))) == Expr::Sum(
            Box::new(Expr::Product(Box::new(deriv(f)), Box::new(g))),
            Box::new(Expr::Product(Box::new(deriv(g)), Box::new(f))),
        ),
{
}

/// The quotient rule: the derivative of `f / g` is
/// `(f' * g - g' * f) / (g * g)`, the denominator squared structurally.
pub proof fn lemma_quotient_rule(f: Expr, g: Expr)
    ensures
        deriv(Expr::Quotient(Box::new(f), Box::new(g))) == Expr::Quotient(
            Box::new(Expr::Difference(
                Box::new(Expr::Product(Box::new(deriv(f)), Box::new(g))),
                Box::new(Expr::Product(Box::new(deriv(g)), Box::new(f))),
            )),
            Box::new(Expr::Product(Box::new(g), Box::new(g))),
        ),
{
}

/// The chain rule: the derivative of `f` composed onto `g` is the
/// derivative of `f` composed onto the unchanged `g`, multiplied by the
/// derivative of `g`.
pub proof fn lemma_chain_rule(f: Expr, g: Expr)
    ensures
        deriv(Expr::Composition(Box::new(f), Box::new(g))) == Expr::Product(
            Box::new(Expr::Composition(Box::new(deriv(f)), Box::new(g))),
            Box::new(deriv(g)),
        ),
{
}

/// Expanding a product of an expression with `m` terms by one with `n`
/// terms yields exactly `m * n` terms.
pub proof fn lemma_product_expansion_count(f: Expr, g: Expr)
    ensures
        terms_of(Expr::Product(Box::new(f), Box::new(g))).len() == terms_of(f).len() * terms_of(
            g,
        ).len(),
{
    lemma_cross_len(terms_of(f), terms_of(g));
}

/// Rendering a sum produces the literal pattern `(a + b)` around the two
/// children's own renderings.
pub proof fn lemma_render_sum(a: Expr, b: Expr)
    ensures
        text_of(Expr::Sum(Box::new(a), Box::new(b))) == "("@ + text_of(a) + " + "@ + text_of(b)
            + ")"@,
{
}

/// Every element of a cross product is a product node.
proof fn lemma_cross_all_products(ls: Seq<Expr>, rs: Seq<Expr>)
    ensures
        forall|k: int|
            0 <= k < cross_products(ls, rs).len() ==> (#[trigger] cross_products(ls, rs)[k])
                is Product,
    decreases ls.len(),
{
    if ls.len() == 0 {
    } else {
        lemma_cross_all_products(ls.drop_first(), rs);
        assert forall|k: int|
            0 <= k < cross_products(ls, rs).len() implies (#[trigger] cross_products(ls, rs)[k])
            is Product by {
            if k < rs.len() {
                assert(cross_products(ls, rs)[k] == times_each(ls[0], rs)[k]);
            } else {
                assert(cross_products(ls, rs)[k] == cross_products(ls.drop_first(), rs)[k
                    - rs.len()]);
            }
        }
    }
}

/// Expansion really flattens: no expanded term is itself a sum or a
/// difference at its top — additions survive only as the separators of
/// the term list.
pub proof fn lemma_terms_are_flat(e: Expr)
    ensures
        forall|k: int|
            0 <= k < terms_of(e).len() ==> !((#[trigger] terms_of(e)[k]) is Sum) && !(terms_of(
                e,
            )[k] is Difference),
    decreases e,
{
    match e {
        Expr::Sum(l, r) => {
            lemma_terms_are_flat(*l);
            lemma_terms_are_flat(*r);
            assert forall|k: int|
                0 <= k < terms_of(e).len() implies !((#[trigger] terms_of(e)[k]) is Sum)
                && !(terms_of(e)[k] is Difference) by {
                if k < terms_of(*l).len() {
                    assert(terms_of(e)[k] == terms_of(*l)[k]);
                } else {
                    assert(terms_of(e)[k] == terms_of(*r)[k - terms_of(*l).len()]);
                }
            }
        },
        Expr::Difference(l, r) => {
            lemma_terms_are_flat(*l);
            assert forall|k: int|
                0 <= k < terms_of(e).len() implies !((#[trigger] terms_of(e)[k]) is Sum)
                && !(terms_of(e)[k] is Difference) by {
                if k < terms_of(*l).len() {
                    assert(terms_of(e)[k] == terms_of(*l)[k]);
                } else {
                    assert(terms_of(e)[k] == negate_each(terms_of(*r))[k - terms_of(*l).len()]);
                }
            }
        },
        Expr::Product(l, r) => {
            lemma_cross_all_products(terms_of(*l), terms_of(*r));
        },
        Expr::Quotient(t, b) => {
            assert forall|k: int|
                0 <= k < terms_of(e).len() implies !((#[trigger] terms_of(e)[k]) is Sum)
                && !(terms_of(e)[k] is Difference) by {
                assert(terms_of(e)[k] == over_each(terms_of(*t), *b)[k]);
            }
        },
        _ => {
        },
    }
}

} // verus!
