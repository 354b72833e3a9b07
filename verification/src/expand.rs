//! Expansion into a flat sum of product terms.

use std::rc::Rc;
use vstd::prelude::*;

use crate::func::rc_dup;
use crate::func::Expr;
use crate::func::Function;

verus! {

/// Each term wrapped in a negation, in order.
pub open spec fn negate_each(ts: Seq<Expr>) -> Seq<Expr> {
    ts.map_values(|t: Expr| Expr::Negation(Box::new(t)))
}

/// The left factor `t` multiplied onto each element of `rs`, in order.
pub open spec fn times_each(t: Expr, rs: Seq<Expr>) -> Seq<Expr> {
    rs.map_values(|r: Expr| Expr::Product(Box::new(t), Box::new(r)))
}

/// Every pairwise product of a left and a right term, ordered with the
/// left factors outermost: all products of `ls[0]` first, then of `ls[1]`,
/// and so on.
pub open spec fn cross_products(ls: Seq<Expr>, rs: Seq<Expr>) -> Seq<Expr>
    decreases ls.len(),
{
    if ls.len() == 0 {
        Seq::empty()
    } else {
        times_each(ls[0], rs) + cross_products(ls.drop_first(), rs)
    }
}

/// Each term divided by the shared, unexpanded denominator `b`.
pub open spec fn over_each(ts: Seq<Expr>, b: Expr) -> Seq<Expr> {
    ts.map_values(|t: Expr| Expr::Quotient(Box::new(t), Box::new(b)))
}

/// The ordered additive terms whose sum equals `e`:
///
/// - a sum concatenates its children's terms;
/// - a difference concatenates the left terms with the right terms each
///   wrapped in a negation;
/// - a product distributes fully, pairing every left term with every
///   right term;
/// - a quotient distributes only its numerator; the denominator is kept
///   whole under each term, deliberately unexpanded;
/// - every other node — each leaf, a negation, and a composition, whose
///   inner structure expansion treats as opaque — is its own single term.
pub open spec fn terms_of(e: Expr) -> Seq<Expr>
    decreases e,
{
    match e {
        Expr::Sum(l, r) => terms_of(*l) + terms_of(*r),
        Expr::Difference(l, r) => terms_of(*l) + negate_each(terms_of(*r)),
        Expr::Product(l, r) => cross_products(terms_of(*l), terms_of(*r)),
        Expr::Quotient(t, b) => over_each(terms_of(*t), *b),
        _ => seq![e],
    }
}

/// A nonempty term list folded back into one tree by right-associated
/// sums: a single term stands alone, and otherwise the first term is
/// summed with the fold of the rest.
pub open spec fn sum_of_terms(ts: Seq<Expr>) -> Expr
    recommends
        ts.len() > 0,
    decreases ts.len(),
{
    if ts.len() <= 1 {
        ts[0]
    } else {
        Expr::Sum(Box::new(ts[0]), Box::new(sum_of_terms(ts.drop_first())))
    }
}

/// The models of a sequence of trees, element by element.
pub open spec fn views_of(s: Seq<Function>) -> Seq<Expr> {
    s.map_values(|f: Function| f@)
}

/// Distributing a product over a concatenated left factor list splits the
/// cross product at the same place.
pub proof fn lemma_cross_split(a: Seq<Expr>, b: Seq<Expr>, rs: Seq<Expr>)
    ensures
        cross_products(a + b, rs) == cross_products(a, rs) + cross_products(b, rs),
    decreases a.len(),
{
    if a.len() == 0 {
        assert(a + b =~= b);
        assert(cross_products(a, rs) + cross_products(b, rs) =~= cross_products(b, rs));
    } else {
        assert((a + b).drop_first() =~= a.drop_first() + b);
        lemma_cross_split(a.drop_first(), b, rs);
        assert(times_each(a[0], rs) + (cross_products(a.drop_first(), rs) + cross_products(
            b,
            rs,
        )) =~= (times_each(a[0], rs) + cross_products(a.drop_first(), rs)) + cross_products(
            b,
            rs,
        ));
    }
}

/// A cross product of `m` left terms by `n` right terms has exactly
/// `m * n` elements.
pub proof fn lemma_cross_len(ls: Seq<Expr>, rs: Seq<Expr>)
    ensures
        cross_products(ls, rs).len() == ls.len() * rs.len(),
    decreases ls.len(),
{
    if ls.len() == 0 {
    } else {
        lemma_cross_len(ls.drop_first(), rs);
        assert(ls.len() * rs.len() == rs.len() + (ls.len() - 1) * rs.len()) by (nonlinear_arith);
    }
}

/// Every expression expands to at least one term, so folding the terms
/// back into a tree never meets an empty list.
pub proof fn lemma_terms_nonempty(e: Expr)
    ensures
        terms_of(e).len() >= 1,
    decreases e,
{
    match e {
        Expr::Sum(l, r) => {
            lemma_terms_nonempty(*l);
            lemma_terms_nonempty(*r);
        },
        Expr::Difference(l, r) => {
            lemma_terms_nonempty(*l);
        },
        Expr::Product(l, r) => {
            lemma_terms_nonempty(*l);
            lemma_terms_nonempty(*r);
            lemma_cross_len(terms_of(*l), terms_of(*r));
            assert(terms_of(*l).len() * terms_of(*r).len() >= 1) by (nonlinear_arith)
                requires
                    terms_of(*l).len() >= 1,
                    terms_of(*r).len() >= 1,
            ;
        },
        Expr::Quotient(t, b) => {
            lemma_terms_nonempty(*t);
        },
        _ => {},
    }
}

impl Function {
    /// The ordered list of additive terms whose sum equals `self`; see
    /// [`terms_of`] for the rule applied at each node.
    pub fn expand_vec(&self) -> (r: Vec<Function>)
        ensures
            views_of(r@) == terms_of(self@),
        decreases *self,
    {
        match self {
            Function::Sum(l, r) => {
                let mut result = (**l).expand_vec();
                let mut rts = (**r).expand_vec();
                result.append(&mut rts);
                proof {
                    assert(views_of(result@) =~= terms_of((**l)@) + terms_of((**r)@));
                }
                result
            },
            Function::Difference(l, r) => {
                let mut result = (**l).expand_vec();
                let rts = (**r).expand_vec();
                let ghost lv = terms_of((**l)@);
                let ghost rv = views_of(rts@);
                let mut j: usize = 0;
                while j < rts.len()
                    invariant
                        j <= rts.len(),
                        rv == views_of(rts@),
                        rv == terms_of((**r)@),
                        views_of(result@) == lv + negate_each(rv.take(j as int)),
                    decreases rts.len() - j,
                {
                    let term = Function::Negation(Rc::new(rts[j].duplicate()));
                    proof {
                        assert(term@ == Expr::Negation(Box::new(rv[j as int])));
                    }
                    let ghost prev = result@;
                    result.push(term);
                    proof {
                        lemma_views_push(prev, result@[prev.len() as int]);
                        assert(negate_each(rv.take(j as int + 1)) =~~= negate_each(rv.take(
                            j as int,
                        )).push(Expr::Negation(Box::new(rv[j as int]))));
                        assert(lv + negate_each(rv.take(j as int)).push(term@) =~~= (lv
                            + negate_each(rv.take(j as int))).push(term@));
                    }
                    j += 1;
                }
                proof {
                    assert(rv.take(rts@.len() as int) =~= rv);
                }
                result
            },
            Function::Product(l, r) => {
                let lts = (**l).expand_vec();
                let rts = (**r).expand_vec();
                let ghost lv = views_of(lts@);
                let ghost rv = views_of(rts@);
                let mut result: Vec<Function> = Vec::new();
                let mut i: usize = 0;
                while i < lts.len()
                    invariant
                        i <= lts.len(),
                        lv == views_of(lts@),
                        rv == views_of(rts@),
                        lv == terms_of((**l)@),
                        rv == terms_of((**r)@),
                        views_of(result@) == cross_products(lv.take(i as int), rv),
                    decreases lts.len() - i,
                {
                    let mut j: usize = 0;
                    while j < rts.len()
                        invariant
                            i < lts.len(),
                            j <= rts.len(),
                            lv == views_of(lts@),
                            rv == views_of(rts@),
                            views_of(result@) == cross_products(lv.take(i as int), rv)
                                + times_each(lv[i as int], rv.take(j as int)),
                        decreases rts.len() - j,
                    {
                        let term = Function::Product(
                            Rc::new(lts[i].duplicate()),
                            Rc::new(rts[j].duplicate()),
                        );
                        proof {
                            assert(term@ == Expr::Product(
                                Box::new(lv[i as int]),
                                Box::new(rv[j as int]),
                            ));
                        }
                        let ghost prev = result@;
                        result.push(term);
                        proof {
                            lemma_views_push(prev, result@[prev.len() as int]);
                            assert(times_each(lv[i as int], rv.take(j as int + 1)) =~~= times_each(
                                lv[i as int],
                                rv.take(j as int),
                            ).push(Expr::Product(
                                Box::new(lv[i as int]),
                                Box::new(rv[j as int]),
                            )));
                            assert(cross_products(lv.take(i as int), rv) + times_each(
                                lv[i as int],
                                rv.take(j as int),
                            ).push(term@) =~~= (cross_products(lv.take(i as int), rv) + times_each(
                                lv[i as int],
                                rv.take(j as int),
                            )).push(term@));
                        }
                        j += 1;
                    }
                    proof {
                        assert(lv.take(i as int + 1) =~= lv.take(i as int) + seq![lv[i as int]]);
                        lemma_cross_split(lv.take(i as int), seq![lv[i as int]], rv);
                        assert(seq![lv[i as int]].drop_first() =~= Seq::<Expr>::empty());
                        assert(cross_products(Seq::<Expr>::empty(), rv) == Seq::<Expr>::empty());
                        assert(seq![lv[i as int]][0] == lv[i as int]);
                        assert(times_each(lv[i as int], rv) + Seq::<Expr>::empty() =~= times_each(
                            lv[i as int],
                            rv,
                        ));
                        assert(cross_products(seq![lv[i as int]], rv) =~= times_each(
                            lv[i as int],
                            rv,
                        ));
                        assert(rv.take(rts@.len() as int) =~= rv);
                        assert(views_of(result@) =~= cross_products(lv.take(i as int + 1), rv));
                    }
                    i += 1;
                }
                proof {
                    assert(lv.take(lts@.len() as int) =~= lv);
                }
                result
            },
            Function::Quotient(t, b) => {
                let tts = (**t).expand_vec();
                let ghost tv = views_of(tts@);
                let mut result: Vec<Function> = Vec::new();
                let mut j: usize = 0;
                while j < tts.len()
                    invariant
                        j <= tts.len(),
                        tv == views_of(tts@),
                        tv == terms_of((**t)@),
                        views_of(result@) == over_each(tv.take(j as int), (**b)@),
                    decreases tts.len() - j,
                {
                    let term = Function::Quotient(Rc::new(tts[j].duplicate()), rc_dup(b));
                    proof {
                        assert(term@ == Expr::Quotient(Box::new(tv[j as int]), Box::new((**b)@)));
                    }
                    let ghost prev = result@;
                    result.push(term);
                    proof {
                        lemma_views_push(prev, result@[prev.len() as int]);
                        assert(over_each(tv.take(j as int + 1), (**b)@) =~~= over_each(tv.take(
                            j as int,
                        ), (**b)@).push(Expr::Quotient(Box::new(tv[j as int]), Box::new((**b)@))));
                    }
                    j += 1;
                }
                proof {
                    assert(tv.take(tts@.len() as int) =~= tv);
                }
                result
            },
            _ => {
                let mut result: Vec<Function> = Vec::new();
                result.push(self.duplicate());
                proof {
                    assert(views_of(result@) =~= seq![self@]);
                }
                result
            },
        }
    }

    /// The right-associated sum of the given nonempty term list; the terms
    /// themselves are reused by reference.
    pub fn from_many(many: &[Function]) -> (r: Function)
        requires
            many@.len() > 0,
        ensures
            r@ == sum_of_terms(views_of(many@)),
    {
        let ghost vs = views_of(many@);
        let n = many.len();
        let mut acc = vstd::slice::slice_index_get(many, n - 1).duplicate();
        proof {
            assert(vs.skip(n - 1 as int).len() == 1);
            assert(vs.skip(n - 1 as int)[0] == vs[n - 1 as int]);
        }
        let mut i = n - 1;
        while i > 0
            invariant
                i <= n - 1,
            n == many@.len(),
                n >= 1,
                vs == views_of(many@),
                acc@ == sum_of_terms(vs.skip(i as int)),
            decreases i,
        {
            i -= 1;
            let next = Function::Sum(
                Rc::new(vstd::slice::slice_index_get(many, i).duplicate()),
                Rc::new(acc),
            );
            proof {
                assert(vs.skip(i as int).drop_first() =~= vs.skip(i as int + 1));
                assert(vs.skip(i as int)[0] == vs[i as int]);
                assert(next@ == Expr::Sum(
                    Box::new(vs[i as int]),
                    Box::new(sum_of_terms(vs.skip(i as int + 1))),
                ));
            }
            acc = next;
        }
        proof {
            assert(vs.skip(0) =~= vs);
        }
        acc
    }

    /// The expansion folded back into a single tree: the sum of all the
    /// expanded terms, right-associated.  Every expression has at least
    /// one term, so the fold is total.
    pub fn expand(&self) -> (r: Function)
        ensures
            r@ == sum_of_terms(terms_of(self@)),
    {
        let terms = self.expand_vec();
        proof {
            lemma_terms_nonempty(self@);
        }
        Function::from_many(terms.as_slice())
    }
}

/// Taking the model of every tree commutes with appending one more tree.
pub proof fn lemma_views_push(a: Seq<Function>, x: Function)
    ensures
        views_of(a.push(x)) == views_of(a).push(x@),
{
    assert(views_of(a.push(x)) =~~= views_of(a).push(x@));
}

} // verus!
