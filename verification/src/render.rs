//! Fully parenthesized textual rendering.

use vstd::prelude::*;
use vstd::string::StrSliceExecFns;
use vstd::string::StringExecFns;

use crate::func::Expr;
use crate::func::Function;

verus! {

/// `hay` with every occurrence of the placeholder token `(x)` replaced by
/// `rep`, scanning left to right over non-overlapping occurrences.
///
/// Composition is rendered by substituting the inner child's text for
/// this token in the outer child's text.  The replacement is purely
/// textual, not tree-aware: it relies on every variable occurrence in a
/// rendered expression appearing as exactly this parenthesized token, and
/// a constant whose text contained the token would be corrupted.  That is
/// a known limitation of the textual scheme, kept as designed.
pub open spec fn subst_marker(hay: Seq<char>, rep: Seq<char>) -> Seq<char>
    decreases hay.len(),
{
    if hay.len() >= 3 && hay.subrange(0, 3) == "(x)"@ {
        rep + subst_marker(hay.skip(3), rep)
    } else if hay.len() >= 1 {
        seq![hay[0]] + subst_marker(hay.skip(1), rep)
    } else {
        Seq::empty()
    }
}

/// The rendered text of `e`: leaves are wrapped in parentheses (`(x)`,
/// `(sin(x))`, a constant as its stored text in parentheses), negation is
/// prefixed with `-`, each binary combinator is `(left op right)` with
/// `+`, `-`, `*` or `/` for its operator, and composition substitutes the
/// inner child's text for the variable token of the outer child's text.
pub open spec fn text_of(e: Expr) -> Seq<char>
    decreases e,
{
    match e {
        Expr::Const(_, text) => "("@ + text + ")"@,
        Expr::Id => "(x)"@,
        Expr::Sin => "(sin(x))"@,
        Expr::Cos => "(cos(x))"@,
        Expr::Exp => "(exp(x))"@,
        Expr::Log => "(ln(x))"@,
        Expr::Negation(s) => "-"@ + text_of(*s),
        Expr::Sum(l, r) => "("@ + text_of(*l) + " + "@ + text_of(*r) + ")"@,
        Expr::Difference(l, r) => "("@ + text_of(*l) + " - "@ + text_of(*r) + ")"@,
        Expr::Product(l, r) => "("@ + text_of(*l) + " * "@ + text_of(*r) + ")"@,
        Expr::Quotient(t, b) => "("@ + text_of(*t) + " / "@ + text_of(*b) + ")"@,
        Expr::Composition(s, t) => subst_marker(text_of(*s), text_of(*t)),
    }
}

/// The textual substitution behind composition rendering; see
/// [`subst_marker`].
fn subst(hay: &str, rep: &str) -> (r: String)
    ensures
        r@ == subst_marker(hay@, rep@),
{
    let n = hay.unicode_len();
    let mut out = String::new();
    let mut i: usize = 0;
    proof {
        assert(hay@.skip(0) =~= hay@);
    }
    while i < n
        invariant
            n == hay@.len(),
            i <= n,
            subst_marker(hay@, rep@) == out@ + subst_marker(hay@.skip(i as int), rep@),
        decreases n - i,
    {
        let mut matched = false;
        if n - i >= 3 {
            let c0 = hay.get_char(i);
            let c1 = hay.get_char(i + 1);
            let c2 = hay.get_char(i + 2);
            matched = c0 == '(' && c1 == 'x' && c2 == ')';
        }
        if matched {
            let ghost prev = out@;
            out.append(rep);
            proof {
                reveal_strlit("(x)");
                assert(hay@.skip(i as int).subrange(0, 3) =~= "(x)"@);
                assert(hay@.skip(i as int).skip(3) =~= hay@.skip(i as int + 3));
                assert((prev + rep@) + subst_marker(hay@.skip(i as int + 3), rep@) =~= prev + (rep@
                    + subst_marker(hay@.skip(i as int + 3), rep@)));
            }
            i += 3;
        } else {
            let ghost prev = out@;
            let piece = hay.substring_char(i, i + 1);
            out.append(piece);
            proof {
                reveal_strlit("(x)");
                let ghost tail = hay@.skip(i as int);
                assert(tail.len() >= 3 ==> tail.subrange(0, 3) != "(x)"@) by {
                    if tail.len() >= 3 && tail.subrange(0, 3) == "(x)"@ {
                        assert(tail.subrange(0, 3)[0] == hay@[i as int]);
                        assert(tail.subrange(0, 3)[1] == hay@[i as int + 1]);
                        assert(tail.subrange(0, 3)[2] == hay@[i as int + 2]);
                    }
                }
                assert(tail[0] == hay@[i as int]);
                assert(tail.skip(1) =~= hay@.skip(i as int + 1));
                assert(piece@ =~= seq![hay@[i as int]]);
                assert((prev + piece@) + subst_marker(hay@.skip(i as int + 1), rep@) =~= prev + (
                seq![hay@[i as int]] + subst_marker(hay@.skip(i as int + 1), rep@)));
            }
            i += 1;
        }
    }
    proof {
        assert(hay@.skip(n as int) =~= Seq::<char>::empty());
        assert(out@ + Seq::<char>::empty() =~= out@);
    }
    out
}

impl Function {
    /// The rendered text of the tree; see [`text_of`] for the exact shape
    /// produced at every node.
    pub fn render(&self) -> (r: String)
        ensures
            r@ == text_of(self@),
        decreases *self,
    {
        match self {
            Function::Const(_, text) => {
                let mut out = String::from_str("(");
                out.append(text.as_str());
                out.append(")");
                out
            },
            Function::Id => String::from_str("(x)"),
            Function::Sin => String::from_str("(sin(x))"),
            Function::Cos => String::from_str("(cos(x))"),
            Function::Exp => String::from_str("(exp(x))"),
            Function::Log => String::from_str("(ln(x))"),
            Function::Negation(s) => {
                let mut out = String::from_str("-");
                let inner = (**s).render();
                out.append(inner.as_str());
                out
            },
            Function::Sum(l, r) => {
                let mut out = String::from_str("(");
                let lt = (**l).render();
                out.append(lt.as_str());
                out.append(" + ");
                let rt = (**r).render();
                out.append(rt.as_str());
                out.append(")");
                out
            },
            Function::Difference(l, r) => {
                let mut out = String::from_str("(");
                let lt = (**l).render();
                out.append(lt.as_str());
                out.append(" - ");
                let rt = (**r).render();
                out.append(rt.as_str());
                out.append(")");
                out
            },
            Function::Product(l, r) => {
                let mut out = String::from_str("(");
                let lt = (**l).render();
                out.append(lt.as_str());
                out.append(" * ");
                let rt = (**r).render();
                out.append(rt.as_str());
                out.append(")");
                out
            },
            Function::Quotient(t, b) => {
                let mut out = String::from_str("(");
                let tt = (**t).render();
                out.append(tt.as_str());
                out.append(" / ");
                let bt = (**b).render();
                out.append(bt.as_str());
                out.append(")");
                out
            },
            Function::Composition(s, t) => {
                let st = (**s).render();
                let tt = (**t).render();
                subst(st.as_str(), tt.as_str())
            },
        }
    }
}

} // verus!
