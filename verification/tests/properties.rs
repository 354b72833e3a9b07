//! Calculus and expansion properties checked at sample points.

use diff_func::Function;
use diff_func::FunctionAdd;
use diff_func::FunctionDiv;
use diff_func::FunctionMul;
use diff_func::FunctionNeg;
use diff_func::FunctionOf;
use diff_func::FunctionSub;

fn eval(f: &Function, x: f64) -> f64 {
    match f {
        Function::Const(bits, _) => f64::from_bits(*bits),
        Function::Id => x,
        Function::Sin => x.sin(),
        Function::Cos => x.cos(),
        Function::Exp => x.exp(),
        Function::Log => x.ln(),
        Function::Negation(s) => -eval(s, x),
        Function::Sum(l, r) => eval(l, x) + eval(r, x),
        Function::Difference(l, r) => eval(l, x) - eval(r, x),
        Function::Product(t, b) => eval(t, x) * eval(b, x),
        Function::Quotient(t, b) => eval(t, x) / eval(b, x),
        Function::Composition(s, t) => eval(s, eval(t, x)),
    }
}

fn constant(c: f64) -> Function {
    Function::Const(c.to_bits(), format!("{}", c))
}

fn close(a: f64, b: f64) -> bool {
    (a - b).abs() < 1e-9
}

#[test]
fn derivative_of_sine_is_cosine() {
    for x in [-2.0, -0.5, 0.0, 0.75, 3.0] {
        let d = Function::Sin.diff();
        assert!(close(eval(&d, x), x.cos()));
    }
}

#[test]
fn derivative_of_constant_is_zero() {
    for x in [-3.5, 0.0, 1.25, 9.0] {
        let d = constant(7.25).diff();
        assert_eq!(eval(&d, x), 0.0);
        let d0 = constant(0.0).diff();
        assert_eq!(eval(&d0, x), 0.0);
    }
}

#[test]
fn derivative_of_identity_is_one() {
    for x in [-3.5, 0.0, 1.25, 9.0] {
        let d = Function::Id.diff();
        assert_eq!(eval(&d, x), 1.0);
    }
}

#[test]
fn product_rule_at_samples() {
    let samples = [-1.5, 0.25, 1.0, 2.5];
    let pairs: [(Function, Function); 3] = [
        (Function::Sin, Function::Id.mul(Function::Id)),
        (Function::Exp, constant(3.0).add(Function::Id)),
        (Function::Cos, Function::Sin),
    ];
    for (f, g) in pairs {
        for x in samples {
            let product = f.duplicate().mul(g.duplicate());
            let lhs = eval(&product.diff(), x);
            let rhs = eval(&f.diff(), x) * eval(&g, x) + eval(&g.diff(), x) * eval(&f, x);
            assert!(close(lhs, rhs));
        }
    }
}

#[test]
fn chain_rule_at_samples() {
    let samples = [-1.0, 0.5, 2.0];
    let pairs: [(Function, Function); 2] = [
        (Function::Sin, Function::Id.mul(Function::Id)),
        (Function::Exp, Function::Cos),
    ];
    for (f, g) in pairs {
        for x in samples {
            let composed = f.duplicate().of(g.duplicate());
            let lhs = eval(&composed.diff(), x);
            let rhs = eval(&f.diff(), eval(&g, x)) * eval(&g.diff(), x);
            assert!(close(lhs, rhs));
        }
    }
}

#[test]
fn quotient_rule_at_samples() {
    let samples = [-1.5, 0.5, 2.0];
    let pairs: [(Function, Function); 2] = [
        (Function::Sin, Function::Exp),
        (constant(1.0).add(Function::Id), Function::Cos),
    ];
    for (f, g) in pairs {
        for x in samples {
            let quotient = f.duplicate().div(g.duplicate());
            let lhs = eval(&quotient.diff(), x);
            let gx = eval(&g, x);
            let rhs = (eval(&f.diff(), x) * gx - eval(&g.diff(), x) * eval(&f, x)) / (gx * gx);
            assert!(close(lhs, rhs));
        }
    }
}

#[test]
fn linear_rules_at_samples() {
    let f = Function::Sin;
    let g = Function::Id.mul(Function::Id);
    for x in [-2.0, 0.25, 1.5] {
        let sum = f.duplicate().add(g.duplicate());
        assert!(close(eval(&sum.diff(), x), eval(&f.diff(), x) + eval(&g.diff(), x)));
        let difference = f.duplicate().sub(g.duplicate());
        assert!(close(eval(&difference.diff(), x), eval(&f.diff(), x) - eval(&g.diff(), x)));
        let negated = f.duplicate().neg();
        assert!(close(eval(&negated.diff(), x), -eval(&f.diff(), x)));
    }
}

#[test]
fn expansion_preserves_value() {
    let sinc = Function::Sin.div(Function::Id);
    let expanded = sinc.expand();
    assert!(close(eval(&sinc, 4.0), 4f64.sin() / 4.0));
    assert!(close(eval(&expanded, 4.0), 4f64.sin() / 4.0));

    let sum_times_sum = constant(2.0).add(Function::Id).mul(
        Function::Sin.add(constant(-1.5)),
    );
    for x in [-2.0, 0.5, 3.25] {
        assert!(close(eval(&sum_times_sum.duplicate().expand(), x), eval(&sum_times_sum, x)));
    }

    let layered = constant(1.0).sub(Function::Id).div(Function::Exp);
    for x in [-1.0, 0.0, 2.5] {
        assert!(close(eval(&layered.duplicate().expand(), x), eval(&layered, x)));
    }

    let layered_comp = Function::Log.of(Function::Exp.of(Function::Sin));
    for x in [-0.5, 0.5, 2.0] {
        assert!(close(eval(&layered_comp.duplicate().expand(), x), eval(&layered_comp, x)));
    }
}

#[test]
fn product_expansion_term_count() {
    // Two additive terms times three: exactly six terms come out.
    let two_terms = constant(1.0).add(Function::Id);
    let three_terms = Function::Sin.add(Function::Cos).add(Function::Exp);
    assert_eq!(two_terms.expand_vec().len(), 2);
    assert_eq!(three_terms.expand_vec().len(), 3);
    let product = two_terms.mul(three_terms);
    assert_eq!(product.expand_vec().len(), 6);
}

#[test]
fn quotient_expands_numerator_only() {
    let top = constant(1.0).add(Function::Id);
    let quotient = top.div(Function::Sin.add(Function::Cos));
    let terms = quotient.expand_vec();
    // Two numerator terms, each kept over the whole unexpanded denominator.
    assert_eq!(terms.len(), 2);
    assert_eq!(terms[0].render(), "((1) / ((sin(x)) + (cos(x))))");
    assert_eq!(terms[1].render(), "((x) / ((sin(x)) + (cos(x))))");
}

#[test]
fn expanded_monomial_is_single_term() {
    let simple = constant(2.0).mul(Function::Id);
    let terms = simple.expand_vec();
    assert_eq!(terms.len(), 1);
    assert_eq!(terms[0].render(), "((2) * (x))");
    let expanded = constant(2.0).mul(Function::Id).expand();
    assert_eq!(expanded.render(), "((2) * (x))");
    assert_eq!(eval(&expanded, 5.0), 10.0);
}
