use lazy_eval::eval::{eval, EvalError};
use lazy_eval::ident::Ident;
use lazy_eval::label::{Label, TyPath};
use lazy_eval::num::Rational;
use lazy_eval::term::{BinaryOp, Term, Types, UnaryOp};

fn num(n: i64, d: u64) -> Term {
    Term::Num(Rational::new(n, d))
}

fn plus(t0: Term, t1: Term) -> Term {
    Term::Op2(BinaryOp::Plus(), Box::new(t0), Box::new(t1))
}

fn sample_label(tag: &str) -> Label {
    Label {
        tag: tag.to_string(),
        l: 3,
        r: 7,
        polarity: true,
        path: TyPath::Domain(Box::new(TyPath::Nil())),
    }
}

#[test]
fn plus_rejects_non_numeric_first_operand() {
    let t = plus(Term::Bool(true), num(1, 1));
    assert_eq!(
        Err(EvalError::TypeError(
            "plus expects a number as its first operand".to_string()
        )),
        eval(t)
    );
}

#[test]
fn plus_rejects_non_numeric_second_operand() {
    let t = plus(num(1, 1), Term::Bool(true));
    assert_eq!(
        Err(EvalError::TypeError(
            "plus expects a number as its second operand".to_string()
        )),
        eval(t)
    );
}

#[test]
fn plus_reports_unrepresentable_sum() {
    let t = plus(num(i64::MAX, 1), num(1, 1));
    assert_eq!(
        Err(EvalError::TypeError(
            "plus overflowed: the exact sum is not representable".to_string()
        )),
        eval(t)
    );
}

#[test]
fn conditional_rejects_non_boolean_condition() {
    let t = Term::App(
        Box::new(Term::App(
            Box::new(Term::Op1(UnaryOp::Ite(), Box::new(num(1, 1)))),
            Box::new(num(2, 1)),
        )),
        Box::new(num(3, 1)),
    );
    assert_eq!(
        Err(EvalError::TypeError(
            "the conditional expects a boolean condition".to_string()
        )),
        eval(t)
    );
}

#[test]
fn conditional_requires_both_branches() {
    let t = Term::Op1(UnaryOp::Ite(), Box::new(Term::Bool(true)));
    assert_eq!(
        Err(EvalError::TypeError(
            "the conditional expects two pending branch arguments".to_string()
        )),
        eval(t)
    );
}

#[test]
fn is_zero_rejects_non_number() {
    let t = Term::Op1(UnaryOp::IsZero(), Box::new(Term::Bool(false)));
    assert_eq!(
        Err(EvalError::TypeError("isZero expects a number".to_string())),
        eval(t)
    );
}

#[test]
fn blame_rejects_non_label() {
    let t = Term::Op1(UnaryOp::Blame(), Box::new(num(1, 1)));
    assert_eq!(
        Err(EvalError::TypeError("blame expects a label".to_string())),
        eval(t)
    );
}

#[test]
fn promise_returns_conforming_value() {
    let t = Term::Promise(Types::Num(), sample_label("num-site"), Box::new(num(5, 1)));
    assert_eq!(Ok(num(5, 1)), eval(t));
}

#[test]
fn promise_blames_its_label_on_violation() {
    let label = sample_label("num-site");
    let t = Term::Promise(Types::Num(), label.clone(), Box::new(Term::Bool(true)));
    assert_eq!(Err(EvalError::BlameError(label)), eval(t));
}

#[test]
fn assume_behaves_like_promise() {
    let accepted = Term::Assume(Types::Dyn(), sample_label("dyn-site"), Box::new(num(9, 2)));
    assert_eq!(Ok(num(9, 2)), eval(accepted));

    let label = sample_label("bool-site");
    let rejected = Term::Assume(Types::Bool(), label.clone(), Box::new(num(9, 2)));
    assert_eq!(Err(EvalError::BlameError(label)), eval(rejected));
}

#[test]
fn arrow_contract_checks_for_a_function() {
    let lambda = Term::Fun(Ident::Named("x".to_string()), Box::new(num(1, 1)));
    let ty = Types::Arrow(Box::new(Types::Num()), Box::new(Types::Num()));
    let t = Term::Promise(ty, sample_label("arrow-site"), Box::new(lambda.clone()));
    assert_eq!(Ok(lambda), eval(t));
}

#[test]
fn rational_addition_is_exact() {
    // 1/3 + 1/6 carries the common denominator: 9/18.
    let t = plus(num(1, 3), num(1, 6));
    assert_eq!(Ok(num(9, 18)), eval(t));
}
