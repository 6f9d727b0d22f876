use lazy_eval::eval::{eval, EvalError};
use lazy_eval::ident::Ident;
use lazy_eval::label::{Label, TyPath};
use lazy_eval::num::Rational;
use lazy_eval::term::{BinaryOp, Term, UnaryOp};

fn app(t0: Term, t1: Term) -> Term {
    Term::App(Box::new(t0), Box::new(t1))
}

fn var(id: &str) -> Term {
    Term::Var(Ident::Named(id.to_string()))
}

fn let_in(id: &str, e: Term, t: Term) -> Term {
    Term::Let(Ident::Named(id.to_string()), Box::new(e), Box::new(t))
}

fn ite(c: Term, t: Term, e: Term) -> Term {
    app(app(Term::Op1(UnaryOp::Ite(), Box::new(c)), t), e)
}

fn plus(t0: Term, t1: Term) -> Term {
    Term::Op2(BinaryOp::Plus(), Box::new(t0), Box::new(t1))
}

fn num(n: i64, d: u64) -> Term {
    Term::Num(Rational::new(n, d))
}

#[test]
fn identity_over_values() {
    // 45.3, as the exact fraction 453/10.
    let number = num(453, 10);
    assert_eq!(Ok(number.clone()), eval(number));

    let boolean = Term::Bool(true);
    assert_eq!(Ok(boolean.clone()), eval(boolean));

    let lambda = Term::Fun(
        Ident::Named("x".to_string()),
        Box::new(app(var("x"), var("x"))),
    );
    assert_eq!(Ok(lambda.clone()), eval(lambda));

    let label_value = Term::Lbl(Label {
        tag: "kept".to_string(),
        l: 2,
        r: 9,
        polarity: true,
        path: TyPath::Codomain(Box::new(TyPath::Nil())),
    });
    assert_eq!(Ok(label_value.clone()), eval(label_value));
}

#[test]
fn blame_panics() {
    let label = Label {
        tag: "testing".to_string(),
        l: 0,
        r: 1,
        polarity: false,
        path: TyPath::Nil(),
    };
    assert_eq!(
        Err(EvalError::BlameError(label.clone())),
        eval(Term::Op1(UnaryOp::Blame(), Box::new(Term::Lbl(label))))
    );
}

#[test]
fn lone_var_panics() {
    // An unbound variable is a typed failure naming the identifier, not a
    // process abort.
    assert_eq!(
        Err(EvalError::UnboundIdentifier(Ident::Named(
            "unbound".to_string()
        ))),
        eval(var("unbound"))
    );
}

#[test]
fn simple_app() {
    let t = app(
        Term::Fun(Ident::Named("x".to_string()), Box::new(var("x"))),
        num(5, 1),
    );

    assert_eq!(Ok(num(5, 1)), eval(t));
}

#[test]
fn simple_let() {
    let t = let_in("x", num(5, 1), var("x"));

    assert_eq!(Ok(num(5, 1)), eval(t));
}

#[test]
fn simple_ite() {
    let t = ite(Term::Bool(true), num(5, 1), Term::Bool(false));

    assert_eq!(Ok(num(5, 1)), eval(t));
}

#[test]
fn simple_plus() {
    // 5 + 7.5 = 12.5: 5/1 + 15/2 carries the common denominator, 25/2.
    let t = plus(num(5, 1), num(15, 2));

    assert_eq!(Ok(num(25, 2)), eval(t));
}

#[test]
fn simple_is_zero() {
    let t = Term::Op1(UnaryOp::IsZero(), Box::new(num(7, 1)));

    assert_eq!(Ok(Term::Bool(false)), eval(t));
}

#[test]
fn asking_for_various_types() {
    let number = Term::Op1(UnaryOp::IsNum(), Box::new(num(453, 10)));
    assert_eq!(Ok(Term::Bool(true)), eval(number));

    let boolean = Term::Op1(UnaryOp::IsBool(), Box::new(Term::Bool(true)));
    assert_eq!(Ok(Term::Bool(true)), eval(boolean));

    let lambda = Term::Op1(
        UnaryOp::IsFun(),
        Box::new(Term::Fun(
            Ident::Named("x".to_string()),
            Box::new(app(var("x"), var("x"))),
        )),
    );
    assert_eq!(Ok(Term::Bool(true)), eval(lambda));
}

#[test]
fn is_zero_on_zero() {
    let t = Term::Op1(UnaryOp::IsZero(), Box::new(num(0, 4)));
    assert_eq!(Ok(Term::Bool(true)), eval(t));
}

#[test]
fn shared_binding_forced_through_aliases() {
    // let x = 5 + 2 in let y = x in y + x: both aliases observe the one
    // memoized value of x, and the nested update markers drain in order.
    let t = let_in(
        "x",
        plus(num(5, 1), num(2, 1)),
        let_in("y", var("x"), plus(var("y"), var("x"))),
    );
    assert_eq!(Ok(num(14, 1)), eval(t));
}

#[test]
fn repeated_forcing_is_stable() {
    // let x = 5 in let y = x in y: forcing travels through two thunks and
    // both write-backs leave the value unchanged.
    let t = let_in("x", num(5, 1), let_in("y", var("x"), var("y")));
    assert_eq!(Ok(num(5, 1)), eval(t));
}

#[test]
fn aliased_operands_share_one_evaluation() {
    // let x = 1 + 1 in x + x: the first operand forces x and writes the
    // memoized value back before the continuation resumes, so the second
    // operand reads the cached 2/1.
    let t = let_in(
        "x",
        plus(num(1, 1), num(1, 1)),
        plus(var("x"), var("x")),
    );
    assert_eq!(Ok(num(4, 1)), eval(t));
}

#[test]
fn conditional_picks_else_branch() {
    let t = ite(Term::Bool(false), num(5, 1), Term::Bool(false));
    assert_eq!(Ok(Term::Bool(false)), eval(t));
}
