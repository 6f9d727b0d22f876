use vstd::prelude::*;

use crate::ident::Ident;
use crate::label::Label;
use crate::num::Rational;

verus! {

/// A unary primitive operator.
#[derive(Clone, Copy, Debug, PartialEq, Eq)]
pub enum UnaryOp {
    /// Conditional: applied to a boolean, then to a then-branch and an
    /// else-branch by ordinary application.
    Ite(),
    IsZero(),
    IsNum(),
    IsBool(),
    IsFun(),
    /// Raises a blame failure carrying the label it is applied to.
    Blame(),
}

/// A binary primitive operator.
#[derive(Clone, Copy, Debug, PartialEq, Eq)]
pub enum BinaryOp {
    Plus(),
}

/// A static type annotation, as written on a `Promise` or `Assume` form.
#[derive(Debug, PartialEq, Eq)]
pub enum Types {
    Dyn(),
    Num(),
    Bool(),
    Arrow(Box<Types>, Box<Types>),
}

/// The abstract syntax the machine dispatches on.
#[derive(Debug, PartialEq, Eq)]
pub enum Term {
    Var(Ident),
    App(Box<Term>, Box<Term>),
    Let(Ident, Box<Term>, Box<Term>),
    Op1(UnaryOp, Box<Term>),
    Op2(BinaryOp, Box<Term>, Box<Term>),
    /// Check the wrapped term against the type's contract, blaming the label
    /// on failure.
    Promise(Types, Label, Box<Term>),
    /// Coerce the wrapped term under the same contract machinery.
    Assume(Types, Label, Box<Term>),
    Fun(Ident, Box<Term>),
    Num(Rational),
    Bool(bool),
    Lbl(Label),
}

impl Clone for Types {
    /// A copy equal to the original.
    fn clone(&self) -> (r: Self)
        ensures
            r == *self,
        decreases self,
    {
        match self {
            Types::Dyn() => Types::Dyn(),
            Types::Num() => Types::Num(),
            Types::Bool() => Types::Bool(),
            Types::Arrow(s, t) => Types::Arrow(Box::new((**s).clone()), Box::new((**t).clone())),
        }
    }
}

impl Clone for Term {
    /// A copy equal to the original.
    fn clone(&self) -> (r: Self)
        ensures
            r == *self,
        decreases self,
    {
        match self {
            Term::Var(x) => Term::Var(x.clone()),
            Term::App(t1, t2) => Term::App(Box::new((**t1).clone()), Box::new((**t2).clone())),
            Term::Let(x, s, t) => Term::Let(
                x.clone(),
                Box::new((**s).clone()),
                Box::new((**t).clone()),
            ),
            Term::Op1(op, t) => Term::Op1(*op, Box::new((**t).clone())),
            Term::Op2(op, t1, t2) => Term::Op2(
                *op,
                Box::new((**t1).clone()),
                Box::new((**t2).clone()),
            ),
            Term::Promise(ty, l, t) => Term::Promise(
                ty.clone(),
                l.clone(),
                Box::new((**t).clone()),
            ),
            Term::Assume(ty, l, t) => Term::Assume(
                ty.clone(),
                l.clone(),
                Box::new((**t).clone()),
            ),
            Term::Fun(x, t) => Term::Fun(x.clone(), Box::new((**t).clone())),
            Term::Num(n) => Term::Num(*n),
            Term::Bool(b) => Term::Bool(*b),
            Term::Lbl(l) => Term::Lbl(l.clone()),
        }
    }
}

/// A contract that accepts a value exactly when `pred` maps it to `true`:
/// `fun label => fun value => if pred value then value else blame label`,
/// written with the reserved contract binders.
pub open spec fn flat_contract(pred: UnaryOp) -> Term {
    Term::Fun(
        Ident::ContractLabel,
        Box::new(
            Term::Fun(
                Ident::ContractValue,
                Box::new(
                    Term::App(
                        Box::new(
                            Term::App(
                                Box::new(
                                    Term::Op1(
                                        UnaryOp::Ite(),
                                        Box::new(
                                            Term::Op1(
                                                pred,
                                                Box::new(Term::Var(Ident::ContractValue)),
                                            ),
                                        ),
                                    ),
                                ),
                                Box::new(Term::Var(Ident::ContractValue)),
                            ),
                        ),
                        Box::new(Term::Op1(UnaryOp::Blame(), Box::new(Term::Var(Ident::ContractLabel)))),
                    ),
                ),
            ),
        ),
    )
}

/// The contract a type annotation expands to. `Dyn` accepts everything;
/// `Num` and `Bool` check the outermost shape; an arrow type is checked only
/// for being a function (the machine performs no higher-order wrapping).
pub open spec fn contract_of(ty: Types) -> Term {
    match ty {
        Types::Dyn() => Term::Fun(
            Ident::ContractLabel,
            Box::new(
                Term::Fun(Ident::ContractValue, Box::new(Term::Var(Ident::ContractValue))),
            ),
        ),
        Types::Num() => flat_contract(UnaryOp::IsNum()),
        Types::Bool() => flat_contract(UnaryOp::IsBool()),
        Types::Arrow(_, _) => flat_contract(UnaryOp::IsFun()),
    }
}

impl Types {
    /// The executable contract term this annotation stands for.
    pub fn contract(&self) -> (r: Term)
        ensures
            r == contract_of(*self),
    {
        match self {
            Types::Dyn() => Term::Fun(
                Ident::ContractLabel,
                Box::new(
                    Term::Fun(Ident::ContractValue, Box::new(Term::Var(Ident::ContractValue))),
                ),
            ),
            Types::Num() => Self::flat(UnaryOp::IsNum()),
            Types::Bool() => Self::flat(UnaryOp::IsBool()),
            Types::Arrow(_, _) => Self::flat(UnaryOp::IsFun()),
        }
    }

    /// Builds `flat_contract(pred)`.
    fn flat(pred: UnaryOp) -> (r: Term)
        ensures
            r == flat_contract(pred),
    {
        Term::Fun(
            Ident::ContractLabel,
            Box::new(
                Term::Fun(
                    Ident::ContractValue,
                    Box::new(
                        Term::App(
                            Box::new(
                                Term::App(
                                    Box::new(
                                        Term::Op1(
                                            UnaryOp::Ite(),
                                            Box::new(
                                                Term::Op1(
                                                    pred,
                                                    Box::new(Term::Var(Ident::ContractValue)),
                                                ),
                                            ),
                                        ),
                                    ),
                                    Box::new(Term::Var(Ident::ContractValue)),
                                ),
                            ),
                            Box::new(
                                Term::Op1(
                                    UnaryOp::Blame(),
                                    Box::new(Term::Var(Ident::ContractLabel)),
                                ),
                            ),
                        ),
                    ),
                ),
            ),
        )
    }
}

} // verus!
