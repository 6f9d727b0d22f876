use vstd::prelude::*;

use crate::eval::{Closure, EvalError};
use crate::machine::{binary_step, cont_step, err_corresponds, unary_step, ContOutcome};
use crate::num::rat_add;
use crate::stack::{OperationCont, Stack};
use crate::term::{BinaryOp, Term, UnaryOp};

verus! {

/// Resolves one popped operation continuation against the value closure that
/// completed, exactly as `cont_step` describes: it returns the next closure
/// to continue with, or fails, and may push further frames (the follow-on
/// continuation that sequences a binary operator's second operand).
pub fn continuate_operation(cont: OperationCont, clos: Closure, stack: &mut Stack) -> (r: Result<
    Closure,
    EvalError,
>)
    ensures
        match r {
            Ok(c2) => cont_step(cont, clos, old(stack)@) == ContOutcome::Go(c2, final(stack)@),
            Err(e) => cont_step(cont, clos, old(stack)@) matches ContOutcome::Abort(f)
                && err_corresponds(e, f),
        },
{
    match cont {
        OperationCont::Op1(op) => process_unary_operation(op, clos, stack),
        OperationCont::Op2First(op, snd) => {
            stack.push_op_cont(OperationCont::Op2Second(op, clos));
            Ok(snd)
        },
        OperationCont::Op2Second(op, fst) => process_binary_operation(op, fst, clos, stack),
    }
}

/// Applies a unary operator to its evaluated operand, as `unary_step`
/// describes. The conditional consumes its two branches from the pending
/// arguments on the stack.
fn process_unary_operation(op: UnaryOp, clos: Closure, stack: &mut Stack) -> (r: Result<
    Closure,
    EvalError,
>)
    ensures
        match r {
            Ok(c2) => unary_step(op, clos, old(stack)@) == ContOutcome::Go(c2, final(stack)@),
            Err(e) => unary_step(op, clos, old(stack)@) matches ContOutcome::Abort(f)
                && err_corresponds(e, f),
        },
{
    match op {
        UnaryOp::Ite() => match clos.body {
            Term::Bool(b) => match stack.pop_arg() {
                Some(thn) => match stack.pop_arg() {
                    Some(els) => Ok(if b { thn } else { els }),
                    None => Err(
                        EvalError::TypeError(
                            "the conditional expects two pending branch arguments".to_owned(),
                        ),
                    ),
                },
                None => Err(
                    EvalError::TypeError(
                        "the conditional expects two pending branch arguments".to_owned(),
                    ),
                ),
            },
            _ => Err(
                EvalError::TypeError("the conditional expects a boolean condition".to_owned()),
            ),
        },
        UnaryOp::IsZero() => match clos.body {
            Term::Num(n) => Ok(Closure::atomic_closure(Term::Bool(n.is_zero()))),
            _ => Err(EvalError::TypeError("isZero expects a number".to_owned())),
        },
        UnaryOp::IsNum() => {
            let b = matches!(clos.body, Term::Num(_));
            Ok(Closure::atomic_closure(Term::Bool(b)))
        },
        UnaryOp::IsBool() => {
            let b = matches!(clos.body, Term::Bool(_));
            Ok(Closure::atomic_closure(Term::Bool(b)))
        },
        UnaryOp::IsFun() => {
            let b = matches!(clos.body, Term::Fun(_, _));
            Ok(Closure::atomic_closure(Term::Bool(b)))
        },
        UnaryOp::Blame() => match clos.body {
            Term::Lbl(l) => Err(EvalError::BlameError(l)),
            _ => Err(EvalError::TypeError("blame expects a label".to_owned())),
        },
    }
}

/// Applies a binary operator once both operand values are in, as
/// `binary_step` describes.
fn process_binary_operation(
    op: BinaryOp,
    fst_clos: Closure,
    snd_clos: Closure,
    stack: &mut Stack,
) -> (r: Result<Closure, EvalError>)
    ensures
        match r {
            Ok(c2) => binary_step(op, fst_clos, snd_clos, old(stack)@) == ContOutcome::Go(
                c2,
                final(stack)@,
            ),
            Err(e) => binary_step(op, fst_clos, snd_clos, old(stack)@) matches ContOutcome::Abort(
                f,
            ) && err_corresponds(e, f),
        },
{
    match op {
        BinaryOp::Plus() => match fst_clos.body {
            Term::Num(a) => match snd_clos.body {
                Term::Num(b) => match rat_add(&a, &b) {
                    Some(c) => Ok(Closure::atomic_closure(Term::Num(c))),
                    None => Err(
                        EvalError::TypeError(
                            "plus overflowed: the exact sum is not representable".to_owned(),
                        ),
                    ),
                },
                _ => Err(
                    EvalError::TypeError(
                        "plus expects a number as its second operand".to_owned(),
                    ),
                ),
            },
            _ => Err(
                EvalError::TypeError("plus expects a number as its first operand".to_owned()),
            ),
        },
    }
}

} // verus!
