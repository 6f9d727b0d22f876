use vstd::prelude::*;

use crate::env::Environment;
use crate::ident::Ident;
use crate::label::Label;
use crate::machine::{
    cont_step, err_corresponds, evaluates_to, init_conf, lemma_run_succ, recognized_value, run,
    step, ContOutcome, Failure, MachineState, Outcome,
};
use crate::operation::continuate_operation;
use crate::stack::{OperationCont, Stack};
use crate::term::Term;

verus! {

/// A term paired with the bindings needed to evaluate it.
#[derive(Debug)]
pub struct Closure {
    pub body: Term,
    pub env: Environment,
}

impl Closure {
    /// A closure with no free variables: the term under the empty environment.
    pub fn atomic_closure(body: Term) -> (r: Closure)
        ensures
            r == (Closure { body, env: Environment::Empty }),
    {
        Closure { body, env: Environment::Empty }
    }
}

impl Clone for Closure {
    /// A copy equal to the original.
    fn clone(&self) -> (r: Self)
        ensures
            r == *self,
    {
        Closure { body: self.body.clone(), env: self.env.clone() }
    }
}

/// Why an evaluation failed. Each failure is fatal: the whole in-progress
/// machine state is discarded and nothing is retried.
#[derive(Clone, Debug, PartialEq, Eq)]
pub enum EvalError {
    /// A contract obligation was violated; carries the label of the
    /// offending contract site.
    BlameError(Label),
    /// A primitive operation received an operand of the wrong shape;
    /// carries a human-readable description.
    TypeError(String),
    /// A variable was referenced that no enclosing binding introduces.
    /// Surfaced as a typed error rather than aborting the process.
    UnboundIdentifier(Ident),
    /// The machine ran for its whole step budget (see `step_budget`) without
    /// reaching a result. Verified code must provably terminate, so the
    /// evaluator cannot loop unboundedly; the budget is far beyond any
    /// computation that could finish in a lifetime, so this error means for
    /// every practical purpose that the term diverges.
    StepBudgetExhausted,
}

/// Which term shapes the variable rule treats as already forced, deciding
/// `recognized_value`. None is recognized: a marker is queued for every
/// forced binding, and the redundant overwrite of an already-final slot is
/// idempotent and harmless.
fn is_value(term: &Term) -> (r: bool)
    ensures
        r == recognized_value(*term),
{
    false
}

/// Reduces a term, under an empty initial environment, to weak-head normal
/// form, or fails with a typed error.
///
/// The contract pins the result to the transition system: the machine of
/// `step`, started on this term, reaches exactly the returned outcome
/// (`lemma_outcome_unique` rules out any other). Evaluation of a term with
/// no weak-head normal form does not return.
pub fn eval(t0: Term) -> (r: Result<Term, EvalError>)
    ensures
        evaluates_to(t0, r),
{
    let mut clos = Closure { body: t0, env: Environment::empty() };
    let mut stack = Stack::new();
    let mut thunks: Vec<Closure> = Vec::new();
    let mut fuel: u64 = u64::MAX;
    proof {
        assert(run(init_conf(t0), 0) == Outcome::Run(init_conf(t0)));
    }
    loop
        invariant
            run(init_conf(t0), (u64::MAX - fuel) as nat) == Outcome::Run(
                MachineState { clos: clos, stack: stack@, thunks: thunks@ },
            ),
        decreases fuel,
    {
        let ghost pre = MachineState { clos: clos, stack: stack@, thunks: thunks@ };
        let ghost taken = (u64::MAX - fuel) as nat;
        if fuel == 0 {
            return Err(EvalError::StepBudgetExhausted);
        }
        fuel = fuel - 1;
        proof {
            lemma_run_succ(init_conf(t0), taken);
            assert((u64::MAX - fuel) as nat == taken + 1);
            assert(run(init_conf(t0), taken + 1) == step(pre));
        }
        match clos {
            // Variable: force the bound thunk, queueing an update marker so
            // that the value is written back for every alias.
            Closure { body: Term::Var(x), env } => {
                let slot = env.lookup(&x);
                match slot {
                    Some(i) if i < thunks.len() => {
                        let c = thunks[i].clone();
                        if !is_value(&c.body) {
                            stack.push_thunk(i);
                        }
                        clos = c;
                        proof {
                            assert(step(pre) == Outcome::Run(
                                MachineState { clos: clos, stack: stack@, thunks: thunks@ },
                            ));
                        }
                    },
                    _ => {
                        proof {
                            assert(run(init_conf(t0), taken + 1) == Outcome::Fail(
                                Failure::Unbound(x),
                            ));
                            assert(err_corresponds(
                                EvalError::UnboundIdentifier(x),
                                Failure::Unbound(x),
                            ));
                        }
                        return Err(EvalError::UnboundIdentifier(x));
                    },
                }
            },
            // Application: save the unevaluated argument, reduce the head.
            Closure { body: Term::App(t1, t2), env } => {
                stack.push_arg(Closure { body: *t2, env: env.clone() });
                clos = Closure { body: *t1, env };
                proof {
                    assert(step(pre) == Outcome::Run(
                        MachineState { clos: clos, stack: stack@, thunks: thunks@ },
                    ));
                }
            },
            // Let: suspend the bound term in a fresh store slot under the
            // pre-extension environment (the binding is not recursive).
            Closure { body: Term::Let(x, bound, t), env } => {
                let i = thunks.len();
                thunks.push(Closure { body: *bound, env: env.clone() });
                clos = Closure { body: *t, env: env.extended(x, i) };
                proof {
                    assert(step(pre) == Outcome::Run(
                        MachineState { clos: clos, stack: stack@, thunks: thunks@ },
                    ));
                }
            },
            // Unary operation: remember the operator, reduce the operand.
            Closure { body: Term::Op1(op, t), env } => {
                stack.push_op_cont(OperationCont::Op1(op));
                clos = Closure { body: *t, env };
                proof {
                    assert(step(pre) == Outcome::Run(
                        MachineState { clos: clos, stack: stack@, thunks: thunks@ },
                    ));
                }
            },
            // Binary operation: keep the second operand closed over the
            // current environment, reduce the first.
            Closure { body: Term::Op2(op, fst, snd), env } => {
                stack.push_op_cont(
                    OperationCont::Op2First(op, Closure { body: *snd, env: env.clone() }),
                );
                clos = Closure { body: *fst, env };
                proof {
                    assert(step(pre) == Outcome::Run(
                        MachineState { clos: clos, stack: stack@, thunks: thunks@ },
                    ));
                }
            },
            // Promise: apply the type's contract to the label and then to the
            // wrapped term, by ordinary call reduction.
            Closure { body: Term::Promise(ty, l, t), env } => {
                stack.push_arg(Closure { body: *t, env: env.clone() });
                stack.push_arg(Closure::atomic_closure(Term::Lbl(l)));
                clos = Closure { body: ty.contract(), env };
                proof {
                    assert(step(pre) == Outcome::Run(
                        MachineState { clos: clos, stack: stack@, thunks: thunks@ },
                    ));
                }
            },
            // Assume: identical machine behaviour to Promise.
            Closure { body: Term::Assume(ty, l, t), env } => {
                stack.push_arg(Closure { body: *t, env: env.clone() });
                stack.push_arg(Closure::atomic_closure(Term::Lbl(l)));
                clos = Closure { body: ty.contract(), env };
                proof {
                    assert(step(pre) == Outcome::Run(
                        MachineState { clos: clos, stack: stack@, thunks: thunks@ },
                    ));
                }
            },
            // The current closure is in weak-head normal form: drain one
            // update marker, else resolve one continuation, else bind one
            // pending argument (function literals only), else halt.
            cur => {
                match stack.pop_thunk() {
                    Some(i) => {
                        if i < thunks.len() {
                            thunks[i] = cur.clone();
                        }
                        clos = cur;
                        proof {
                            assert(step(pre) == Outcome::Run(
                                MachineState { clos: clos, stack: stack@, thunks: thunks@ },
                            ));
                        }
                    },
                    None => {
                        match stack.pop_op_cont() {
                            Some(k) => {
                                let ghost kk = k;
                                match continuate_operation(k, cur, &mut stack) {
                                    Ok(c2) => {
                                        clos = c2;
                                        proof {
                                            assert(step(pre) == Outcome::Run(
                                                MachineState {
                                                    clos: clos,
                                                    stack: stack@,
                                                    thunks: thunks@,
                                                },
                                            ));
                                        }
                                    },
                                    Err(e) => {
                                        proof {
                                            match cont_step(
                                                kk,
                                                pre.clos,
                                                pre.stack.drop_last(),
                                            ) {
                                                ContOutcome::Abort(f) => {
                                                    assert(run(init_conf(t0), taken + 1)
                                                        == Outcome::Fail(f));
                                                    assert(err_corresponds(e, f));
                                                },
                                                ContOutcome::Go(c2, st2) => {
                                                    assert(false);
                                                },
                                            }
                                        }
                                        return Err(e);
                                    },
                                }
                            },
                            None => {
                                match cur {
                                    // Function call: bind one pending
                                    // argument, unforced, in the function's
                                    // own captured environment.
                                    Closure { body: Term::Fun(x, t), env } => {
                                        match stack.pop_arg() {
                                            Some(arg) => {
                                                let i = thunks.len();
                                                thunks.push(arg);
                                                clos = Closure {
                                                    body: *t,
                                                    env: env.extended(x, i),
                                                };
                                                proof {
                                                    assert(step(pre) == Outcome::Run(
                                                        MachineState {
                                                            clos: clos,
                                                            stack: stack@,
                                                            thunks: thunks@,
                                                        },
                                                    ));
                                                }
                                            },
                                            None => {
                                                proof {
                                                    assert(run(init_conf(t0), taken + 1)
                                                        == Outcome::Done(pre.clos.body));
                                                }
                                                return Ok(Term::Fun(x, t));
                                            },
                                        }
                                    },
                                    // Terminal: evaluation halts here.
                                    Closure { body: b, env: _ } => {
                                        proof {
                                            assert(run(init_conf(t0), taken + 1)
                                                == Outcome::Done(b));
                                        }
                                        return Ok(b);
                                    },
                                }
                            },
                        }
                    },
                }
            },
        }
    }
}

} // verus!
