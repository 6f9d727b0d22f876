use vstd::prelude::*;

use std::rc::Rc;

use crate::env::{lookup_spec, Environment};
use crate::eval::{Closure, EvalError};
use crate::ident::Ident;
use crate::label::Label;
use crate::num::{rat_sum, sum_fits};
use crate::stack::{Marker, OperationCont};
use crate::term::{contract_of, BinaryOp, Term, UnaryOp};

verus! {

/// The evaluator's whole state: the closure under reduction, the control
/// stack, and the store of thunk slots (update markers and environment
/// entries index into the store).
pub struct MachineState {
    pub clos: Closure,
    pub stack: Seq<Marker>,
    pub thunks: Seq<Closure>,
}

/// A failure, with any description held as a character sequence.
pub enum Failure {
    Blame(Label),
    TypeMismatch(Seq<char>),
    Unbound(Ident),
}

/// The result of one machine transition.
pub enum Outcome {
    /// The machine keeps running from this state.
    Run(MachineState),
    /// Evaluation halted: this term is the final weak-head normal form.
    Done(Term),
    /// Evaluation aborted with this failure.
    Fail(Failure),
}

/// The result of resolving one operation continuation against the value
/// closure that completed: either the next closure to run together with the
/// stack left behind, or a failure.
pub enum ContOutcome {
    Go(Closure, Seq<Marker>),
    Abort(Failure),
}

/// How an executable error reports a machine-level failure: labels and
/// identifiers are carried verbatim, a description by its characters.
pub open spec fn err_corresponds(e: EvalError, f: Failure) -> bool {
    match (e, f) {
        (EvalError::BlameError(l), Failure::Blame(l2)) => l == l2,
        (EvalError::TypeError(s), Failure::TypeMismatch(m)) => s@ == m,
        (EvalError::UnboundIdentifier(x), Failure::Unbound(y)) => x == y,
        _ => false,
    }
}

pub open spec fn msg_ite_condition() -> Seq<char> {
    "the conditional expects a boolean condition"@
}

pub open spec fn msg_ite_branches() -> Seq<char> {
    "the conditional expects two pending branch arguments"@
}

pub open spec fn msg_is_zero_operand() -> Seq<char> {
    "isZero expects a number"@
}

pub open spec fn msg_blame_operand() -> Seq<char> {
    "blame expects a label"@
}

pub open spec fn msg_plus_first() -> Seq<char> {
    "plus expects a number as its first operand"@
}

pub open spec fn msg_plus_second() -> Seq<char> {
    "plus expects a number as its second operand"@
}

pub open spec fn msg_plus_range() -> Seq<char> {
    "plus overflowed: the exact sum is not representable"@
}

/// Which term shapes the variable rule recognizes as already forced, so that
/// no update marker would be needed. No shape is currently recognized: the
/// machine queues a marker for every forced binding, and the redundant
/// overwrite of an already-final slot is idempotent and harmless.
pub open spec fn recognized_value(t: Term) -> bool {
    false
}

/// Applying a unary operator to the value closure that completed.
/// The conditional consumes its two branches from the pending arguments.
pub open spec fn unary_step(op: UnaryOp, clos: Closure, stack: Seq<Marker>) -> ContOutcome {
    match op {
        UnaryOp::Ite() => match clos.body {
            Term::Bool(b) => if stack.len() >= 2 && (stack[stack.len() - 1] is Arg)
                && (stack[stack.len() - 2] is Arg) {
                ContOutcome::Go(
                    if b {
                        stack[stack.len() - 1]->Arg_0
                    } else {
                        stack[stack.len() - 2]->Arg_0
                    },
                    stack.drop_last().drop_last(),
                )
            } else {
                ContOutcome::Abort(Failure::TypeMismatch(msg_ite_branches()))
            },
            _ => ContOutcome::Abort(Failure::TypeMismatch(msg_ite_condition())),
        },
        UnaryOp::IsZero() => match clos.body {
            Term::Num(n) => ContOutcome::Go(
                Closure { body: Term::Bool(n.is_zero_spec()), env: Environment::Empty },
                stack,
            ),
            _ => ContOutcome::Abort(Failure::TypeMismatch(msg_is_zero_operand())),
        },
        UnaryOp::IsNum() => ContOutcome::Go(
            Closure { body: Term::Bool(clos.body is Num), env: Environment::Empty },
            stack,
        ),
        UnaryOp::IsBool() => ContOutcome::Go(
            Closure { body: Term::Bool(clos.body is Bool), env: Environment::Empty },
            stack,
        ),
        UnaryOp::IsFun() => ContOutcome::Go(
            Closure { body: Term::Bool(clos.body is Fun), env: Environment::Empty },
            stack,
        ),
        UnaryOp::Blame() => match clos.body {
            Term::Lbl(l) => ContOutcome::Abort(Failure::Blame(l)),
            _ => ContOutcome::Abort(Failure::TypeMismatch(msg_blame_operand())),
        },
    }
}

/// Applying a binary operator once both operand values are in.
pub open spec fn binary_step(
    op: BinaryOp,
    fst: Closure,
    snd: Closure,
    stack: Seq<Marker>,
) -> ContOutcome {
    match op {
        BinaryOp::Plus() => match fst.body {
            Term::Num(a) => match snd.body {
                Term::Num(b) => if sum_fits(a, b) {
                    ContOutcome::Go(
                        Closure { body: Term::Num(rat_sum(a, b)), env: Environment::Empty },
                        stack,
                    )
                } else {
                    ContOutcome::Abort(Failure::TypeMismatch(msg_plus_range()))
                },
                _ => ContOutcome::Abort(Failure::TypeMismatch(msg_plus_second())),
            },
            _ => ContOutcome::Abort(Failure::TypeMismatch(msg_plus_first())),
        },
    }
}

/// Resolving one popped continuation frame against the value closure that
/// completed. When the first operand of a binary operator completes, the
/// saved second operand starts evaluating under a follow-on continuation.
pub open spec fn cont_step(k: OperationCont, clos: Closure, stack: Seq<Marker>) -> ContOutcome {
    match k {
        OperationCont::Op1(op) => unary_step(op, clos, stack),
        OperationCont::Op2First(op, snd) => ContOutcome::Go(
            snd,
            stack.push(Marker::Cont(OperationCont::Op2Second(op, clos))),
        ),
        OperationCont::Op2Second(op, fst) => binary_step(op, fst, clos, stack),
    }
}

/// The transition taken when the current closure is already in weak-head
/// normal form (a function literal or a terminal). The draining priority is
/// fixed: update markers first, then continuations, then function calls,
/// then halt — reordering it would change when memoization writes become
/// visible to aliases.
pub open spec fn whnf_step(s: MachineState) -> Outcome {
    if s.stack.len() == 0 {
        Outcome::Done(s.clos.body)
    } else {
        match s.stack.last() {
            Marker::Thunk(i) => Outcome::Run(
                MachineState {
                    clos: s.clos,
                    stack: s.stack.drop_last(),
                    thunks: if i < s.thunks.len() {
                        s.thunks.update(i as int, s.clos)
                    } else {
                        s.thunks
                    },
                },
            ),
            Marker::Cont(k) => match cont_step(k, s.clos, s.stack.drop_last()) {
                ContOutcome::Go(c2, st2) => Outcome::Run(
                    MachineState { clos: c2, stack: st2, thunks: s.thunks },
                ),
                ContOutcome::Abort(f) => Outcome::Fail(f),
            },
            Marker::Arg(a) => match s.clos.body {
                Term::Fun(x, t) => Outcome::Run(
                    MachineState {
                        clos: Closure {
                            body: *t,
                            env: Environment::Entry(
                                x,
                                s.thunks.len() as usize,
                                Rc::new(s.clos.env),
                            ),
                        },
                        stack: s.stack.drop_last(),
                        thunks: s.thunks.push(a),
                    },
                ),
                _ => Outcome::Done(s.clos.body),
            },
        }
    }
}

/// One transition of the machine: the first matching rule, in the fixed
/// priority order, applied to the current state. Total: every state steps,
/// halts, or fails.
pub open spec fn step(s: MachineState) -> Outcome {
    match s.clos.body {
        Term::Var(x) => match lookup_spec(s.clos.env, x) {
            Some(i) => if i < s.thunks.len() {
                Outcome::Run(
                    MachineState {
                        clos: s.thunks[i as int],
                        stack: if recognized_value(s.thunks[i as int].body) {
                            s.stack
                        } else {
                            s.stack.push(Marker::Thunk(i))
                        },
                        thunks: s.thunks,
                    },
                )
            } else {
                Outcome::Fail(Failure::Unbound(x))
            },
            None => Outcome::Fail(Failure::Unbound(x)),
        },
        Term::App(t1, t2) => Outcome::Run(
            MachineState {
                clos: Closure { body: *t1, env: s.clos.env },
                stack: s.stack.push(Marker::Arg(Closure { body: *t2, env: s.clos.env })),
                thunks: s.thunks,
            },
        ),
        Term::Let(x, bound, t) => Outcome::Run(
            MachineState {
                clos: Closure {
                    body: *t,
                    env: Environment::Entry(x, s.thunks.len() as usize, Rc::new(s.clos.env)),
                },
                stack: s.stack,
                thunks: s.thunks.push(Closure { body: *bound, env: s.clos.env }),
            },
        ),
        Term::Op1(op, t) => Outcome::Run(
            MachineState {
                clos: Closure { body: *t, env: s.clos.env },
                stack: s.stack.push(Marker::Cont(OperationCont::Op1(op))),
                thunks: s.thunks,
            },
        ),
        Term::Op2(op, fst, snd) => Outcome::Run(
            MachineState {
                clos: Closure { body: *fst, env: s.clos.env },
                stack: s.stack.push(
                    Marker::Cont(
                        OperationCont::Op2First(op, Closure { body: *snd, env: s.clos.env }),
                    ),
                ),
                thunks: s.thunks,
            },
        ),
        Term::Promise(ty, l, t) => Outcome::Run(
            MachineState {
                clos: Closure { body: contract_of(ty), env: s.clos.env },
                stack: s.stack.push(Marker::Arg(Closure { body: *t, env: s.clos.env })).push(
                    Marker::Arg(Closure { body: Term::Lbl(l), env: Environment::Empty }),
                ),
                thunks: s.thunks,
            },
        ),
        Term::Assume(ty, l, t) => Outcome::Run(
            MachineState {
                clos: Closure { body: contract_of(ty), env: s.clos.env },
                stack: s.stack.push(Marker::Arg(Closure { body: *t, env: s.clos.env })).push(
                    Marker::Arg(Closure { body: Term::Lbl(l), env: Environment::Empty }),
                ),
                thunks: s.thunks,
            },
        ),
        _ => whnf_step(s),
    }
}

/// The machine iterated for `n` transitions (or fewer, if it halts or fails
/// first; a halt or failure is final).
pub open spec fn run(s: MachineState, n: nat) -> Outcome
    decreases n,
{
    if n == 0 {
        Outcome::Run(s)
    } else {
        match step(s) {
            Outcome::Run(s2) => run(s2, (n - 1) as nat),
            o => o,
        }
    }
}

/// The starting state for a whole program: the term under the empty
/// environment, with an empty stack and an empty store.
pub open spec fn init_conf(t: Term) -> MachineState {
    MachineState {
        clos: Closure { body: t, env: Environment::Empty },
        stack: Seq::empty(),
        thunks: Seq::empty(),
    }
}

/// The machine, started at `s`, is at `o` after some number of transitions.
pub open spec fn reaches(s: MachineState, o: Outcome) -> bool {
    exists|n: nat| run(s, n) == o
}

/// How many transitions one `eval` call will run before giving up. Verified
/// code must provably terminate, so the evaluator cannot loop unboundedly;
/// at one transition per nanosecond this budget lasts several centuries, so
/// exhausting it means for every practical purpose that the term diverges.
pub open spec fn step_budget() -> nat {
    0xffff_ffff_ffff_ffff as nat
}

/// What `eval` promises of its result: the transition system, started on the
/// given term, reaches exactly this outcome — or, for the budget error
/// alone, is still running after the whole step budget. Together with
/// `lemma_outcome_unique` this pins the result completely.
pub open spec fn evaluates_to(t: Term, r: Result<Term, EvalError>) -> bool {
    match r {
        Ok(v) => reaches(init_conf(t), Outcome::Done(v)),
        Err(e) => if e is StepBudgetExhausted {
            run(init_conf(t), step_budget()) is Run
        } else {
            exists|f: Failure|
                reaches(init_conf(t), Outcome::Fail(f)) && #[trigger] err_corresponds(e, f)
        },
    }
}

/// Running one transition longer continues from wherever `n` transitions
/// ended.
pub proof fn lemma_run_succ(s: MachineState, n: nat)
    ensures
        run(s, n + 1) == (match run(s, n) {
            Outcome::Run(m) => step(m),
            o => o,
        }),
    decreases n,
{
    if n == 0 {
        assert(run(s, 0) == Outcome::Run(s));
        match step(s) {
            Outcome::Run(s2) => {
                assert(run(s2, 0) == Outcome::Run(s2));
            },
            _ => {},
        }
    } else {
        match step(s) {
            Outcome::Run(s2) => {
                lemma_run_succ(s2, (n - 1) as nat);
                assert(run(s, n + 1) == run(s2, n));
                assert(run(s, n) == run(s2, (n - 1) as nat));
            },
            _ => {},
        }
    }
}

/// A halt or a failure is stable: running longer does not change it.
pub proof fn lemma_halted_stays(s: MachineState, n: nat, m: nat)
    requires
        n <= m,
        !(run(s, n) is Run),
    ensures
        run(s, m) == run(s, n),
    decreases n,
{
    if n == 0 {
        assert(run(s, 0) == Outcome::Run(s));
    } else {
        match step(s) {
            Outcome::Run(s2) => {
                lemma_halted_stays(s2, (n - 1) as nat, (m - 1) as nat);
            },
            _ => {},
        }
    }
}

/// The machine is deterministic: it reaches at most one final outcome from
/// any starting state.
pub proof fn lemma_outcome_unique(s: MachineState, o1: Outcome, o2: Outcome)
    requires
        reaches(s, o1),
        reaches(s, o2),
        !(o1 is Run),
        !(o2 is Run),
    ensures
        o1 == o2,
{
    let n1 = choose|n: nat| run(s, n) == o1;
    let n2 = choose|n: nat| run(s, n) == o2;
    if n1 <= n2 {
        lemma_halted_stays(s, n1, n2);
    } else {
        lemma_halted_stays(s, n2, n1);
    }
}

} // verus!
