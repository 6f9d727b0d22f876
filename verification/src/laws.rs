use vstd::prelude::*;

use std::rc::Rc;

use crate::env::{lookup_spec, Environment};
use crate::eval::{Closure, EvalError};
use crate::ident::Ident;
use crate::label::Label;
use crate::machine::{
    err_corresponds, evaluates_to, init_conf, lemma_outcome_unique, msg_plus_range, reaches, run,
    step, Failure, MachineState, Outcome,
};
use crate::num::{rat_sum, sum_fits, Rational};
use crate::stack::{Marker, OperationCont};
use crate::term::{BinaryOp, Term, UnaryOp};

verus! {

/// Weak-head normal form: the outermost constructor is known and the machine
/// decomposes it no further — a function literal or a terminal.
pub open spec fn is_whnf(t: Term) -> bool {
    ||| t is Fun
    ||| t is Num
    ||| t is Bool
    ||| t is Lbl
}

/// Value identity: evaluating a term already in weak-head normal form — a
/// numeral, a boolean, a label, or a function literal awaiting no argument —
/// halts at once with that very term, unchanged.
pub proof fn lemma_value_identity(v: Term)
    requires
        is_whnf(v),
    ensures
        reaches(init_conf(v), Outcome::Done(v)),
{
    let s0 = init_conf(v);
    assert(step(s0) == Outcome::Done(v));
    assert(run(s0, 1) == Outcome::Done(v));
}

/// Unbound variable: a bare reference to an identifier no enclosing binding
/// introduces fails, with the typed unbound-identifier failure naming it.
pub proof fn lemma_unbound_variable(x: Ident)
    ensures
        reaches(init_conf(Term::Var(x)), Outcome::Fail(Failure::Unbound(x))),
        run(init_conf(Term::Var(x)), 1) == Outcome::Fail(Failure::Unbound(x)),
{
    let s0 = init_conf(Term::Var(x));
    assert(lookup_spec(Environment::Empty, x) is None);
    assert(step(s0) == Outcome::Fail(Failure::Unbound(x)));
    assert(run(s0, 1) == Outcome::Fail(Failure::Unbound(x)));
}

/// Blame propagation: applying the blame primitive to a label value fails
/// with a blame failure carrying exactly that label.
pub proof fn lemma_blame_propagation(l: Label)
    ensures
        reaches(
            init_conf(Term::Op1(UnaryOp::Blame(), Box::new(Term::Lbl(l)))),
            Outcome::Fail(Failure::Blame(l)),
        ),
        run(init_conf(Term::Op1(UnaryOp::Blame(), Box::new(Term::Lbl(l)))), 2) == Outcome::Fail(
            Failure::Blame(l),
        ),
{
    let s0 = init_conf(Term::Op1(UnaryOp::Blame(), Box::new(Term::Lbl(l))));
    let s1 = MachineState {
        clos: Closure { body: Term::Lbl(l), env: Environment::Empty },
        stack: Seq::empty().push(Marker::Cont(OperationCont::Op1(UnaryOp::Blame()))),
        thunks: Seq::<Closure>::empty(),
    };
    assert(step(s0) == Outcome::Run(s1));
    assert(s1.stack.drop_last() =~= Seq::<Marker>::empty());
    assert(step(s1) == Outcome::Fail(Failure::Blame(l)));
    assert(run(s1, 1) == Outcome::Fail(Failure::Blame(l)));
    assert(run(s0, 2) == Outcome::Fail(Failure::Blame(l)));
}

/// Beta reduction with sharing: applying the identity function to a value
/// already in weak-head normal form yields that value. The argument is bound
/// unforced in a fresh store slot, forced once, and the memoizing write-back
/// stores the identical closure, leaving the store as it was.
pub proof fn lemma_beta_identity(x: Ident, v: Term)
    requires
        is_whnf(v),
    ensures
        reaches(
            init_conf(
                Term::App(
                    Box::new(Term::Fun(x, Box::new(Term::Var(x)))),
                    Box::new(v),
                ),
            ),
            Outcome::Done(v),
        ),
{
    let t0 = Term::App(Box::new(Term::Fun(x, Box::new(Term::Var(x)))), Box::new(v));
    let s0 = init_conf(t0);
    let arg = Closure { body: v, env: Environment::Empty };
    let s1 = MachineState {
        clos: Closure { body: Term::Fun(x, Box::new(Term::Var(x))), env: Environment::Empty },
        stack: Seq::empty().push(Marker::Arg(arg)),
        thunks: Seq::<Closure>::empty(),
    };
    assert(step(s0) == Outcome::Run(s1));
    let env2 = Environment::Entry(x, 0usize, Rc::new(Environment::Empty));
    let s2 = MachineState {
        clos: Closure { body: Term::Var(x), env: env2 },
        stack: s1.stack.drop_last(),
        thunks: Seq::<Closure>::empty().push(arg),
    };
    assert(step(s1) == Outcome::Run(s2));
    assert(s2.stack =~= Seq::<Marker>::empty());
    assert(lookup_spec(env2, x) == Some(0usize));
    let s3 = MachineState {
        clos: arg,
        stack: s2.stack.push(Marker::Thunk(0usize)),
        thunks: s2.thunks,
    };
    assert(step(s2) == Outcome::Run(s3));
    let s4 = MachineState {
        clos: arg,
        stack: s3.stack.drop_last(),
        thunks: s3.thunks.update(0, arg),
    };
    assert(step(s3) == Outcome::Run(s4));
    assert(s4.stack =~= Seq::<Marker>::empty());
    assert(step(s4) == Outcome::Done(v));
    assert(run(s4, 1) == Outcome::Done(v));
    assert(run(s3, 2) == Outcome::Done(v));
    assert(run(s2, 3) == Outcome::Done(v));
    assert(run(s1, 4) == Outcome::Done(v));
    assert(run(s0, 5) == Outcome::Done(v));
}

/// Let binding with sharing: binding a value already in weak-head normal
/// form and returning the bound variable yields that value; the one
/// memoizing write stores what the slot already holds.
pub proof fn lemma_let_binding(x: Ident, v: Term)
    requires
        is_whnf(v),
    ensures
        reaches(
            init_conf(Term::Let(x, Box::new(v), Box::new(Term::Var(x)))),
            Outcome::Done(v),
        ),
{
    let t0 = Term::Let(x, Box::new(v), Box::new(Term::Var(x)));
    let s0 = init_conf(t0);
    let bound = Closure { body: v, env: Environment::Empty };
    let env1 = Environment::Entry(x, 0usize, Rc::new(Environment::Empty));
    let s1 = MachineState {
        clos: Closure { body: Term::Var(x), env: env1 },
        stack: Seq::<Marker>::empty(),
        thunks: Seq::<Closure>::empty().push(bound),
    };
    assert(step(s0) == Outcome::Run(s1));
    assert(lookup_spec(env1, x) == Some(0usize));
    let s2 = MachineState {
        clos: bound,
        stack: s1.stack.push(Marker::Thunk(0usize)),
        thunks: s1.thunks,
    };
    assert(step(s1) == Outcome::Run(s2));
    let s3 = MachineState {
        clos: bound,
        stack: s2.stack.drop_last(),
        thunks: s2.thunks.update(0, bound),
    };
    assert(step(s2) == Outcome::Run(s3));
    assert(s3.stack =~= Seq::<Marker>::empty());
    assert(step(s3) == Outcome::Done(v));
    assert(run(s3, 1) == Outcome::Done(v));
    assert(run(s2, 2) == Outcome::Done(v));
    assert(run(s1, 3) == Outcome::Done(v));
    assert(run(s0, 4) == Outcome::Done(v));
}

/// Binary primitive: adding two numeric literals yields their exact sum when
/// it is representable, and fails with the overflow description when not.
pub proof fn lemma_plus(a: Rational, b: Rational)
    ensures
        sum_fits(a, b) ==> reaches(
            init_conf(
                Term::Op2(BinaryOp::Plus(), Box::new(Term::Num(a)), Box::new(Term::Num(b))),
            ),
            Outcome::Done(Term::Num(rat_sum(a, b))),
        ),
        !sum_fits(a, b) ==> reaches(
            init_conf(
                Term::Op2(BinaryOp::Plus(), Box::new(Term::Num(a)), Box::new(Term::Num(b))),
            ),
            Outcome::Fail(Failure::TypeMismatch(msg_plus_range())),
        ),
{
    let t0 = Term::Op2(BinaryOp::Plus(), Box::new(Term::Num(a)), Box::new(Term::Num(b)));
    let s0 = init_conf(t0);
    let fst = Closure { body: Term::Num(a), env: Environment::Empty };
    let snd = Closure { body: Term::Num(b), env: Environment::Empty };
    let s1 = MachineState {
        clos: fst,
        stack: Seq::empty().push(Marker::Cont(OperationCont::Op2First(BinaryOp::Plus(), snd))),
        thunks: Seq::<Closure>::empty(),
    };
    assert(step(s0) == Outcome::Run(s1));
    assert(s1.stack.drop_last() =~= Seq::<Marker>::empty());
    let s2 = MachineState {
        clos: snd,
        stack: Seq::<Marker>::empty().push(
            Marker::Cont(OperationCont::Op2Second(BinaryOp::Plus(), fst)),
        ),
        thunks: Seq::<Closure>::empty(),
    };
    assert(step(s1) == Outcome::Run(s2));
    assert(s2.stack.drop_last() =~= Seq::<Marker>::empty());
    if sum_fits(a, b) {
        let s3 = MachineState {
            clos: Closure { body: Term::Num(rat_sum(a, b)), env: Environment::Empty },
            stack: Seq::<Marker>::empty(),
            thunks: Seq::<Closure>::empty(),
        };
        assert(step(s2) == Outcome::Run(s3));
        assert(step(s3) == Outcome::Done(Term::Num(rat_sum(a, b))));
        assert(run(s3, 1) == Outcome::Done(Term::Num(rat_sum(a, b))));
        assert(run(s2, 2) == Outcome::Done(Term::Num(rat_sum(a, b))));
        assert(run(s1, 3) == Outcome::Done(Term::Num(rat_sum(a, b))));
        assert(run(s0, 4) == Outcome::Done(Term::Num(rat_sum(a, b))));
    } else {
        assert(step(s2) == Outcome::Fail(Failure::TypeMismatch(msg_plus_range())));
        assert(run(s2, 1) == Outcome::Fail(Failure::TypeMismatch(msg_plus_range())));
        assert(run(s1, 2) == Outcome::Fail(Failure::TypeMismatch(msg_plus_range())));
        assert(run(s0, 3) == Outcome::Fail(Failure::TypeMismatch(msg_plus_range())));
    }
}

/// Conditional reduction: the conditional primitive applied to a boolean
/// condition and two branches in weak-head normal form yields the branch the
/// condition selects, leaving the other untouched.
pub proof fn lemma_conditional(b: bool, thn: Term, els: Term)
    requires
        is_whnf(thn),
        is_whnf(els),
    ensures
        reaches(
            init_conf(
                Term::App(
                    Box::new(
                        Term::App(
                            Box::new(Term::Op1(UnaryOp::Ite(), Box::new(Term::Bool(b)))),
                            Box::new(thn),
                        ),
                    ),
                    Box::new(els),
                ),
            ),
            Outcome::Done(if b { thn } else { els }),
        ),
{
    let t0 = Term::App(
        Box::new(
            Term::App(
                Box::new(Term::Op1(UnaryOp::Ite(), Box::new(Term::Bool(b)))),
                Box::new(thn),
            ),
        ),
        Box::new(els),
    );
    let s0 = init_conf(t0);
    let els_c = Closure { body: els, env: Environment::Empty };
    let thn_c = Closure { body: thn, env: Environment::Empty };
    let s1 = MachineState {
        clos: Closure {
            body: Term::App(
                Box::new(Term::Op1(UnaryOp::Ite(), Box::new(Term::Bool(b)))),
                Box::new(thn),
            ),
            env: Environment::Empty,
        },
        stack: Seq::empty().push(Marker::Arg(els_c)),
        thunks: Seq::<Closure>::empty(),
    };
    assert(step(s0) == Outcome::Run(s1));
    let s2 = MachineState {
        clos: Closure {
            body: Term::Op1(UnaryOp::Ite(), Box::new(Term::Bool(b))),
            env: Environment::Empty,
        },
        stack: s1.stack.push(Marker::Arg(thn_c)),
        thunks: Seq::<Closure>::empty(),
    };
    assert(step(s1) == Outcome::Run(s2));
    let s3 = MachineState {
        clos: Closure { body: Term::Bool(b), env: Environment::Empty },
        stack: s2.stack.push(Marker::Cont(OperationCont::Op1(UnaryOp::Ite()))),
        thunks: Seq::<Closure>::empty(),
    };
    assert(step(s2) == Outcome::Run(s3));
    assert(s3.stack.drop_last() =~= s2.stack);
    assert(s2.stack.len() == 2);
    assert(s2.stack[1] == Marker::Arg(thn_c));
    assert(s2.stack[0] == Marker::Arg(els_c));
    let chosen = if b {
        thn_c
    } else {
        els_c
    };
    let s4 = MachineState {
        clos: chosen,
        stack: s2.stack.drop_last().drop_last(),
        thunks: Seq::<Closure>::empty(),
    };
    assert(step(s3) == Outcome::Run(s4));
    assert(s4.stack =~= Seq::<Marker>::empty());
    assert(step(s4) == Outcome::Done(if b { thn } else { els }));
    assert(run(s4, 1) == Outcome::Done(if b { thn } else { els }));
    assert(run(s3, 2) == Outcome::Done(if b { thn } else { els }));
    assert(run(s2, 3) == Outcome::Done(if b { thn } else { els }));
    assert(run(s1, 4) == Outcome::Done(if b { thn } else { els }));
    assert(run(s0, 5) == Outcome::Done(if b { thn } else { els }));
}

/// Unary predicates: `isZero` inspects a numeric literal's numerator, and
/// each shape predicate answers whether a value in weak-head normal form has
/// the asked-for outermost constructor.
pub proof fn lemma_unary_predicates(op: UnaryOp, v: Term)
    requires
        is_whnf(v),
    ensures
        op is IsNum ==> reaches(
            init_conf(Term::Op1(op, Box::new(v))),
            Outcome::Done(Term::Bool(v is Num)),
        ),
        op is IsBool ==> reaches(
            init_conf(Term::Op1(op, Box::new(v))),
            Outcome::Done(Term::Bool(v is Bool)),
        ),
        op is IsFun ==> reaches(
            init_conf(Term::Op1(op, Box::new(v))),
            Outcome::Done(Term::Bool(v is Fun)),
        ),
        op is IsZero ==> (v matches Term::Num(n) ==> reaches(
            init_conf(Term::Op1(op, Box::new(v))),
            Outcome::Done(Term::Bool(n.is_zero_spec())),
        )),
{
    if op is IsNum || op is IsBool || op is IsFun || (op is IsZero && v is Num) {
        let s0 = init_conf(Term::Op1(op, Box::new(v)));
        let s1 = MachineState {
            clos: Closure { body: v, env: Environment::Empty },
            stack: Seq::empty().push(Marker::Cont(OperationCont::Op1(op))),
            thunks: Seq::<Closure>::empty(),
        };
        assert(step(s0) == Outcome::Run(s1));
        assert(s1.stack.drop_last() =~= Seq::<Marker>::empty());
        let answer = match op {
            UnaryOp::IsNum() => v is Num,
            UnaryOp::IsBool() => v is Bool,
            UnaryOp::IsFun() => v is Fun,
            _ => (match v {
                Term::Num(n) => n.is_zero_spec(),
                _ => false,
            }),
        };
        let s2 = MachineState {
            clos: Closure { body: Term::Bool(answer), env: Environment::Empty },
            stack: Seq::<Marker>::empty(),
            thunks: Seq::<Closure>::empty(),
        };
        assert(step(s1) == Outcome::Run(s2));
        assert(step(s2) == Outcome::Done(Term::Bool(answer)));
        assert(run(s2, 1) == Outcome::Done(Term::Bool(answer)));
        assert(run(s1, 2) == Outcome::Done(Term::Bool(answer)));
        assert(run(s0, 3) == Outcome::Done(Term::Bool(answer)));
    }
}

/// Sharing invariant: a transition never rewrites an existing store slot
/// with anything but the current closure, and only once that closure's body
/// is in weak-head normal form. A suspended binding is therefore replaced
/// only by its final value, which every alias then reads.
pub proof fn lemma_memo_writes_whnf(s: MachineState, s2: MachineState, j: int)
    requires
        step(s) == Outcome::Run(s2),
        0 <= j < s.thunks.len(),
        j < s2.thunks.len(),
        s2.thunks[j] != s.thunks[j],
    ensures
        s2.thunks[j] == s.clos,
        is_whnf(s.clos.body),
        s.stack.len() > 0 && s.stack.last() == Marker::Thunk(j as usize),
{
    match s.clos.body {
        Term::Var(x) => {},
        Term::App(t1, t2) => {},
        Term::Let(x, bound, t) => {},
        Term::Op1(op, t) => {},
        Term::Op2(op, fst, snd) => {},
        Term::Promise(ty, l, t) => {},
        Term::Assume(ty, l, t) => {},
        _ => {},
    }
}

/// Idempotent update: draining an update marker whose slot already holds the
/// current closure rewrites the slot with what it holds — the store after
/// the transition is the store before it, and later observations of the slot
/// are unchanged.
pub proof fn lemma_idempotent_update(s: MachineState, i: usize)
    requires
        is_whnf(s.clos.body),
        s.stack.len() > 0,
        s.stack.last() == Marker::Thunk(i),
        i < s.thunks.len(),
        s.thunks[i as int] == s.clos,
    ensures
        step(s) == Outcome::Run(
            MachineState { clos: s.clos, stack: s.stack.drop_last(), thunks: s.thunks },
        ),
{
    assert(s.thunks.update(i as int, s.clos) =~= s.thunks);
}

/// Forcing an already-forced binding: when a variable's slot holds a closure
/// whose body is in weak-head normal form, forcing it — under any
/// surrounding stack — reads the cached closure and performs one idempotent
/// write-back: two transitions later the machine holds the cached closure
/// over the same stack and the same store. The suspended computation is not
/// run again, and under an empty stack the cached body is the final result.
pub proof fn lemma_force_cached(
    x: Ident,
    e: Environment,
    stack: Seq<Marker>,
    thunks: Seq<Closure>,
    i: usize,
)
    requires
        lookup_spec(e, x) == Some(i),
        i < thunks.len(),
        is_whnf(thunks[i as int].body),
    ensures
        run(
            MachineState { clos: Closure { body: Term::Var(x), env: e }, stack, thunks },
            2,
        ) == Outcome::Run(MachineState { clos: thunks[i as int], stack, thunks }),
        stack.len() == 0 ==> run(
            MachineState { clos: Closure { body: Term::Var(x), env: e }, stack, thunks },
            3,
        ) == Outcome::Done(thunks[i as int].body),
{
    let c = thunks[i as int];
    let s0 = MachineState { clos: Closure { body: Term::Var(x), env: e }, stack, thunks };
    let s1 = MachineState { clos: c, stack: stack.push(Marker::Thunk(i)), thunks };
    assert(step(s0) == Outcome::Run(s1));
    lemma_idempotent_update(s1, i);
    let s2 = MachineState { clos: c, stack: s1.stack.drop_last(), thunks };
    assert(step(s1) == Outcome::Run(s2));
    assert(s2.stack =~= stack);
    assert(s2 == (MachineState { clos: c, stack, thunks }));
    assert(run(s2, 0) == Outcome::Run(s2));
    assert(run(s1, 1) == Outcome::Run(s2));
    assert(run(s0, 2) == Outcome::Run(s2));
    if stack.len() == 0 {
        assert(step(s2) == Outcome::Done(c.body));
        assert(run(s2, 1) == Outcome::Done(c.body));
        assert(run(s1, 2) == Outcome::Done(c.body));
        assert(run(s0, 3) == Outcome::Done(c.body));
    }
}

/// What `eval` itself may return for a term already in weak-head normal
/// form: that very term, unchanged — no error, and no budget exhaustion,
/// since the machine halts on its first transition.
pub proof fn lemma_eval_value_identity(v: Term, r: Result<Term, EvalError>)
    requires
        is_whnf(v),
        evaluates_to(v, r),
    ensures
        r == Ok::<Term, EvalError>(v),
{
    let s0 = init_conf(v);
    assert(step(s0) == Outcome::Done(v));
    assert(run(s0, 1) == Outcome::Done(v));
    match r {
        Ok(v2) => {
            lemma_outcome_unique(s0, Outcome::Done(v2), Outcome::Done(v));
        },
        Err(e) => {
            if e is StepBudgetExhausted {
                crate::machine::lemma_halted_stays(s0, 1, crate::machine::step_budget());
                assert(false);
            } else {
                let f = choose|f: Failure|
                    reaches(s0, Outcome::Fail(f)) && #[trigger] err_corresponds(e, f);
                lemma_outcome_unique(s0, Outcome::Fail(f), Outcome::Done(v));
                assert(false);
            }
        },
    }
}

/// What `eval` itself may return for a blame application: only the blame
/// error carrying exactly that label.
pub proof fn lemma_eval_blame(l: Label, r: Result<Term, EvalError>)
    requires
        evaluates_to(Term::Op1(UnaryOp::Blame(), Box::new(Term::Lbl(l))), r),
    ensures
        r matches Err(e) && err_corresponds(e, Failure::Blame(l)),
        r matches Err(e) && e matches EvalError::BlameError(l2) && l2 == l,
{
    let s0 = init_conf(Term::Op1(UnaryOp::Blame(), Box::new(Term::Lbl(l))));
    lemma_blame_propagation(l);
    match r {
        Ok(v) => {
            lemma_outcome_unique(s0, Outcome::Done(v), Outcome::Fail(Failure::Blame(l)));
            assert(false);
        },
        Err(e) => {
            if e is StepBudgetExhausted {
                crate::machine::lemma_halted_stays(s0, 2, crate::machine::step_budget());
                assert(false);
            } else {
                let f = choose|f: Failure|
                    reaches(s0, Outcome::Fail(f)) && #[trigger] err_corresponds(e, f);
                lemma_outcome_unique(s0, Outcome::Fail(f), Outcome::Fail(Failure::Blame(l)));
            }
        },
    }
}

/// What `eval` itself may return for a bare reference to an identifier no
/// enclosing binding introduces: only the typed unbound-identifier error
/// naming it — never a silent success.
pub proof fn lemma_eval_unbound(x: Ident, r: Result<Term, EvalError>)
    requires
        evaluates_to(Term::Var(x), r),
    ensures
        r matches Err(e) && err_corresponds(e, Failure::Unbound(x)),
        r matches Err(e) && e matches EvalError::UnboundIdentifier(y) && y == x,
{
    let s0 = init_conf(Term::Var(x));
    lemma_unbound_variable(x);
    match r {
        Ok(v) => {
            lemma_outcome_unique(s0, Outcome::Done(v), Outcome::Fail(Failure::Unbound(x)));
            assert(false);
        },
        Err(e) => {
            if e is StepBudgetExhausted {
                crate::machine::lemma_halted_stays(s0, 1, crate::machine::step_budget());
                assert(false);
            } else {
                let f = choose|f: Failure|
                    reaches(s0, Outcome::Fail(f)) && #[trigger] err_corresponds(e, f);
                lemma_outcome_unique(s0, Outcome::Fail(f), Outcome::Fail(Failure::Unbound(x)));
            }
        },
    }
}

/// `eval`'s contract pins its result: any two results it permits for the
/// same term agree. Two successes carry the same value; two failures (budget
/// exhaustion aside) report the same machine failure; and a success can
/// coexist with no failure but budget exhaustion, which only says the
/// machine was still running when the budget ran out.
pub proof fn lemma_evaluation_determined(
    t: Term,
    r1: Result<Term, EvalError>,
    r2: Result<Term, EvalError>,
)
    requires
        evaluates_to(t, r1),
        evaluates_to(t, r2),
    ensures
        r1 matches Ok(v1) ==> (r2 matches Ok(v2) ==> v1 == v2),
        r1 is Ok ==> (r2 matches Err(e2) ==> e2 is StepBudgetExhausted),
        (r1 is Err && r2 is Err && !(r1->Err_0 is StepBudgetExhausted) && !(r2->Err_0
            is StepBudgetExhausted)) ==> exists|f: Failure|
            #[trigger] err_corresponds(r1->Err_0, f) && err_corresponds(r2->Err_0, f),
{
    match (r1, r2) {
        (Ok(v1), Ok(v2)) => {
            lemma_outcome_unique(init_conf(t), Outcome::Done(v1), Outcome::Done(v2));
        },
        (Ok(v1), Err(e2)) => {
            if !(e2 is StepBudgetExhausted) {
                let f2 = choose|f: Failure|
                    reaches(init_conf(t), Outcome::Fail(f)) && #[trigger] err_corresponds(e2, f);
                lemma_outcome_unique(init_conf(t), Outcome::Done(v1), Outcome::Fail(f2));
            }
        },
        (Err(e1), Err(e2)) => {
            if !(e1 is StepBudgetExhausted) && !(e2 is StepBudgetExhausted) {
                let f1 = choose|f: Failure|
                    reaches(init_conf(t), Outcome::Fail(f)) && #[trigger] err_corresponds(e1, f);
                let f2 = choose|f: Failure|
                    reaches(init_conf(t), Outcome::Fail(f)) && #[trigger] err_corresponds(e2, f);
                lemma_outcome_unique(init_conf(t), Outcome::Fail(f1), Outcome::Fail(f2));
                assert(err_corresponds(e1, f1) && err_corresponds(e2, f1));
            }
        },
        _ => {},
    }
}

} // verus!
