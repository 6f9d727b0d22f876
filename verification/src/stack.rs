use vstd::prelude::*;

use crate::eval::Closure;
use crate::term::{BinaryOp, UnaryOp};

verus! {

/// What to do once a suspended operand finishes evaluating.
#[derive(Debug)]
pub enum OperationCont {
    /// Apply this unary operator to the value that just completed.
    Op1(UnaryOp),
    /// The first operand of this binary operator just completed; the saved
    /// closure is the still-unevaluated second operand.
    Op2First(BinaryOp, Closure),
    /// Both operands are in: the saved closure is the first operand's value.
    Op2Second(BinaryOp, Closure),
}

/// One frame of the control stack.
#[derive(Debug)]
pub enum Marker {
    /// A pending, unevaluated call argument.
    Arg(Closure),
    /// An update marker: the store slot to overwrite once the computation it
    /// suspends reaches weak-head normal form.
    Thunk(usize),
    /// A pending operation continuation.
    Cont(OperationCont),
}

/// The machine's control stack: one sequence of typed frames. A `pop_` method
/// removes the top frame only when it has the requested kind, so the cross-kind
/// draining priority is decided by the order the evaluator asks, not here.
#[derive(Debug)]
pub struct Stack {
    items: Vec<Marker>,
}

impl View for Stack {
    type V = Seq<Marker>;

    closed spec fn view(&self) -> Seq<Marker> {
        self.items@
    }
}

impl Stack {
    /// An empty stack.
    pub fn new() -> (r: Stack)
        ensures
            r@ == Seq::<Marker>::empty(),
    {
        Stack { items: Vec::new() }
    }

    /// Pushes a pending call argument.
    pub fn push_arg(&mut self, arg: Closure)
        ensures
            final(self)@ == old(self)@.push(Marker::Arg(arg)),
    {
        self.items.push(Marker::Arg(arg));
    }

    /// Pushes an update marker for store slot `i`.
    pub fn push_thunk(&mut self, i: usize)
        ensures
            final(self)@ == old(self)@.push(Marker::Thunk(i)),
    {
        self.items.push(Marker::Thunk(i));
    }

    /// Pushes an operation continuation.
    pub fn push_op_cont(&mut self, cont: OperationCont)
        ensures
            final(self)@ == old(self)@.push(Marker::Cont(cont)),
    {
        self.items.push(Marker::Cont(cont));
    }

    /// Pops the top frame if it is a pending argument; otherwise leaves the
    /// stack unchanged.
    pub fn pop_arg(&mut self) -> (r: Option<Closure>)
        ensures
            match r {
                Some(c) => old(self)@.len() > 0 && old(self)@.last() == Marker::Arg(c)
                    && final(self)@ == old(self)@.drop_last(),
                None => final(self)@ == old(self)@ && (old(self)@.len() == 0
                    || !(old(self)@.last() is Arg)),
            },
    {
        match self.items.pop() {
            Some(Marker::Arg(c)) => Some(c),
            Some(m) => {
                self.items.push(m);
                proof {
                    assert(self.items@ =~= old(self).items@);
                }
                None
            },
            None => None,
        }
    }

    /// Pops the top frame if it is an update marker; otherwise leaves the
    /// stack unchanged.
    pub fn pop_thunk(&mut self) -> (r: Option<usize>)
        ensures
            match r {
                Some(i) => old(self)@.len() > 0 && old(self)@.last() == Marker::Thunk(i)
                    && final(self)@ == old(self)@.drop_last(),
                None => final(self)@ == old(self)@ && (old(self)@.len() == 0
                    || !(old(self)@.last() is Thunk)),
            },
    {
        match self.items.pop() {
            Some(Marker::Thunk(i)) => Some(i),
            Some(m) => {
                self.items.push(m);
                proof {
                    assert(self.items@ =~= old(self).items@);
                }
                None
            },
            None => None,
        }
    }

    /// Pops the top frame if it is an operation continuation; otherwise
    /// leaves the stack unchanged.
    pub fn pop_op_cont(&mut self) -> (r: Option<OperationCont>)
        ensures
            match r {
                Some(k) => old(self)@.len() > 0 && old(self)@.last() == Marker::Cont(k)
                    && final(self)@ == old(self)@.drop_last(),
                None => final(self)@ == old(self)@ && (old(self)@.len() == 0
                    || !(old(self)@.last() is Cont)),
            },
    {
        match self.items.pop() {
            Some(Marker::Cont(k)) => Some(k),
            Some(m) => {
                self.items.push(m);
                proof {
                    assert(self.items@ =~= old(self).items@);
                }
                None
            },
            None => None,
        }
    }
}

} // verus!
