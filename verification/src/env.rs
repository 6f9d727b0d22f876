use vstd::prelude::*;

use std::rc::Rc;

use crate::ident::{same_ident, Ident};

verus! {

/// A persistent mapping from identifiers to thunk slots in the machine's
/// store. Extension adds one entry in front and shares the whole tail with
/// the parent, so old views stay valid and extension is cheap; a later entry
/// for the same name shadows an earlier one.
#[derive(Debug)]
pub enum Environment {
    Empty,
    Entry(Ident, usize, Rc<Environment>),
}

/// The slot bound to `x`, taking the innermost (most recent) binding.
pub open spec fn lookup_spec(e: Environment, x: Ident) -> Option<usize>
    decreases e,
{
    match e {
        Environment::Empty => None,
        Environment::Entry(y, i, rest) => if same_ident(y, x) {
            Some(i)
        } else {
            lookup_spec(*rest, x)
        },
    }
}

/// Relies on std's `Rc::clone`: the clone is a second handle onto the same
/// allocation, hence onto the same value.
#[verifier::external_body]
fn share(e: &Rc<Environment>) -> (r: Rc<Environment>)
    ensures
        r == *e,
{
    Rc::clone(e)
}

impl Environment {
    /// The empty environment.
    pub fn empty() -> (r: Environment)
        ensures
            r == Environment::Empty,
    {
        Environment::Empty
    }

    /// Decides `lookup_spec`.
    pub fn lookup(&self, x: &Ident) -> (r: Option<usize>)
        ensures
            r == lookup_spec(*self, *x),
        decreases self,
    {
        match self {
            Environment::Empty => None,
            Environment::Entry(y, i, rest) => if y.same(x) {
                Some(*i)
            } else {
                (**rest).lookup(x)
            },
        }
    }

    /// The environment extended with `x` bound to slot `i`; the receiver is
    /// shared as the tail, not copied.
    pub fn extended(self, x: Ident, i: usize) -> (r: Environment)
        ensures
            r == Environment::Entry(x, i, Rc::new(self)),
    {
        Environment::Entry(x, i, Rc::new(self))
    }
}

impl Clone for Environment {
    /// A copy equal to the original; the tail is shared, not copied.
    fn clone(&self) -> (r: Self)
        ensures
            r == *self,
    {
        match self {
            Environment::Empty => Environment::Empty,
            Environment::Entry(x, i, rest) => Environment::Entry(x.clone(), *i, share(rest)),
        }
    }
}

} // verus!
