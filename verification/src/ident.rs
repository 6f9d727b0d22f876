use vstd::prelude::*;

verus! {

/// A variable name: an opaque, comparable identifier.
///
/// User programs bind `Named` identifiers. The two reserved binders are used
/// only by the type-to-contract expansion (`Types::contract`), so a generated
/// contract term can never capture or be captured by a user-written name
/// unless the user deliberately reuses the reserved binders.
#[derive(Debug, PartialEq, Eq, Hash)]
pub enum Ident {
    Named(String),
    ContractLabel,
    ContractValue,
}

/// Identifier equality as the machine uses it: named identifiers are equal
/// when they spell the same name; each reserved binder is equal to itself only.
pub open spec fn same_ident(a: Ident, b: Ident) -> bool {
    match (a, b) {
        (Ident::Named(x), Ident::Named(y)) => x@ == y@,
        (Ident::ContractLabel, Ident::ContractLabel) => true,
        (Ident::ContractValue, Ident::ContractValue) => true,
        _ => false,
    }
}

impl Ident {
    /// Decides `same_ident`.
    pub fn same(&self, other: &Ident) -> (r: bool)
        ensures
            r == same_ident(*self, *other),
    {
        match (self, other) {
            (Ident::Named(x), Ident::Named(y)) => *x == *y,
            (Ident::ContractLabel, Ident::ContractLabel) => true,
            (Ident::ContractValue, Ident::ContractValue) => true,
            _ => false,
        }
    }

}

impl Clone for Ident {
    /// A copy equal to the original.
    fn clone(&self) -> (r: Self)
        ensures
            r == *self,
    {
        match self {
            Ident::Named(x) => Ident::Named(x.clone()),
            Ident::ContractLabel => Ident::ContractLabel,
            Ident::ContractValue => Ident::ContractValue,
        }
    }
}

} // verus!
