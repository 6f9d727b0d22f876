use vstd::prelude::*;

verus! {

/// Where inside a type annotation a blame label points: at the whole type,
/// or into the domain or codomain of an arrow.
#[derive(Debug, PartialEq, Eq)]
pub enum TyPath {
    Nil(),
    Domain(Box<TyPath>),
    Codomain(Box<TyPath>),
}

impl Clone for TyPath {
    /// A copy equal to the original.
    fn clone(&self) -> (r: Self)
        ensures
            r == *self,
        decreases self,
    {
        match self {
            TyPath::Nil() => TyPath::Nil(),
            TyPath::Domain(p) => TyPath::Domain(Box::new((**p).clone())),
            TyPath::Codomain(p) => TyPath::Codomain(Box::new((**p).clone())),
        }
    }
}

/// A blame-site descriptor. The machine never reads its fields: a label is
/// carried through evaluation as plain data and handed back verbatim inside
/// a blame failure.
#[derive(Debug, PartialEq, Eq)]
pub struct Label {
    pub tag: String,
    pub l: usize,
    pub r: usize,
    pub polarity: bool,
    pub path: TyPath,
}

impl Clone for Label {
    /// A copy equal to the original.
    fn clone(&self) -> (r: Self)
        ensures
            r == *self,
    {
        Label {
            tag: self.tag.clone(),
            l: self.l,
            r: self.r,
            polarity: self.polarity,
            path: self.path.clone(),
        }
    }
}

} // verus!
