//! Identifiers.
use vstd::prelude::*;

verus! {

/// An identifier: a small identifier (values, functions, constructors, fields) or a big one
/// (types, effects, kind parameters). Equality is by the text.
#[derive(Debug, Clone, Hash)]
pub struct Ident(pub String);

/// A big identifier (types, effects, kind parameters): the same representation as [`Ident`].
pub type BigIdent = Ident;

impl View for Ident {
    type V = Seq<char>;

    open spec fn view(&self) -> Seq<char> {
        self.0@
    }
}

impl Ident {
    /// Builds an identifier from its text.
    pub fn new(s: &str) -> (r: Ident)
        ensures
            r@ == s@,
    {
        Ident(s.to_owned())
    }

    /// A copy of this identifier.
    pub fn duplicate(&self) -> (r: Ident)
        ensures
            r@ == self@,
    {
        Ident(self.0.clone())
    }

    /// Whether two identifiers have the same text.
    pub fn same(&self, other: &Ident) -> (r: bool)
        ensures
            r == (self@ == other@),
    {
        self.0 == other.0
    }
}

impl PartialEq for Ident {
    fn eq(&self, other: &Ident) -> (r: bool) {
        self.0 == other.0
    }
}

impl Eq for Ident {}

impl vstd::std_specs::cmp::PartialEqSpecImpl for Ident {
    open spec fn obeys_eq_spec() -> bool {
        true
    }

    open spec fn eq_spec(&self, other: &Ident) -> bool {
        self@ == other@
    }
}

} // verus!
