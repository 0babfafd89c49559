//! Account identities.

use vstd::prelude::*;

verus! {

/// An account identifier. Two principals are the same account exactly when
/// their identifiers are the same text; nothing else is known about them.
#[derive(Debug, PartialEq, Eq)]
pub struct Principal {
    id: String,
}

impl View for Principal {
    type V = Seq<char>;

    closed spec fn view(&self) -> Seq<char> {
        self.id@
    }
}

impl Clone for Principal {
    fn clone(&self) -> (copy: Self)
        ensures
            copy@ == self@,
    {
        Principal { id: self.id.clone() }
    }
}

impl Principal {
    /// The principal named by `id`.
    pub fn new(id: String) -> (p: Principal)
        ensures
            p@ == id@,
    {
        Principal { id }
    }

    /// The identifier this principal was made from.
    pub fn id(&self) -> (id: &String)
        ensures
            id@ == self@,
    {
        &self.id
    }

    /// Whether `self` and `other` name the same account.
    pub fn same(&self, other: &Principal) -> (r: bool)
        ensures
            r == (self@ == other@),
    {
        self.id == other.id
    }
}

} // verus!
