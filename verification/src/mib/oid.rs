//! Numeric object identifiers.

use vstd::prelude::*;

verus! {

/// A numeric object identifier: its sequence of arcs.
#[derive(Debug, Clone, PartialEq, Eq, Hash)]
pub struct Oid {
    arcs: Vec<u32>,
}

impl Oid {
    /// The arcs of the identifier.
    pub closed spec fn spec_arcs(&self) -> Seq<u32> {
        self.arcs@
    }

    /// Create an identifier from its arcs.
    pub fn from_arcs(arcs: Vec<u32>) -> (o: Oid)
        ensures
            o.spec_arcs() == arcs@,
    {
        Oid { arcs }
    }

    /// Return the arcs of the identifier.
    pub fn arcs(&self) -> (r: &[u32])
        ensures
            r@ == self.spec_arcs(),
    {
        self.arcs.as_slice()
    }
}

} // verus!
