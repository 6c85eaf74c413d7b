//! The random source.

use vstd::prelude::*;

verus! {

/// A random source, with a record of what was drawn from it: each bound and
/// the number drawn below it, in order. Outside this module the record is known
/// only from the draws themselves.
pub struct Chance {
    past: Ghost<Seq<(u128, u128)>>,
}

impl Chance {
    /// What was drawn so far.
    pub closed spec fn draws(self) -> Seq<(u128, u128)> {
        self.past@
    }

    /// A source from which nothing was drawn yet.
    pub(crate) fn new() -> (r: Self)
        ensures
            r.draws() == Seq::<(u128, u128)>::empty(),
    {
        Chance { past: Ghost(Seq::empty()) }
    }
}

} // verus!
