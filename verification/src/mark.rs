//! The content of a single cell.

use vstd::prelude::*;

verus! {

/// What a cell holds: one of the two players' marks, or nothing.
#[derive(Debug, PartialEq, Eq, Structural, Clone, Copy)]
pub enum Mark {
    X,
    O,
    Empty,
}

impl Mark {
    /// The side that answers `self`: `O` for `X`, and `X` for anything else.
    pub open spec fn spec_opponent(self) -> Mark {
        if self == Mark::X {
            Mark::O
        } else {
            Mark::X
        }
    }

    /// The side that moves after `self`.
    #[verifier::when_used_as_spec(spec_opponent)]
    pub fn opponent(self) -> (other: Mark)
        ensures
            other == self.spec_opponent(),
    {
        if self == Mark::X {
            Mark::O
        } else {
            Mark::X
        }
    }
}

} // verus!
