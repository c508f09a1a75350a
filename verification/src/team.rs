//! The two sides of the game.

use vstd::prelude::*;

verus! {

/// One of the two sides.
#[derive(Clone, Copy, Debug, PartialEq, Eq, Structural)]
pub enum Team {
    Black,
    White,
}

impl Team {
    /// The other side.
    pub open spec fn spec_opposite(&self) -> Team {
        match self {
            Team::Black => Team::White,
            Team::White => Team::Black,
        }
    }

    /// The other side.
    #[verifier::when_used_as_spec(spec_opposite)]
    pub fn opposite(&self) -> (t: Team)
        ensures
            t == self.spec_opposite(),
    {
        match self {
            Team::Black => Team::White,
            Team::White => Team::Black,
        }
    }

    /// The factor that turns a score counted for White into one counted for this side.
    pub open spec fn spec_sign(&self) -> i32 {
        match self {
            Team::Black => -1i32,
            Team::White => 1i32,
        }
    }

    /// The factor that turns a score counted for White into one counted for this side:
    /// 1 for White and -1 for Black.
    #[verifier::when_used_as_spec(spec_sign)]
    pub fn sign(&self) -> (s: i32)
        ensures
            s == self.spec_sign(),
    {
        match self {
            Team::Black => -1,
            Team::White => 1,
        }
    }
}

} // verus!
