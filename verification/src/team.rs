//! Sides of a match.

use vstd::prelude::*;

verus! {

/// The side an entity belongs to: a player slot of the match, or nobody.
#[derive(Clone, Copy, Debug, PartialEq, Eq, Structural)]
pub enum Team {
    Player(usize),
    Neutral,
}

impl Team {
    /// The player index of a player team.
    pub fn economy_index(self) -> (index: Option<usize>)
        ensures
            index == (match self {
                Team::Player(i) => Some(i),
                Team::Neutral => None,
            }),
    {
        match self {
            Team::Player(index) => Some(index),
            Team::Neutral => None,
        }
    }
}

} // verus!
