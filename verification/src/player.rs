//! The marks a cell can hold, doubling as player identities.

use vstd::prelude::*;

verus! {

/// The value of one cell on the board: empty, or one of the two
/// players' marks.  The two non-empty values also name the players
/// themselves.
#[derive(Debug, Clone, Copy, PartialEq, Eq, Structural)]
pub enum Player {
    Empty,
    Cross,
    Circle,
}

impl Player {
    /// The opponent of a player: `Cross` and `Circle` are each
    /// other's opponents, and `Empty` has none.
    pub open spec fn opponent(self) -> Player {
        match self {
            Player::Cross => Player::Circle,
            Player::Circle => Player::Cross,
            Player::Empty => Player::Empty,
        }
    }

    /// True for the two values that denote an actual player.
    pub open spec fn is_mark(self) -> bool {
        self != Player::Empty
    }

    /// Returns the opposing player; `Empty` is its own opponent.
    pub fn get_opponent(&self) -> (r: Player)
        ensures
            r == self.opponent(),
    {
        match *self {
            Player::Cross => Player::Circle,
            Player::Circle => Player::Cross,
            Player::Empty => Player::Empty,
        }
    }
}

} // verus!
