//! Who is playing, whose turn it is, and how the next move is chosen.

use vstd::prelude::*;

use crate::board::{empty_count, is_draw_of, winner_of, Board, Move};
use crate::player::Player;
use crate::search::{best_move, best_move_spec};

verus! {

/// The two participants of a game: whose turn it is, and which of the
/// two marks the computer plays.
#[derive(Debug, Clone, Copy)]
pub struct Players {
    pub current: Player,
    pub cross_is_ai: bool,
    pub circle_is_ai: bool,
}

impl Players {
    /// Whether the player whose turn it is plays by computer.
    pub open spec fn current_is_ai_spec(self) -> bool {
        match self.current {
            Player::Circle => self.circle_is_ai,
            Player::Cross => self.cross_is_ai,
            Player::Empty => false,
        }
    }

    pub fn current_is_ai(&self) -> (r: bool)
        ensures
            r == self.current_is_ai_spec(),
    {
        match self.current {
            Player::Circle => self.circle_is_ai,
            Player::Cross => self.cross_is_ai,
            _ => false,
        }
    }

    /// Hands the turn to the other player.
    pub fn toggle(&mut self)
        ensures
            final(self).current == old(self).current.opponent(),
            final(self).cross_is_ai == old(self).cross_is_ai,
            final(self).circle_is_ai == old(self).circle_is_ai,
    {
        self.current = self.current.get_opponent();
    }

    /// The move the current player makes: the search's choice when the
    /// player is computer-controlled, else `human_move`, which the
    /// driver has read and validated, handed back unchanged.
    pub fn get_next_move(&self, board: &Board, human_move: Move) -> (r: Move)
        requires
            self.current_is_ai_spec() ==> board@.len() == 9 && winner_of(board@) == Player::Empty
                && !is_draw_of(board@) && empty_count(board@) >= 1,
        ensures
            self.current_is_ai_spec() ==> r == best_move_spec(board@, self.current)
                && board@[r.scan_index()] == Player::Empty && r.in_range(),
            !self.current_is_ai_spec() ==> r == human_move,
    {
        if !self.current_is_ai() {
            human_move
        } else {
            self.get_ai_move(board)
        }
    }

    /// Calculates the best possible move for the current player.
    pub fn get_ai_move(&self, board: &Board) -> (r: Move)
        requires
            self.current_is_ai_spec(),
            board@.len() == 9,
            winner_of(board@) == Player::Empty,
            !is_draw_of(board@),
            empty_count(board@) >= 1,
        ensures
            r == best_move_spec(board@, self.current),
            board@[r.scan_index()] == Player::Empty,
            r.in_range(),
    {
        best_move(board, self.current)
    }

    /// A pseudo-random opening move, one of the four corners, chosen
    /// by a seed the caller supplies (the driver uses the clock).
    pub fn get_random_move(seed: u64) -> (r: Move)
        ensures
            seed % 4 == 0 ==> r == (Move { x: 2, y: 2 }),
            seed % 4 == 1 ==> r == (Move { x: 2, y: 0 }),
            seed % 4 == 2 ==> r == (Move { x: 0, y: 2 }),
            seed % 4 == 3 ==> r == (Move { x: 0, y: 0 }),
            r.in_range(),
    {
        match seed % 4u64 {
            0 => Move::new(2, 2),
            1 => Move::new(2, 0),
            2 => Move::new(0, 2),
            _ => Move::new(0, 0),
        }
    }
}

/// What a well-formed move entry must look like: a column letter
/// followed by a row digit from 1 to 3.
pub open spec fn parse_move_spec(s: Seq<char>) -> Option<Move> {
    if s.len() != 2 {
        Option::None
    } else {
        let x: int = if s[0] == 'a' || s[0] == 'A' {
            0
        } else if s[0] == 'b' || s[0] == 'B' {
            1
        } else if s[0] == 'c' || s[0] == 'C' {
            2
        } else {
            3
        };
        let y: int = if s[1] == '1' {
            0
        } else if s[1] == '2' {
            1
        } else if s[1] == '3' {
            2
        } else {
            3
        };
        if x < 3 && y < 3 {
            Option::Some(Move { x: x as usize, y: y as usize })
        } else {
            Option::None
        }
    }
}

/// Reads a move entered as a column letter (`A`, `B` or `C`, either
/// case) followed by a row digit (`1` to `3`); anything else is
/// rejected.  The driver hands in the typed characters with the
/// surrounding whitespace already stripped.
pub fn parse_move(input: &Vec<char>) -> (r: Option<Move>)
    ensures
        r == parse_move_spec(input@),
        r is Some ==> r->0.in_range(),
{
    if input.len() != 2 {
        return None;
    }
    let c0 = input[0];
    let c1 = input[1];
    let x: usize = if c0 == 'a' || c0 == 'A' {
        0
    } else if c0 == 'b' || c0 == 'B' {
        1
    } else if c0 == 'c' || c0 == 'C' {
        2
    } else {
        3
    };
    let y: usize = if c1 == '1' {
        0
    } else if c1 == '2' {
        1
    } else if c1 == '3' {
        2
    } else {
        3
    };
    if x < 3 && y < 3 {
        Some(Move::new(x, y))
    } else {
        None
    }
}

} // verus!
