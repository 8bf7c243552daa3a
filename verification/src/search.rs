//! Exhaustive minimax search over the full game tree.
//!
//! The search assigns every position an integer score from the point
//! of view of one player, the maximizing player: a win is worth
//! `10 - depth` and a loss `depth - 10`, where `depth` counts the
//! moves played below the position the search was asked about, so a
//! faster forced win (and a slower forced loss) always scores better;
//! a drawn position is worth `0`.  At a position where the maximizing
//! player moves the best child is the maximum, at the opponent's turn
//! the minimum.  [`best_move`] tries every empty cell in scan order
//! (row by row, left to right) and keeps the first cell whose score is
//! strictly greatest, so ties resolve to the earliest-scanned cell.

use vstd::prelude::*;

use crate::board::{
    empty_count, is_terminal, lemma_empty_count_from_bound, lemma_empty_count_from_pos,
    lemma_empty_count_update, winner_of, is_draw_of, Board, Move,
};
use crate::player::Player;

verus! {

/// The score of a terminal position for `maxer`, `depth` moves below
/// the root of the search.
pub open spec fn terminal_score(s: Seq<Player>, maxer: Player, depth: int) -> int {
    if winner_of(s) == maxer {
        10 - depth
    } else if winner_of(s) != Player::Empty {
        depth - 10
    } else {
        0
    }
}

/// The minimax value of the position `s` for `maxer` when `mover` is
/// about to play, `depth` moves below the root of the search.
pub open spec fn minimax_score(s: Seq<Player>, mover: Player, maxer: Player, depth: int) -> int
    decreases empty_count(s), 1int, 0int,
        when s.len() == 9 && mover.is_mark()
{
    if is_terminal(s) {
        terminal_score(s, maxer, depth)
    } else {
        search_from(
            s,
            mover,
            maxer,
            depth,
            0,
            if mover == maxer {
                -99
            } else {
                99
            },
        )
    }
}

/// Folds the children of `s` at cell indices `i` and above into the
/// running best score `best`: the maximum of the children's minimax
/// values when `mover` is the maximizing player, else the minimum.
pub open spec fn search_from(
    s: Seq<Player>,
    mover: Player,
    maxer: Player,
    depth: int,
    i: int,
    best: int,
) -> int
    decreases empty_count(s), 0int, 9 - i,
        when s.len() == 9 && mover.is_mark()
{
    if i < 0 || i >= 9 {
        best
    } else {
        let best2: int = if s[i] == Player::Empty {
            proof {
                lemma_empty_count_update(s, i, mover);
            }
            let child: int = minimax_score(s.update(i, mover), mover.opponent(), maxer, depth + 1);
            if mover == maxer {
                if child > best {
                    child
                } else {
                    best
                }
            } else {
                if child < best {
                    child
                } else {
                    best
                }
            }
        } else {
            best
        };
        search_from(s, mover, maxer, depth, i + 1, best2)
    }
}

/// The minimax value that playing at cell `i` of `s` gives `p`, seen
/// from the top of the search: one move has been spent, so the
/// opponent moves next at depth 1.
pub open spec fn move_score(s: Seq<Player>, p: Player, i: int) -> int {
    minimax_score(s.update(i, p), p.opponent(), p, 1)
}

/// The cell at scan index `i`.
pub open spec fn coord(i: int) -> Move
    recommends
        0 <= i < 9,
{
    Move { x: (i % 3) as usize, y: (i / 3) as usize }
}

/// Folds the empty cells of `s` at scan indices `i` and above into the
/// running choice: a cell whose score is strictly greater than the
/// best seen replaces it, and the first empty cell examined always
/// replaces the initial placeholder.
pub open spec fn select_from(
    s: Seq<Player>,
    p: Player,
    i: int,
    best_m: Move,
    best_s: int,
    first: bool,
) -> Move
    decreases 9 - i,
{
    if i < 0 || i >= 9 {
        best_m
    } else if s[i] == Player::Empty {
        if move_score(s, p, i) > best_s || first {
            select_from(s, p, i + 1, coord(i), move_score(s, p, i), false)
        } else {
            select_from(s, p, i + 1, best_m, best_s, false)
        }
    } else {
        select_from(s, p, i + 1, best_m, best_s, first)
    }
}

/// The move that the top-level scan of [`best_move`] settles on.
pub open spec fn best_move_spec(s: Seq<Player>, p: Player) -> Move {
    select_from(s, p, 0, (Move { x: 0, y: 0 }), 0, true)
}

/// Writes `m` over `n` when `m` is larger.
fn apply_if_higher(n: &mut i32, m: i32)
    ensures
        *final(n) == if m > *old(n) {
            m as int
        } else {
            *old(n) as int
        },
{
    if m > *n {
        *n = m;
    }
}

/// Writes `m` over `n` when `m` is smaller.
fn apply_if_lower(n: &mut i32, m: i32)
    ensures
        *final(n) == if m < *old(n) {
            m as int
        } else {
            *old(n) as int
        },
{
    if m < *n {
        *n = m;
    }
}

/// Scores the position `board` by recursively trying every possible
/// continuation.
///
/// `test_player` is the player about to move here (it alternates as
/// the recursion descends), `player_on_turn` the player the search is
/// run for (it stays fixed), and `depth` the number of moves already
/// played below the position the search was asked about.  The result
/// lies between -10 and 10.
#[verifier::loop_isolation(false)]
pub fn minmax(board: &Board, test_player: Player, player_on_turn: Player, depth: i32) -> (score:
    i32)
    requires
        board@.len() == 9,
        test_player.is_mark(),
        player_on_turn.is_mark(),
        0 <= depth,
        depth + empty_count(board@) <= 9,
    ensures
        score == minimax_score(board@, test_player, player_on_turn, depth as int),
    decreases empty_count(board@), 1int,
{
    let winner = board.get_winner();
    if winner != Player::Empty || board.is_draw() {
        if winner == player_on_turn {
            10 - depth
        } else if winner != Player::Empty {
            depth - 10
        } else {
            0
        }
    } else {
        let use_max = player_on_turn == test_player;
        let mut best_score: i32 = if use_max {
            -99
        } else {
            99
        };
        let ghost total: int = search_from(
            board@,
            test_player,
            player_on_turn,
            depth as int,
            0,
            best_score as int,
        );
        let mut y: usize = 0;
        while y < 3
            invariant
                y <= 3,
                search_from(
                    board@,
                    test_player,
                    player_on_turn,
                    depth as int,
                    3 * (y as int),
                    best_score as int,
                ) == total,
            decreases 3 - y,
        {
            let mut x: usize = 0;
            while x < 3
                invariant
                    x <= 3,
                    y < 3,
                    search_from(
                        board@,
                        test_player,
                        player_on_turn,
                        depth as int,
                        3 * (y as int) + (x as int),
                        best_score as int,
                    ) == total,
                decreases 3 - x,
            {
                let player_move = Move::new(x, y);
                if board.get_field(&player_move) == Player::Empty {
                    let score = get_move_score(
                        board,
                        &player_move,
                        test_player,
                        player_on_turn,
                        depth,
                    );
                    if use_max {
                        apply_if_higher(&mut best_score, score);
                    } else {
                        apply_if_lower(&mut best_score, score);
                    }
                }
                x = x + 1;
            }
            y = y + 1;
        }
        best_score
    }
}

/// Scores the single move `player_move` for `test_player`: places the
/// mark on a scratch copy of the board and scores the resulting
/// position one move deeper.
#[verifier::loop_isolation(false)]
pub fn get_move_score(
    board: &Board,
    player_move: &Move,
    test_player: Player,
    player_on_turn: Player,
    depth: i32,
) -> (score: i32)
    requires
        board@.len() == 9,
        player_move.in_range(),
        board@[player_move.scan_index()] == Player::Empty,
        test_player.is_mark(),
        player_on_turn.is_mark(),
        0 <= depth,
        depth + empty_count(board@) <= 9,
    ensures
        score == minimax_score(
            board@.update(player_move.scan_index(), test_player),
            test_player.opponent(),
            player_on_turn,
            depth + 1,
        ),
    decreases empty_count(board@), 0int,
{
    proof {
        lemma_empty_count_from_pos(board@, 0);
        lemma_empty_count_update(board@, player_move.scan_index(), test_player);
    }
    let mut tmp_board = board.clone();
    tmp_board.set_field(player_move, test_player);
    minmax(&tmp_board, test_player.get_opponent(), player_on_turn, depth + 1)
}

/// Picks the game-theoretically optimal move for `player` on `board`.
///
/// Every empty cell is tried in scan order and scored by a full
/// minimax search; the first cell scanned initializes the choice and a
/// later cell replaces it only with a strictly greater score, so among
/// equally good moves the earliest-scanned one is returned.  The
/// position must not be terminal and must have an empty cell; the
/// returned coordinate always names an empty cell.
#[verifier::loop_isolation(false)]
pub fn best_move(board: &Board, player: Player) -> (r: Move)
    requires
        board@.len() == 9,
        player.is_mark(),
        winner_of(board@) == Player::Empty,
        !is_draw_of(board@),
        empty_count(board@) >= 1,
    ensures
        r == best_move_spec(board@, player),
        r.in_range(),
        board@[r.scan_index()] == Player::Empty,
{
    proof {
        lemma_empty_count_from_bound(board@, 0);
        lemma_empty_count_from_pos(board@, 0);
    }
    let mut best_mv = Move::new(0, 0);
    let mut best_score: i32 = 0;
    let mut first_possible_move = true;
    let mut y: usize = 0;
    while y < 3
        invariant
            y <= 3,
            select_from(
                board@,
                player,
                3 * (y as int),
                best_mv,
                best_score as int,
                first_possible_move,
            ) == best_move_spec(board@, player),
            first_possible_move ==> exists|j: int|
                3 * (y as int) <= j < 9 && board@[j] == Player::Empty,
            !first_possible_move ==> best_mv.in_range() && board@[best_mv.scan_index()]
                == Player::Empty,
        decreases 3 - y,
    {
        let mut x: usize = 0;
        while x < 3
            invariant
                x <= 3,
                y < 3,
                select_from(
                    board@,
                    player,
                    3 * (y as int) + (x as int),
                    best_mv,
                    best_score as int,
                    first_possible_move,
                ) == best_move_spec(board@, player),
                first_possible_move ==> exists|j: int|
                    3 * (y as int) + (x as int) <= j < 9 && board@[j] == Player::Empty,
                !first_possible_move ==> best_mv.in_range() && board@[best_mv.scan_index()]
                    == Player::Empty,
            decreases 3 - x,
        {
            let ghost i: int = 3 * (y as int) + (x as int);
            let player_move = Move::new(x, y);
            proof {
                assert(i % 3 == x as int && i / 3 == y as int) by (nonlinear_arith)
                    requires
                        0 <= x < 3,
                        0 <= y < 3,
                        i == 3 * (y as int) + (x as int),
                ;
            }
            if board.get_field(&player_move) == Player::Empty {
                let score = get_move_score(board, &player_move, player, player, 0);
                if score > best_score || first_possible_move {
                    best_score = score;
                    best_mv = player_move;
                }
                first_possible_move = false;
            } else {
                proof {
                    if first_possible_move {
                        let j = choose|j: int| i <= j < 9 && board@[j] == Player::Empty;
                        assert(i + 1 <= j < 9 && board@[j] == Player::Empty);
                    }
                }
            }
            x = x + 1;
        }
        y = y + 1;
    }
    best_mv
}

} // verus!
