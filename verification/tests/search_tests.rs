//! Minimax search behaviour: scores, the chosen move, and full
//! optimal self-play.

use tic_tac_toe::board::{Board, Move};
use tic_tac_toe::player::Player;
use tic_tac_toe::search::{best_move, get_move_score, minmax};

/// Builds a board from three display rows; `1` is a cross, `2` a
/// circle, anything else leaves the cell empty.
fn board_from(rows: [[u8; 3]; 3]) -> Board {
    let mut board = Board::new();
    for y in 0..3 {
        for x in 0..3 {
            let value = match rows[y][x] {
                1 => Player::Cross,
                2 => Player::Circle,
                _ => Player::Empty,
            };
            board.set_field(&Move::new(x, y), value);
        }
    }
    board
}

#[test]
fn minmax_scores_a_won_position_by_depth() {
    // Cross owns the top row; for Cross the position is worth
    // 10 - depth, for Circle depth - 10.
    let board = board_from([[1, 1, 1], [2, 2, 0], [0, 0, 0]]);
    assert_eq!(minmax(&board, Player::Circle, Player::Cross, 3), 7);
    assert_eq!(minmax(&board, Player::Cross, Player::Circle, 3), -7);
}

#[test]
fn minmax_scores_a_drawn_position_as_zero() {
    let board = board_from([[1, 2, 1], [1, 2, 2], [2, 1, 1]]);
    assert_eq!(minmax(&board, Player::Cross, Player::Cross, 4), 0);
    assert_eq!(minmax(&board, Player::Circle, Player::Cross, 4), 0);
}

#[test]
fn best_move_returns_an_empty_cell() {
    let board = board_from([[1, 2, 0], [2, 1, 0], [0, 0, 0]]);
    let m = best_move(&board, Player::Circle);
    assert!(m.x < 3 && m.y < 3);
    assert_eq!(board.get_field(&m), Player::Empty);
}

#[test]
fn best_move_takes_an_immediate_win() {
    // Cross can complete the top row at (2, 0).
    let board = board_from([[1, 1, 0], [2, 2, 0], [0, 0, 0]]);
    let m = best_move(&board, Player::Cross);
    assert_eq!((m.x, m.y), (2, 0));
}

#[test]
fn best_move_blocks_a_two_in_a_row() {
    // Circle threatens the middle row at (2, 1); Cross has no win of
    // its own and must block there.
    let board = board_from([[1, 0, 0], [2, 2, 0], [1, 0, 0]]);
    let m = best_move(&board, Player::Cross);
    assert_eq!((m.x, m.y), (2, 1));
}

#[test]
fn ignoring_the_threat_scores_a_loss_in_two_plies() {
    // Any Cross move other than the block at (2, 1) lets Circle win
    // on the answering move, two plies down: depth - 10 = -8.
    let board = board_from([[1, 0, 0], [2, 2, 0], [1, 0, 0]]);
    assert_eq!(
        get_move_score(&board, &Move::new(1, 0), Player::Cross, Player::Cross, 0),
        -8
    );
    assert!(get_move_score(&board, &Move::new(2, 1), Player::Cross, Player::Cross, 0) >= -7);
}

#[test]
fn opening_move_is_the_first_cell_scanned() {
    // On the empty board every opening move holds the draw under
    // optimal defense, so all nine score equal and the tie resolves
    // to the earliest-scanned cell.
    let board = Board::new();
    let m = best_move(&board, Player::Cross);
    assert_eq!((m.x, m.y), (0, 0));
}

#[test]
fn winning_cell_in_the_bottom_row() {
    // Cross can win at once in the bottom row: (0, 2) completes the
    // diagonal from the top-right corner, and is scanned before the
    // other winning cell (2, 2).  The winning move scores 10 - 1.
    let board = board_from([[1, 2, 1], [2, 1, 2], [0, 0, 0]]);
    let m = best_move(&board, Player::Cross);
    assert_eq!((m.x, m.y), (0, 2));
    assert_eq!(
        get_move_score(&board, &Move::new(0, 2), Player::Cross, Player::Cross, 0),
        9
    );
}

#[test]
fn optimal_self_play_always_draws() {
    // Computer against computer from the first move: the game must
    // end in a draw, with the board in a dead position and no winner.
    let mut board = Board::new();
    let mut current = Player::Cross;
    let mut moves_played = 0;
    while board.get_winner() == Player::Empty && !board.is_draw() {
        let m = best_move(&board, current);
        assert_eq!(board.get_field(&m), Player::Empty);
        board.set_field(&m, current);
        current = current.get_opponent();
        moves_played += 1;
        assert!(moves_played <= 9);
    }
    assert_eq!(board.get_winner(), Player::Empty);
    assert!(board.is_draw());
}
