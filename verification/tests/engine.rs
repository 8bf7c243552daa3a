//! Board engine behaviour: winner and draw detection, cell access,
//! move validation, and outcomes.

use tic_tac_toe::board::{Board, GameError, Move, Outcome};
use tic_tac_toe::player::Player;

/// Builds a board from three display rows; `1` is a cross, `2` a
/// circle, anything else leaves the cell empty.
fn make_board(rows: [[u8; 3]; 3]) -> Board {
    let mut board = Board::new();
    let mut y: usize = 0;
    while y < 3 {
        let mut x: usize = 0;
        while x < 3 {
            let value = match rows[y][x] {
                1 => Player::Cross,
                2 => Player::Circle,
                _ => Player::Empty,
            };
            board.set_field(&Move::new(x, y), value);
            x += 1;
        }
        y += 1;
    }
    board
}

fn boards_equal(a: &Board, b: &Board) -> bool {
    for y in 0..3 {
        for x in 0..3 {
            let m = Move::new(x, y);
            if a.get_field(&m) != b.get_field(&m) {
                return false;
            }
        }
    }
    true
}

#[test]
fn new_board_is_empty_and_in_progress() {
    let board = Board::new();
    for y in 0..3 {
        for x in 0..3 {
            assert_eq!(board.get_field(&Move::new(x, y)), Player::Empty);
        }
    }
    assert_eq!(board.get_winner(), Player::Empty);
    assert!(!board.is_draw());
    assert_eq!(board.outcome(), Outcome::InProgress);
}

#[test]
fn set_and_get_field() {
    let mut board = Board::new();
    board.set_field(&Move::new(1, 2), Player::Circle);
    assert_eq!(board.get_field(&Move::new(1, 2)), Player::Circle);
    assert_eq!(board.get_field(&Move::new(2, 1)), Player::Empty);
}

#[test]
fn winner_in_a_row() {
    let board = make_board([[1, 1, 1], [2, 2, 0], [0, 0, 0]]);
    assert_eq!(board.get_winner(), Player::Cross);
}

#[test]
fn winner_in_a_column() {
    let board = make_board([[2, 1, 0], [2, 1, 0], [2, 0, 1]]);
    assert_eq!(board.get_winner(), Player::Circle);
}

#[test]
fn winner_on_the_diagonal() {
    let board = make_board([[1, 2, 0], [2, 1, 0], [0, 0, 1]]);
    assert_eq!(board.get_winner(), Player::Cross);
}

#[test]
fn winner_on_the_anti_diagonal() {
    let board = make_board([[1, 1, 2], [1, 2, 0], [2, 0, 0]]);
    assert_eq!(board.get_winner(), Player::Circle);
}

#[test]
fn no_winner_on_partial_board() {
    // A handful of marks, no line of three: nobody has won.
    let board = make_board([[1, 2, 0], [2, 1, 0], [0, 0, 0]]);
    assert_eq!(board.get_winner(), Player::Empty);
}

#[test]
fn winner_and_draw_are_exclusive() {
    let won = make_board([[1, 1, 1], [2, 2, 0], [0, 0, 0]]);
    assert_ne!(won.get_winner(), Player::Empty);
    assert!(!won.is_draw());

    let drawn = make_board([[1, 2, 1], [1, 2, 2], [2, 1, 1]]);
    assert_eq!(drawn.get_winner(), Player::Empty);
    assert!(drawn.is_draw());
}

#[test]
fn draw_detected_before_board_is_full() {
    // Every line already holds both marks although a cell is empty.
    let board = make_board([[1, 2, 1], [1, 2, 2], [2, 1, 0]]);
    assert_eq!(board.get_field(&Move::new(2, 2)), Player::Empty);
    assert_eq!(board.get_winner(), Player::Empty);
    assert!(board.is_draw());
    assert_eq!(board.outcome(), Outcome::Draw);
}

#[test]
fn full_board_without_winner_is_a_draw() {
    let board = make_board([[1, 2, 1], [1, 2, 2], [2, 1, 1]]);
    assert!(board.is_draw());
    assert_eq!(board.outcome(), Outcome::Draw);
}

#[test]
fn outcome_reports_the_winner_on_a_full_board() {
    // On a full winning board the winner check must come first: the
    // outcome is a win, never a draw.
    let board = make_board([[1, 2, 2], [2, 1, 2], [1, 1, 1]]);
    assert_eq!(board.get_winner(), Player::Cross);
    assert_eq!(board.outcome(), Outcome::Winner(Player::Cross));
}

#[test]
fn set_roundtrip_restores_the_board() {
    let original = make_board([[1, 2, 0], [0, 1, 0], [2, 0, 0]]);
    let mut copy = original.clone();
    let m = Move::new(2, 1);
    copy.set_field(&m, Player::Circle);
    copy.set_field(&m, Player::Empty);
    assert!(boards_equal(&original, &copy));
}

#[test]
fn try_set_field_accepts_an_empty_cell() {
    let mut board = make_board([[1, 2, 0], [0, 0, 0], [0, 0, 0]]);
    assert_eq!(board.try_set_field(&Move::new(2, 0), Player::Cross), Ok(()));
    assert_eq!(board.get_field(&Move::new(2, 0)), Player::Cross);
}

#[test]
fn try_set_field_rejects_an_occupied_cell() {
    let mut board = make_board([[1, 2, 0], [0, 0, 0], [0, 0, 0]]);
    let before = board.clone();
    assert_eq!(
        board.try_set_field(&Move::new(1, 0), Player::Cross),
        Err(GameError::InvalidMove)
    );
    assert!(boards_equal(&before, &board));
}

#[test]
fn try_set_field_rejects_out_of_range_coordinates() {
    let mut board = Board::new();
    let before = board.clone();
    assert_eq!(
        board.try_set_field(&Move::new(3, 0), Player::Cross),
        Err(GameError::InvalidMove)
    );
    assert_eq!(
        board.try_set_field(&Move::new(0, 7), Player::Circle),
        Err(GameError::InvalidMove)
    );
    assert!(boards_equal(&before, &board));
}
