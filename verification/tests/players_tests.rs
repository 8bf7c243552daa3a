//! Player identity, turn handling, and move entry parsing.

use tic_tac_toe::board::{Board, Move};
use tic_tac_toe::player::Player;
use tic_tac_toe::players::{parse_move, Players};
use tic_tac_toe::search::best_move;

fn chars_of(s: &str) -> Vec<char> {
    s.chars().collect()
}

#[test]
fn opponents_are_an_involution() {
    assert_eq!(Player::Cross.get_opponent(), Player::Circle);
    assert_eq!(Player::Circle.get_opponent(), Player::Cross);
    assert_eq!(Player::Empty.get_opponent(), Player::Empty);
    assert_eq!(Player::Cross.get_opponent().get_opponent(), Player::Cross);
    assert_eq!(Player::Circle.get_opponent().get_opponent(), Player::Circle);
}

#[test]
fn toggle_hands_the_turn_over() {
    let mut players = Players { current: Player::Circle, cross_is_ai: true, circle_is_ai: false };
    players.toggle();
    assert_eq!(players.current, Player::Cross);
    players.toggle();
    assert_eq!(players.current, Player::Circle);
    assert!(players.cross_is_ai);
    assert!(!players.circle_is_ai);
}

#[test]
fn current_is_ai_follows_the_current_player() {
    let mut players = Players { current: Player::Cross, cross_is_ai: true, circle_is_ai: false };
    assert!(players.current_is_ai());
    players.toggle();
    assert!(!players.current_is_ai());
    players.current = Player::Empty;
    assert!(!players.current_is_ai());
}

#[test]
fn get_next_move_hands_back_the_human_move() {
    let players = Players { current: Player::Cross, cross_is_ai: false, circle_is_ai: true };
    let board = Board::new();
    let chosen = Move::new(1, 2);
    let m = players.get_next_move(&board, chosen);
    assert_eq!((m.x, m.y), (1, 2));
}

#[test]
fn get_next_move_asks_the_search_for_the_computer() {
    let players = Players { current: Player::Cross, cross_is_ai: true, circle_is_ai: false };
    let board = Board::new();
    let m = players.get_next_move(&board, Move::new(1, 2));
    let expected = best_move(&board, Player::Cross);
    assert_eq!((m.x, m.y), (expected.x, expected.y));
}

#[test]
fn get_ai_move_matches_best_move() {
    let players = Players { current: Player::Circle, cross_is_ai: false, circle_is_ai: true };
    let mut board = Board::new();
    board.set_field(&Move::new(0, 0), Player::Cross);
    let m = players.get_ai_move(&board);
    let expected = best_move(&board, Player::Circle);
    assert_eq!((m.x, m.y), (expected.x, expected.y));
    assert_eq!(board.get_field(&m), Player::Empty);
}

#[test]
fn random_opening_move_follows_the_seed() {
    let m0 = Players::get_random_move(0);
    assert_eq!((m0.x, m0.y), (2, 2));
    let m1 = Players::get_random_move(1);
    assert_eq!((m1.x, m1.y), (2, 0));
    let m2 = Players::get_random_move(2);
    assert_eq!((m2.x, m2.y), (0, 2));
    let m3 = Players::get_random_move(7);
    assert_eq!((m3.x, m3.y), (0, 0));
}

#[test]
fn parse_move_reads_letter_and_digit() {
    let m = parse_move(&chars_of("a1")).unwrap();
    assert_eq!((m.x, m.y), (0, 0));
    let m = parse_move(&chars_of("B2")).unwrap();
    assert_eq!((m.x, m.y), (1, 1));
    let m = parse_move(&chars_of("c3")).unwrap();
    assert_eq!((m.x, m.y), (2, 2));
    let m = parse_move(&chars_of("C1")).unwrap();
    assert_eq!((m.x, m.y), (2, 0));
}

#[test]
fn parse_move_rejects_bad_entries() {
    assert_eq!(parse_move(&chars_of("")), None);
    assert_eq!(parse_move(&chars_of("a")), None);
    assert_eq!(parse_move(&chars_of("d1")), None);
    assert_eq!(parse_move(&chars_of("a4")), None);
    assert_eq!(parse_move(&chars_of("a0")), None);
    assert_eq!(parse_move(&chars_of("11")), None);
    assert_eq!(parse_move(&chars_of("a12")), None);
}
