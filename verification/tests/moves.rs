//! Move geometry, players, numerals and small formatting pieces.

use checkers::moves::{Move, Position};
use checkers::parse::parse_i32;
use checkers::player::Player;
use checkers::text::usize_to_string;

fn mv(ix: i32, iy: i32, dx: i32, dy: i32) -> Move {
    Move {
        initial: Position { x: ix, y: iy },
        destination: Position { x: dx, y: dy },
        line: 1,
        src: String::new(),
    }
}

#[test]
fn steps_and_jumps_are_valid_in_the_forward_direction() {
    assert!(mv(1, 2, 2, 3).is_valid(&Player::White));
    assert!(mv(1, 2, 0, 3).is_valid(&Player::White));
    assert!(mv(1, 2, 3, 4).is_valid(&Player::White));
    assert!(mv(2, 5, 3, 4).is_valid(&Player::Red));
    assert!(mv(2, 5, 0, 3).is_valid(&Player::Red));
}

#[test]
fn sideways_backward_and_long_moves_are_invalid() {
    assert!(!mv(1, 2, 3, 2).is_valid(&Player::White));
    assert!(!mv(1, 2, 2, 1).is_valid(&Player::White));
    assert!(!mv(1, 2, 4, 5).is_valid(&Player::White));
    assert!(!mv(2, 5, 3, 6).is_valid(&Player::Red));
    assert!(!mv(2, 5, 2, 4).is_valid(&Player::Red));
}

#[test]
fn endpoints_off_the_board_are_invalid() {
    assert!(!mv(7, 2, 8, 3).is_valid(&Player::White));
    assert!(!mv(-1, 2, 0, 3).is_valid(&Player::White));
    assert!(!mv(0, 7, 1, 8).is_valid(&Player::White));
    assert!(!mv(0, -1, 1, 0).is_valid(&Player::White));
}

#[test]
fn a_jump_is_two_cells_in_the_forward_direction() {
    assert!(mv(1, 2, 3, 4).is_jump(&Player::White));
    assert!(mv(3, 4, 1, 2).is_jump(&Player::Red));
    assert!(!mv(1, 2, 2, 3).is_jump(&Player::White));
    assert!(!mv(1, 2, 3, 4).is_jump(&Player::Red));
}

#[test]
fn the_jumped_cell_is_the_midpoint() {
    let p = mv(1, 2, 3, 4).jumped_position(&Player::White).unwrap();
    assert_eq!((p.x, p.y), (2, 3));
    let p = mv(2, 5, 0, 3).jumped_position(&Player::Red).unwrap();
    assert_eq!((p.x, p.y), (1, 4));
    assert!(mv(1, 2, 2, 3).jumped_position(&Player::White).is_none());
}

#[test]
fn player_tags_and_names() {
    assert!(Player::Red.is_red());
    assert!(!Player::Red.is_white());
    assert!(Player::White.is_white());
    assert!(!Player::White.is_red());
    assert_eq!(Player::Red.name(), "red");
    assert_eq!(Player::White.name(), "white");
}

#[test]
fn numerals_parse_exactly_as_i32() {
    assert_eq!(parse_i32("0"), Some(0));
    assert_eq!(parse_i32("7"), Some(7));
    assert_eq!(parse_i32("-1"), Some(-1));
    assert_eq!(parse_i32("+42"), Some(42));
    assert_eq!(parse_i32("2147483647"), Some(i32::MAX));
    assert_eq!(parse_i32("-2147483648"), Some(i32::MIN));
    assert_eq!(parse_i32("0012"), Some(12));
    assert_eq!(parse_i32("2147483648"), None);
    assert_eq!(parse_i32("-2147483649"), None);
    assert_eq!(parse_i32("99999999999999999999"), None);
    assert_eq!(parse_i32(""), None);
    assert_eq!(parse_i32("-"), None);
    assert_eq!(parse_i32("+"), None);
    assert_eq!(parse_i32("--1"), None);
    assert_eq!(parse_i32("1 "), None);
    assert_eq!(parse_i32(" 1"), None);
    assert_eq!(parse_i32("1.5"), None);
    assert_eq!(parse_i32("x"), None);
}

#[test]
fn numbers_render_in_decimal() {
    assert_eq!(usize_to_string(0).as_str(), "0");
    assert_eq!(usize_to_string(9).as_str(), "9");
    assert_eq!(usize_to_string(10).as_str(), "10");
    assert_eq!(usize_to_string(907).as_str(), "907");
    assert_eq!(usize_to_string(123456789).as_str(), "123456789");
}
