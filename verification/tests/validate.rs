//! End-to-end validation of whole recorded games.

use checkers::parse::{parse_moves, ParseError, ParseErrorKind};
use checkers::text::validate_input;

#[test]
fn red() {
    let input = "1,2,0,3\n2,5,1,4\n2,1,1,2\n6,5,5,4\n7,2,6,3\n5,6,6,5\n3,2,4,3\n3,6,2,5\n1,0,2,1\n2,7,3,6\n6,3,7,4\n5,4,3,2\n3,2,1,0\n7,4,5,6\n4,5,5,4\n4,1,3,2\n3,6,4,5\n5,2,4,3\n7,6,6,5\n3,0,2,1\n1,4,2,3\n6,1,7,2\n0,5,1,4\n7,2,6,3\n5,4,7,2\n7,0,6,1\n2,5,3,4\n0,3,2,5\n6,5,7,4\n3,2,1,4\n7,4,6,3\n6,1,5,2\n1,6,0,5\n2,1,3,2\n6,3,4,1\n2,5,3,6\n6,7,7,6\n1,2,0,3\n4,5,5,4\n3,6,2,7\n0,5,2,3\n0,1,1,2\n4,1,3,0\n5,0,6,1\n7,6,6,5\n6,1,5,2\n2,3,0,1\n3,2,2,3\n5,4,3,2\n0,3,1,4\n3,2,4,1\n2,3,4,5\n6,5,5,4\n5,2,4,3\n4,1,5,0\n4,5,3,6\n4,7,6,5\n1,4,0,5\n5,4,3,2\n0,5,1,6\n0,7,2,5\n3,6,4,7\n7,2,6,1\n";
    let answer = validate_input(input, "red.txt");
    assert_eq!(answer.unwrap().as_str(), "red.txt - red");
}

#[test]
fn white() {
    let input = "7,2,6,3\n4,5,5,4\n6,3,4,5\n3,6,5,4\n1,2,2,3\n4,7,3,6\n2,3,1,4\n6,5,7,4\n6,1,7,2\n7,6,6,5\n7,0,6,1\n5,4,4,3\n7,2,6,3\n2,5,0,3\n6,1,7,2\n5,6,4,5\n3,2,5,4\n5,4,7,6\n4,5,3,4\n0,1,1,2\n3,6,2,5\n1,2,2,3\n6,7,5,6\n2,3,4,5\n4,5,6,7\n0,3,1,2\n1,0,0,1\n0,5,1,4\n0,1,2,3\n2,3,0,5\n2,5,3,4\n5,2,4,3\n1,6,2,5\n6,3,5,4\n7,4,6,3\n0,5,1,6\n3,4,5,2\n5,4,6,5\n5,2,6,1\n4,1,3,2\n6,1,7,0\n7,2,5,4\n2,7,0,5\n2,1,1,2\n0,7,1,6\n3,2,2,3\n0,5,1,4\n3,0,4,1\n1,4,3,2\n1,2,2,3\n1,6,0,5\n6,5,5,6\n3,2,2,1\n5,4,6,5\n2,5,1,4\n5,6,4,7\n2,1,3,0\n4,1,5,2\n1,4,3,2\n5,2,4,3\n3,2,4,1\n5,0,3,2\n0,5,1,4\n4,3,3,4\n1,4,0,3\n6,5,5,6\n0,3,1,2\n3,4,4,5\n1,2,2,1\n4,5,3,6\n2,1,1,0\n3,6,2,7\n";
    let answer = validate_input(input, "white.txt");
    assert_eq!(answer.unwrap().as_str(), "white.txt - white");
}

#[test]
fn illegal_move() {
    let input = "7,2,6,3\n4,5,5,4\n3,2,2,3\n0,5,1,4\n4,1,3,2\n6,5,7,4\n5,2,4,3\n5,6,6,5\n5,0,4,1\n4,7,5,6\n6,1,5,2\n5,6,4,5\n1,2,0,3\n2,5,3,4\n1,0,0,5\n";
    let answer = validate_input(input, "illegal_move.txt");
    assert_eq!(
        answer.unwrap().as_str(),
        "illegal_move.txt - line 15 illegal move: 1,0,0,5"
    );
}

#[test]
fn incomplete() {
    let input = "1,2,2,3\n2,5,3,4\n";
    let answer = validate_input(input, "incomplete.txt");
    assert_eq!(answer.unwrap().as_str(), "incomplete.txt - incomplete game");
}

#[test]
fn tie_when_counts_equal_and_no_moves_remain() {
    let input = "1,2,2,3\n4,5,3,4\n7,2,6,3\n3,4,1,2\n3,2,2,3\n2,5,1,4\n6,3,5,4\n3,6,2,5\n5,2,6,3\n2,5,3,4\n4,1,5,2\n1,4,3,2\n6,3,7,4\n5,6,4,5\n5,2,6,3\n6,7,5,6\n6,1,5,2\n1,6,2,5\n5,0,6,1\n2,7,1,6\n6,1,7,2\n6,5,4,3\n4,3,6,1\n6,3,5,4\n3,4,2,3\n3,0,4,1\n2,5,1,4\n2,1,0,3\n0,3,2,5\n2,3,1,2\n7,2,6,3\n7,6,6,5\n0,1,2,3\n6,1,5,0\n1,0,0,1\n0,5,1,4\n2,5,3,6\n4,5,3,4\n7,0,6,1\n3,2,2,1\n2,3,0,5\n0,5,2,7\n2,1,3,0\n0,1,1,2\n3,4,4,3\n6,1,7,2\n4,3,3,2\n5,4,7,6\n0,7,1,6\n1,2,0,3\n1,6,2,5\n6,3,5,4\n5,6,4,5\n7,4,6,5\n2,5,1,4\n6,5,5,6\n4,7,2,5\n7,6,6,7\n2,5,3,4\n5,6,4,7\n4,5,6,3\n7,2,5,4\n3,4,4,3\n5,4,6,5\n3,2,2,1\n4,1,5,2\n1,4,2,3\n6,5,5,6\n2,3,3,2\n0,3,1,4\n4,3,6,1\n1,4,2,5\n6,1,7,0\n2,5,1,6\n2,1,1,0\n1,6,0,7\n3,2,2,1\n";
    let answer = validate_input(input, "tie.txt");
    assert_eq!(answer.unwrap().as_str(), "tie.txt - tie");
}

#[test]
fn second_consecutive_move_must_both_be_jumps() {
    let input = "1,2,2,3\n2,3,3,4";
    let answer = validate_input(input, "a");
    assert_eq!(answer.unwrap().as_str(), "a - line 2 illegal move: 2,3,3,4");
}

#[test]
fn turn_cannot_pass_while_a_further_jump_remains() {
    let input = "7,2,6,3\n4,5,5,4\n6,3,4,5\n3,6,5,4\n1,2,2,3\n4,7,3,6\n2,3,1,4\n6,5,7,4\n6,1,7,2\n7,6,6,5\n7,0,6,1\n5,4,4,3\n7,2,6,3\n2,5,0,3\n6,1,7,2\n5,6,4,5\n3,2,5,4\n6,7,7,6\n";
    let answer = validate_input(input, "b");
    assert_eq!(answer.unwrap().as_str(), "b - line 18 illegal move: 6,7,7,6");
}

#[test]
fn out_of_range_destination_is_illegal_verbatim() {
    let input = "1,2,2,8";
    let answer = validate_input(input, "c");
    assert_eq!(answer.unwrap().as_str(), "c - line 1 illegal move: 1,2,2,8");
}

#[test]
fn negative_coordinate_is_illegal_verbatim() {
    let input = "-1,2,0,3";
    let answer = validate_input(input, "d");
    assert_eq!(answer.unwrap().as_str(), "d - line 1 illegal move: -1,2,0,3");
}

#[test]
fn origin_not_held_by_mover_is_illegal() {
    let input = "0,5,1,4";
    let answer = validate_input(input, "e");
    assert_eq!(answer.unwrap().as_str(), "e - line 1 illegal move: 0,5,1,4");
}

#[test]
fn extreme_coordinates_parse_but_play_illegally() {
    let input = "-2147483648,0,0,2147483647";
    let answer = validate_input(input, "f");
    assert_eq!(
        answer.unwrap().as_str(),
        "f - line 1 illegal move: -2147483648,0,0,2147483647"
    );
}

#[test]
fn crlf_line_endings_are_tolerated() {
    let input = "1,2,2,3\r\n2,5,3,4\r\n";
    let answer = validate_input(input, "g");
    assert_eq!(answer.unwrap().as_str(), "g - incomplete game");
}

#[test]
fn wrong_field_count_is_a_parse_error() {
    let err = parse_moves("1,2,3").unwrap_err();
    assert_eq!(err.line, 1);
    assert_eq!(err.text.as_str(), "1,2,3");
    assert!(matches!(err.kind, ParseErrorKind::WrongCount));
}

#[test]
fn non_numeric_field_is_a_parse_error() {
    let input = "1,2,2,3\n1,2,x,4";
    let err: ParseError = validate_input(input, "h").unwrap_err();
    assert_eq!(err.line, 2);
    assert_eq!(err.text.as_str(), "1,2,x,4");
    match err.kind {
        ParseErrorKind::NotANumber(tok) => assert_eq!(tok.as_str(), "x"),
        ParseErrorKind::WrongCount => panic!("wrong error kind"),
    }
}

#[test]
fn numeral_out_of_i32_range_is_a_parse_error() {
    let err = parse_moves("2147483648,0,0,0").unwrap_err();
    assert_eq!(err.line, 1);
    match err.kind {
        ParseErrorKind::NotANumber(tok) => assert_eq!(tok.as_str(), "2147483648"),
        ParseErrorKind::WrongCount => panic!("wrong error kind"),
    }
}

#[test]
fn empty_input_is_a_parse_error() {
    let err = parse_moves("").unwrap_err();
    assert_eq!(err.line, 1);
    match err.kind {
        ParseErrorKind::NotANumber(tok) => assert_eq!(tok.as_str(), ""),
        ParseErrorKind::WrongCount => panic!("wrong error kind"),
    }
}

