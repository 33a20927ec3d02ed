//! Rendering verdicts as text and validating a whole textual record.

use vstd::prelude::*;

use crate::board::{cell_at, initial_grid, Board};
use crate::game::{datas, spec_play, Game, Validation, Verdict};
use crate::moves::{Move, MoveData};
use crate::parse::{
    all_lines_ok, parse_error_describes, parse_moves, records_of, ParseError,
};
use crate::player::{spec_name, Player};

verus! {

/// The digit character of a value below ten.
pub open spec fn digit_char(d: int) -> char {
    if d == 0 {
        '0'
    } else if d == 1 {
        '1'
    } else if d == 2 {
        '2'
    } else if d == 3 {
        '3'
    } else if d == 4 {
        '4'
    } else if d == 5 {
        '5'
    } else if d == 6 {
        '6'
    } else if d == 7 {
        '7'
    } else if d == 8 {
        '8'
    } else {
        '9'
    }
}

/// The decimal numeral of a nonnegative value, most significant digit
/// first.
pub open spec fn dec_digits(n: int) -> Seq<char>
    decreases n,
{
    if n < 10 {
        seq![digit_char(n)]
    } else {
        dec_digits(n / 10) + seq![digit_char(n % 10)]
    }
}

fn digit_str(d: usize) -> (r: &'static str)
    requires
        d < 10,
    ensures
        r@ == dec_digits(d as int),
{
    let r: &'static str = if d == 0 {
        "0"
    } else if d == 1 {
        "1"
    } else if d == 2 {
        "2"
    } else if d == 3 {
        "3"
    } else if d == 4 {
        "4"
    } else if d == 5 {
        "5"
    } else if d == 6 {
        "6"
    } else if d == 7 {
        "7"
    } else if d == 8 {
        "8"
    } else {
        "9"
    };
    proof {
        reveal_strlit("0");
        reveal_strlit("1");
        reveal_strlit("2");
        reveal_strlit("3");
        reveal_strlit("4");
        reveal_strlit("5");
        reveal_strlit("6");
        reveal_strlit("7");
        reveal_strlit("8");
        reveal_strlit("9");
        assert(r@ =~= dec_digits(d as int));
    }
    r
}

/// Writes a number as its decimal numeral.
pub fn usize_to_string(n: usize) -> (r: String)
    ensures
        r@ == dec_digits(n as int),
    decreases n,
{
    if n < 10 {
        String::from_str(digit_str(n))
    } else {
        let high: String = usize_to_string(n / 10);
        let r = high.concat(digit_str(n % 10));
        r
    }
}

/// The display line for an illegal move: its 1-based line number and the
/// raw text it was read from, verbatim.
pub open spec fn illegal_message(m: MoveData) -> Seq<char> {
    "line "@ + dec_digits(m.line) + " illegal move: "@ + m.src
}

/// The display form of an abstract verdict over the record it judged.
pub open spec fn verdict_message(v: Verdict, ms: Seq<MoveData>) -> Seq<char> {
    match v {
        Verdict::Illegal(i) => illegal_message(ms[i]),
        Verdict::IncompleteGame => "incomplete game"@,
        Verdict::Tie => "tie"@,
        Verdict::Winner(p) => spec_name(p),
    }
}

impl<'a> Validation<'a> {
    /// The verdict's one-line display form: `"line <n> illegal move: <text>"`,
    /// `"incomplete game"`, `"tie"`, or the winner's lowercase name.
    pub fn message(&self) -> (r: String)
        ensures
            r@ == match *self {
                Validation::Illegal(m) => illegal_message(m@),
                Validation::IncompleteGame => "incomplete game"@,
                Validation::Tie => "tie"@,
                Validation::Winner(p) => spec_name(p),
            },
    {
        match self {
            Validation::Illegal(m) => {
                let s = String::from_str("line ");
                let num = usize_to_string(m.line);
                let s = s.concat(num.as_str());
                let s = s.concat(" illegal move: ");
                let s = s.concat(m.src.as_str());
                proof {
                    assert(s@ =~= illegal_message(m@));
                }
                s
            },
            Validation::IncompleteGame => String::from_str("incomplete game"),
            Validation::Tie => String::from_str("tie"),
            Validation::Winner(p) => String::from_str(p.name()),
        }
    }
}

/// The two-character mark of one cell: an underscore for an empty cell,
/// `x` for Red, `o` for White, each behind a space.
pub open spec fn cell_mark(c: Option<Player>) -> Seq<char> {
    match c {
        None => " _"@,
        Some(Player::Red) => " x"@,
        Some(Player::White) => " o"@,
    }
}

/// The marks of the first `n` cells of row `y`, left to right.
pub open spec fn row_marks(g: Seq<Option<Player>>, y: int, n: int) -> Seq<char>
    decreases n,
{
    if n <= 0 {
        Seq::empty()
    } else {
        row_marks(g, y, n - 1) + cell_mark(cell_at(g, n - 1, y))
    }
}

/// The first `n` rows of the board's display, each eight marks and a
/// newline, row `y = 0` first.
pub open spec fn grid_marks(g: Seq<Option<Player>>, n: int) -> Seq<char>
    decreases n,
{
    if n <= 0 {
        Seq::empty()
    } else {
        grid_marks(g, n - 1) + row_marks(g, n - 1, 8) + "\n"@
    }
}

impl Board {
    /// The board drawn as eight rows of cell marks, row `y = 0` first:
    /// `_` for an empty cell, `x` for Red, `o` for White.
    pub fn render(&self) -> (r: String)
        requires
            self.wf(),
        ensures
            r@ == grid_marks(self@, 8),
    {
        let mut s = String::new();
        for y in 0..8usize
            invariant
                self.wf(),
                s@ == grid_marks(self@, y as int),
        {
            for x in 0..8usize
                invariant
                    self.wf(),
                    y < 8,
                    s@ == grid_marks(self@, y as int) + row_marks(self@, y as int, x as int),
            {
                let mark: &'static str = match self.get(x, y) {
                    None => " _",
                    Some(Player::Red) => " x",
                    Some(Player::White) => " o",
                };
                proof {
                    reveal_strlit(" _");
                    reveal_strlit(" x");
                    reveal_strlit(" o");
                }
                s.append(mark);
            }
            proof {
                reveal_strlit("\n");
            }
            s.append("\n");
        }
        s
    }
}

/// Validates a whole textual record against the rules and writes the final
/// answer: `"<name> - <verdict>"`, where `name` is the record's display
/// name, echoed verbatim. A record with a malformed line is a parse error,
/// never a verdict.
pub fn validate_input(input: &str, name: &str) -> (r: Result<String, ParseError>)
    ensures
        r is Ok <==> all_lines_ok(input@),
        r matches Ok(out) ==> out@ == name@ + " - "@ + verdict_message(
            spec_play(initial_grid(), Player::White, records_of(input@), 0).verdict,
            records_of(input@),
        ),
        r matches Err(e) ==> parse_error_describes(input@, e),
{
    let moves: Vec<Move> = match parse_moves(input) {
        Err(e) => {
            return Err(e);
        },
        Ok(v) => v,
    };
    let mut game = Game::new(&moves);
    let verdict = game.validate();
    let msg: String = verdict.message();
    let s = String::from_str(name);
    let s = s.concat(" - ");
    let s = s.concat(msg.as_str());
    proof {
        assert(s@ =~= name@ + " - "@ + msg@);
    }
    Ok(s)
}

} // verus!
