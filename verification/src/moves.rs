//! Board coordinates and the geometry of a single proposed move.

use vstd::prelude::*;

use crate::player::{forward, Player};

verus! {

/// A pair of board coordinates. A cell reference is on the board when both
/// coordinates lie in `0..=7`; values outside that range can be written in a
/// record, and consumers reject them as illegal.
#[derive(Debug, PartialEq, Eq, Structural, Copy, Clone)]
pub struct Position {
    pub x: i32,
    pub y: i32,
}

/// One recorded move: an origin and a destination cell, together with the
/// provenance of the record (its 1-based line number and the raw text it was
/// read from) for diagnostic messages. Provenance has no game meaning.
#[derive(Debug)]
pub struct Move {
    pub initial: Position,
    pub destination: Position,
    pub line: usize,
    pub src: String,
}

/// The mathematical content of a [`Move`]: its coordinates as unbounded
/// integers and its source text as a character sequence.
pub ghost struct MoveData {
    pub init_x: int,
    pub init_y: int,
    pub dest_x: int,
    pub dest_y: int,
    pub line: int,
    pub src: Seq<char>,
}

impl View for Move {
    type V = MoveData;

    open spec fn view(&self) -> MoveData {
        MoveData {
            init_x: self.initial.x as int,
            init_y: self.initial.y as int,
            dest_x: self.destination.x as int,
            dest_y: self.destination.y as int,
            line: self.line as int,
            src: self.src@,
        }
    }
}

/// Both coordinates of the move's origin lie on the board.
pub open spec fn origin_on_board(m: MoveData) -> bool {
    &&& 0 <= m.init_x <= 7
    &&& 0 <= m.init_y <= 7
}

/// Both endpoints of the move lie on the board.
pub open spec fn endpoints_on_board(m: MoveData) -> bool {
    &&& origin_on_board(m)
    &&& 0 <= m.dest_x <= 7
    &&& 0 <= m.dest_y <= 7
}

/// The move has the shape of a simple step for `p`: one column to either
/// side, one row forward.
pub open spec fn step_shape(m: MoveData, p: Player) -> bool {
    &&& (m.dest_x - m.init_x == 1 || m.dest_x - m.init_x == -1)
    &&& m.dest_y - m.init_y == forward(p)
}

/// The move has the shape of a jump for `p`: two columns to either side,
/// two rows forward.
pub open spec fn jump_shape(m: MoveData, p: Player) -> bool {
    &&& (m.dest_x - m.init_x == 2 || m.dest_x - m.init_x == -2)
    &&& m.dest_y - m.init_y == 2 * forward(p)
}

/// The move is geometrically valid for `p`: both endpoints on the board and
/// either a step or a jump shape in `p`'s forward direction.
pub open spec fn spec_is_valid(m: MoveData, p: Player) -> bool {
    &&& endpoints_on_board(m)
    &&& (step_shape(m, p) || jump_shape(m, p))
}

/// The cell strictly between the endpoints of a jump-shaped move.
pub open spec fn jumped_cell(m: MoveData, p: Player) -> (int, int) {
    (if m.dest_x > m.init_x {
        m.init_x + 1
    } else {
        m.init_x - 1
    }, m.init_y + forward(p))
}

impl Move {
    /// Whether this move is geometrically legal for `player`: both endpoints
    /// on the board, and a step or jump shape in the player's direction.
    pub fn is_valid(&self, player: &Player) -> (r: bool)
        ensures
            r == spec_is_valid(self@, *player),
    {
        if self.initial.x < 0 || self.initial.x > 7 || self.initial.y < 0 || self.initial.y > 7
            || self.destination.x < 0 || self.destination.x > 7 || self.destination.y < 0
            || self.destination.y > 7 {
            return false;
        }
        let x_diff: i32 = self.destination.x - self.initial.x;
        let y_diff: i32 = self.destination.y - self.initial.y;
        match player {
            Player::Red => {
                ((x_diff == 1 || x_diff == -1) && y_diff == -1) || ((x_diff == 2 || x_diff == -2)
                    && y_diff == -2)
            },
            Player::White => {
                ((x_diff == 1 || x_diff == -1) && y_diff == 1) || ((x_diff == 2 || x_diff == -2)
                    && y_diff == 2)
            },
        }
    }

    /// Whether this move has the shape of a jump for `player`, regardless of
    /// whether its endpoints are on the board.
    pub fn is_jump(&self, player: &Player) -> (r: bool)
        ensures
            r == jump_shape(self@, *player),
    {
        let x_diff: i64 = self.destination.x as i64 - self.initial.x as i64;
        let y_diff: i64 = self.destination.y as i64 - self.initial.y as i64;
        match player {
            Player::Red => (x_diff == 2 || x_diff == -2) && y_diff == -2,
            Player::White => (x_diff == 2 || x_diff == -2) && y_diff == 2,
        }
    }

    /// The cell a jump passes over: defined exactly when the move has a jump
    /// shape for `player`, and then the single cell between origin and
    /// destination.
    pub fn jumped_position(&self, player: &Player) -> (r: Option<Position>)
        ensures
            jump_shape(self@, *player) ==> (r matches Some(p) && p.x as int == jumped_cell(
                self@,
                *player,
            ).0 && p.y as int == jumped_cell(self@, *player).1),
            !jump_shape(self@, *player) ==> r is None,
    {
        if self.is_jump(player) {
            let x: i32 = if self.destination.x > self.initial.x {
                self.initial.x + 1
            } else {
                self.initial.x - 1
            };
            let y: i32 = match player {
                Player::Red => self.initial.y - 1,
                Player::White => self.initial.y + 1,
            };
            Some(Position { x, y })
        } else {
            None
        }
    }
}

} // verus!
