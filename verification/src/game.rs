//! Replaying a recorded move sequence and classifying its outcome.

use vstd::prelude::*;

use crate::board::{
    apply_move, cell_at, has_any_move, in_bounds, initial_grid, jump_possible_from, move_legal,
    piece_count, Board,
};
use crate::moves::{jump_shape, Move, MoveData, Position};
use crate::player::{opponent, Player};

verus! {

/// The terminal classification of a fully replayed record.
pub enum Validation<'a> {
    /// The cited move broke a rule; no later move was examined.
    Illegal(&'a Move),
    /// The record ran out while both sides still had a legal move.
    IncompleteGame,
    /// The record is over and both sides hold equally many pieces.
    Tie,
    /// The record is over and this side holds more pieces.
    Winner(Player),
}

/// A verdict in mathematical form: an illegal move is named by its index
/// in the record.
pub ghost enum Verdict {
    Illegal(int),
    IncompleteGame,
    Tie,
    Winner(Player),
}

/// Where a replay ends up: its verdict, and the grid and player to move at
/// the moment it stopped.
pub ghost struct Outcome {
    pub verdict: Verdict,
    pub grid: Seq<Option<Player>>,
    pub turn: Player,
}

/// The mathematical content of a move list.
pub open spec fn datas(ms: Seq<Move>) -> Seq<MoveData> {
    ms.map_values(|m: Move| m@)
}

/// The occupant of a cited cell, where a cell off the board counts as empty:
/// a move played from such a cell is illegal, never an error.
pub open spec fn occupant(g: Seq<Option<Player>>, x: int, y: int) -> Option<Player> {
    if in_bounds(x, y) {
        cell_at(g, x, y)
    } else {
        None
    }
}

/// The verdict once the record is exhausted: the game is incomplete while
/// both sides can still move; otherwise the side with more pieces wins, and
/// equal counts tie.
pub open spec fn end_verdict(g: Seq<Option<Player>>) -> Verdict {
    if has_any_move(g, Player::Red) && has_any_move(g, Player::White) {
        Verdict::IncompleteGame
    } else if piece_count(g, Player::White) == piece_count(g, Player::Red) {
        Verdict::Tie
    } else if piece_count(g, Player::White) > piece_count(g, Player::Red) {
        Verdict::Winner(Player::White)
    } else {
        Verdict::Winner(Player::Red)
    }
}

/// Replays `ms` from index `i` on grid `g` with `p` to move.
///
/// Each step applies move `i` (an illegal one stops the replay naming it),
/// then reads the turn off the next move's origin: a cell that is empty or
/// off the board cannot be played; the same side may follow up only when
/// both moves are jumps; the turn may pass to the opponent only once the
/// mover has no further capture from the landing square.
pub open spec fn spec_play(g: Seq<Option<Player>>, p: Player, ms: Seq<MoveData>, i: int) -> Outcome
    decreases ms.len() - i,
{
    if i < 0 || i >= ms.len() {
        Outcome { verdict: end_verdict(g), grid: g, turn: p }
    } else if !move_legal(g, p, ms[i]) {
        Outcome { verdict: Verdict::Illegal(i), grid: g, turn: p }
    } else {
        let g2 = apply_move(g, p, ms[i]);
        if i + 1 == ms.len() {
            Outcome { verdict: end_verdict(g2), grid: g2, turn: p }
        } else {
            match occupant(g2, ms[i + 1].init_x, ms[i + 1].init_y) {
                None => Outcome { verdict: Verdict::Illegal(i + 1), grid: g2, turn: p },
                Some(q) => {
                    if q == p {
                        if jump_shape(ms[i], p) && jump_shape(ms[i + 1], p) {
                            spec_play(g2, p, ms, i + 1)
                        } else {
                            Outcome { verdict: Verdict::Illegal(i + 1), grid: g2, turn: p }
                        }
                    } else {
                        if jump_shape(ms[i], p) && jump_possible_from(
                            g2,
                            p,
                            ms[i].dest_x,
                            ms[i].dest_y,
                        ) {
                            Outcome { verdict: Verdict::Illegal(i + 1), grid: g2, turn: p }
                        } else {
                            spec_play(g2, opponent(p), ms, i + 1)
                        }
                    }
                },
            }
        }
    }
}

/// Drives one recorded move sequence against a board, inferring whose turn
/// it is from the record itself, and produces the final verdict.
#[derive(Debug)]
pub struct Game<'a> {
    current_player: Player,
    board: Board,
    moves: &'a Vec<Move>,
    debug: bool,
}

impl<'a> Game<'a> {
    /// The side to move.
    pub closed spec fn spec_turn(&self) -> Player {
        self.current_player
    }

    /// The grid of the owned board.
    pub closed spec fn spec_board(&self) -> Seq<Option<Player>> {
        self.board@
    }

    /// The borrowed record.
    pub closed spec fn spec_moves(&self) -> Seq<Move> {
        self.moves@
    }

    /// The diagnostic toggle; it has no effect on the verdict.
    pub closed spec fn spec_debug(&self) -> bool {
        self.debug
    }

    /// The game is well formed: its board is.
    pub closed spec fn wf(&self) -> bool {
        self.board.wf()
    }

    /// A game over `moves`, starting from the fixed initial layout with
    /// White to move.
    pub fn new(moves: &'a Vec<Move>) -> (r: Self)
        ensures
            r.wf(),
            r.spec_turn() == Player::White,
            r.spec_board() == initial_grid(),
            r.spec_moves() == moves@,
            !r.spec_debug(),
    {
        Self { current_player: Player::White, board: Board::new(), moves, debug: false }
    }

    /// Flips the diagnostic toggle and changes nothing else.
    pub fn toggle_debug(&mut self)
        ensures
            final(self).spec_debug() == !old(self).spec_debug(),
            final(self).spec_turn() == old(self).spec_turn(),
            final(self).spec_board() == old(self).spec_board(),
            final(self).spec_moves() == old(self).spec_moves(),
            final(self).wf() == old(self).wf(),
    {
        self.debug = !self.debug;
    }

    fn next_player(&mut self)
        ensures
            final(self).spec_turn() == opponent(old(self).spec_turn()),
            final(self).spec_board() == old(self).spec_board(),
            final(self).spec_moves() == old(self).spec_moves(),
            final(self).spec_debug() == old(self).spec_debug(),
            final(self).moves == old(self).moves,
            final(self).wf() == old(self).wf(),
    {
        if let Player::White = self.current_player {
            self.current_player = Player::Red
        } else {
            self.current_player = Player::White
        }
    }

    /// Replays the whole record and returns its verdict, leaving the board
    /// and the turn as they stood when the replay stopped. The verdict is
    /// exactly the one [`spec_play`] gives the record from the game's
    /// starting state; an illegal verdict cites the offending move itself.
    pub fn validate(&mut self) -> (r: Validation<'a>)
        requires
            old(self).wf(),
        ensures
            final(self).wf(),
            final(self).spec_moves() == old(self).spec_moves(),
            final(self).spec_debug() == old(self).spec_debug(),
            ({
                let o = spec_play(
                    old(self).spec_board(),
                    old(self).spec_turn(),
                    datas(old(self).spec_moves()),
                    0,
                );
                &&& final(self).spec_board() == o.grid
                &&& final(self).spec_turn() == o.turn
                &&& match o.verdict {
                    Verdict::Illegal(i) => {
                        &&& 0 <= i < old(self).spec_moves().len()
                        &&& r matches Validation::Illegal(m) && *m == old(self).spec_moves()[i]
                    },
                    Verdict::IncompleteGame => r is IncompleteGame,
                    Verdict::Tie => r is Tie,
                    Verdict::Winner(p) => (r matches Validation::Winner(q) && q == p),
                }
            }),
    {
        let moves: &'a Vec<Move> = self.moves;
        let n: usize = moves.len();
        let ghost ms = datas(moves@);
        let ghost g0 = self.spec_board();
        let ghost t0 = self.spec_turn();
        let mut i: usize = 0;
        while i < n
            invariant
                self.wf(),
                self.moves == moves,
                self.spec_debug() == old(self).spec_debug(),
                moves == old(self).moves,
                g0 == old(self).spec_board(),
                t0 == old(self).spec_turn(),
                n == moves@.len(),
                ms == datas(moves@),
                i <= n,
                spec_play(g0, t0, ms, 0) == spec_play(
                    self.spec_board(),
                    self.spec_turn(),
                    ms,
                    i as int,
                ),
            decreases n - i,
        {
            let mov: &'a Move = &moves[i];
            let ghost g_here = self.spec_board();
            let ghost t_here = self.spec_turn();
            proof {
                assert(ms[i as int] == moves@[i as int]@);
            }
            let accepted: bool = self.board.make_move(&self.current_player, mov);
            if !accepted {
                return Validation::Illegal(mov);
            }
            if i + 1 < n {
                let next_mov: &'a Move = &moves[i + 1];
                let o: Option<Player> = if 0 <= next_mov.initial.x && next_mov.initial.x < 8 && 0
                    <= next_mov.initial.y && next_mov.initial.y < 8 {
                    self.board.get(next_mov.initial.x as usize, next_mov.initial.y as usize)
                } else {
                    None
                };
                match o {
                    None => {
                        return Validation::Illegal(next_mov);
                    },
                    Some(player) => {
                        if player == self.current_player {
                            if !(mov.is_jump(&player) && next_mov.is_jump(&player)) {
                                return Validation::Illegal(next_mov);
                            }
                        } else {
                            let landing = Move {
                                initial: Position {
                                    x: mov.destination.x,
                                    y: mov.destination.y,
                                },
                                destination: Position { x: 0, y: 0 },
                                line: 0,
                                src: String::new(),
                            };
                            if mov.is_jump(&self.current_player) && self.board.is_jumping_possible(
                                &self.current_player,
                                &landing,
                            ) {
                                return Validation::Illegal(next_mov);
                            }
                            self.next_player();
                        }
                    },
                }
            }
            i = i + 1;
        }
        if self.board.is_incomplete() {
            return Validation::IncompleteGame;
        }
        let red_score: usize = self.board.red_score();
        let white_score: usize = self.board.white_score();
        if white_score == red_score {
            Validation::Tie
        } else if white_score > red_score {
            Validation::Winner(Player::White)
        } else {
            Validation::Winner(Player::Red)
        }
    }
}

} // verus!
