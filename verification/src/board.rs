//! The 8x8 board: occupancy, applying single moves, jump detection,
//! legal-move availability and piece counts.

use vstd::prelude::*;

use crate::moves::{jump_shape, jumped_cell, spec_is_valid, Move, MoveData};
use crate::player::{forward, opponent, Player};

verus! {

/// Cell `(x, y)` lies on the board.
pub open spec fn in_bounds(x: int, y: int) -> bool {
    &&& 0 <= x < 8
    &&& 0 <= y < 8
}

/// The occupant of cell `(x, y)` in a grid, stored row-major by `x`.
pub open spec fn cell_at(g: Seq<Option<Player>>, x: int, y: int) -> Option<Player> {
    g[x * 8 + y]
}

/// One cell's contribution to a side's piece count.
pub open spec fn cell_count(c: Option<Player>, p: Player) -> int {
    if c == Some(p) {
        1int
    } else {
        0int
    }
}

/// How many of the first `k` cells hold a piece of side `p`.
pub open spec fn count_upto(g: Seq<Option<Player>>, p: Player, k: int) -> int
    decreases k,
{
    if k <= 0 {
        0
    } else {
        count_upto(g, p, k - 1) + cell_count(g[k - 1], p)
    }
}

/// How many cells of the whole grid hold a piece of side `p`.
pub open spec fn piece_count(g: Seq<Option<Player>>, p: Player) -> int {
    count_upto(g, p, 64)
}

/// The occupant of cell `(x, y)` in the fixed starting layout: each side
/// fills its twelve dark squares, White on rows 0..=2 and Red on rows 5..=7.
pub open spec fn initial_cell(x: int, y: int) -> Option<Player> {
    if (x + y) % 2 == 1 && y <= 2 {
        Some(Player::White)
    } else if (x + y) % 2 == 1 && y >= 5 {
        Some(Player::Red)
    } else {
        None
    }
}

/// The starting grid.
pub open spec fn initial_grid() -> Seq<Option<Player>> {
    Seq::new(64, |k: int| initial_cell(k / 8, k % 8))
}

/// Side `p` could jump from `(x, y)` one column toward `side` (`1` or `-1`):
/// the adjacent forward cell that way holds an opposing piece and the cell
/// beyond it is on the board and empty. Probes that leave the board simply
/// fail.
pub open spec fn jump_toward(g: Seq<Option<Player>>, p: Player, x: int, y: int, side: int) -> bool {
    &&& in_bounds(x + side, y + forward(p))
    &&& cell_at(g, x + side, y + forward(p)) == Some(opponent(p))
    &&& in_bounds(x + 2 * side, y + 2 * forward(p))
    &&& cell_at(g, x + 2 * side, y + 2 * forward(p)) is None
}

/// A capture is available to side `p` from cell `(x, y)`.
pub open spec fn jump_possible_from(g: Seq<Option<Player>>, p: Player, x: int, y: int) -> bool {
    jump_toward(g, p, x, y, 1) || jump_toward(g, p, x, y, -1)
}

/// Side `p` could step from `(x, y)` one column toward `side`: the adjacent
/// forward cell that way is on the board and empty.
pub open spec fn step_toward(g: Seq<Option<Player>>, p: Player, x: int, y: int, side: int) -> bool {
    &&& in_bounds(x + side, y + forward(p))
    &&& cell_at(g, x + side, y + forward(p)) is None
}

/// A simple step is available to side `p` from cell `(x, y)`.
pub open spec fn step_possible_from(g: Seq<Option<Player>>, p: Player, x: int, y: int) -> bool {
    step_toward(g, p, x, y, 1) || step_toward(g, p, x, y, -1)
}

/// Side `p` has at least one legal move somewhere on the grid: a piece of
/// theirs with an available step or jump.
pub open spec fn has_any_move(g: Seq<Option<Player>>, p: Player) -> bool {
    exists|x: int, y: int|
        in_bounds(x, y) && #[trigger] cell_at(g, x, y) == Some(p) && (step_possible_from(g, p, x, y)
            || jump_possible_from(g, p, x, y))
}

/// The whole legality test for one move by side `p` on grid `g`:
/// a valid geometric shape, the origin held by `p`, the destination empty,
/// no available capture skipped by a simple step, and a jump passing over
/// an opposing piece.
pub open spec fn move_legal(g: Seq<Option<Player>>, p: Player, m: MoveData) -> bool {
    &&& spec_is_valid(m, p)
    &&& cell_at(g, m.init_x, m.init_y) == Some(p)
    &&& cell_at(g, m.dest_x, m.dest_y) is None
    &&& (!jump_shape(m, p) ==> !jump_possible_from(g, p, m.init_x, m.init_y))
    &&& (jump_shape(m, p) ==> cell_at(g, jumped_cell(m, p).0, jumped_cell(m, p).1) == Some(
        opponent(p),
    ))
}

/// The grid after an accepted move: any jumped piece is removed, the origin
/// is cleared and the destination now holds the mover.
pub open spec fn apply_move(g: Seq<Option<Player>>, p: Player, m: MoveData) -> Seq<Option<Player>> {
    (if jump_shape(m, p) {
        g.update(jumped_cell(m, p).0 * 8 + jumped_cell(m, p).1, None)
    } else {
        g
    }).update(m.init_x * 8 + m.init_y, None).update(m.dest_x * 8 + m.dest_y, Some(p))
}

/// An 8x8 grid of cells, each empty or held by one side, stored row-major
/// by `x`. Its abstract value is the sequence of 64 cells.
#[derive(Debug)]
pub struct Board {
    cells: Vec<Option<Player>>,
}

impl View for Board {
    type V = Seq<Option<Player>>;

    closed spec fn view(&self) -> Seq<Option<Player>> {
        self.cells@
    }
}

impl Board {
    /// The board is well formed: 64 cells, and at most the starting twelve
    /// pieces per side.
    pub open spec fn wf(&self) -> bool {
        &&& self@.len() == 64
        &&& piece_count(self@, Player::Red) <= 12
        &&& piece_count(self@, Player::White) <= 12
    }
}

/// A count over the first `k` cells lies between `0` and `k`.
pub proof fn lemma_count_bounds(g: Seq<Option<Player>>, p: Player, k: int)
    requires
        0 <= k,
    ensures
        0 <= count_upto(g, p, k) <= k,
    decreases k,
{
    if k > 0 {
        lemma_count_bounds(g, p, k - 1);
    }
}

/// Updating cell `j` changes a count over the first `k` cells exactly by the
/// change in that one cell's contribution, and only when `j` is among them.
pub proof fn lemma_count_update(
    g: Seq<Option<Player>>,
    p: Player,
    j: int,
    v: Option<Player>,
    k: int,
)
    requires
        0 <= j < g.len(),
        0 <= k <= g.len(),
    ensures
        count_upto(g.update(j, v), p, k) == if j < k {
            count_upto(g, p, k) - cell_count(g[j], p) + cell_count(v, p)
        } else {
            count_upto(g, p, k)
        },
    decreases k,
{
    if k > 0 {
        lemma_count_update(g, p, j, v, k - 1);
    }
}

impl Board {
    /// A fresh board in the fixed starting layout.
    pub fn new() -> (r: Self)
        ensures
            r.wf(),
            r@ == initial_grid(),
            piece_count(r@, Player::Red) == 12,
            piece_count(r@, Player::White) == 12,
    {
        let mut cells: Vec<Option<Player>> = Vec::new();
        for k in 0..64usize
            invariant
                cells@.len() == k,
                forall|j: int| 0 <= j < k ==> cells@[j] == initial_cell(j / 8, j % 8),
        {
            let x: usize = k / 8;
            let y: usize = k % 8;
            let c: Option<Player> = if (x + y) % 2 == 1 && y <= 2 {
                Some(Player::White)
            } else if (x + y) % 2 == 1 && y >= 5 {
                Some(Player::Red)
            } else {
                None
            };
            cells.push(c);
        }
        let r = Board { cells };
        proof {
            assert(r@ =~= initial_grid());
            lemma_initial_counts();
        }
        r
    }

    /// The occupant of cell `(x, y)`.
    pub fn get(&self, x: usize, y: usize) -> (r: Option<Player>)
        requires
            self.wf(),
            x < 8,
            y < 8,
        ensures
            r == cell_at(self@, x as int, y as int),
    {
        self.cells[8 * x + y]
    }

    fn set(&mut self, x: usize, y: usize, value: Option<Player>)
        requires
            old(self)@.len() == 64,
            x < 8,
            y < 8,
        ensures
            final(self)@ == old(self)@.update(x as int * 8 + y as int, value),
    {
        self.cells.set(8 * x + y, value);
    }

    /// How many cells side `p` currently holds.
    fn score_of(&self, p: Player) -> (r: usize)
        requires
            self.wf(),
        ensures
            r as int == piece_count(self@, p),
    {
        let mut acc: usize = 0;
        for k in 0..64usize
            invariant
                self.wf(),
                acc as int == count_upto(self@, p, k as int),
                acc <= k,
        {
            let c: Option<Player> = self.cells[k];
            if let Some(q) = c {
                if q == p {
                    acc = acc + 1;
                }
            }
        }
        acc
    }

    /// How many pieces Red has left.
    pub fn red_score(&self) -> (r: usize)
        requires
            self.wf(),
        ensures
            r as int == piece_count(self@, Player::Red),
    {
        self.score_of(Player::Red)
    }

    /// How many pieces White has left.
    pub fn white_score(&self) -> (r: usize)
        requires
            self.wf(),
        ensures
            r as int == piece_count(self@, Player::White),
    {
        self.score_of(Player::White)
    }
}

impl Board {
    fn jump_toward_at(&self, p: &Player, x: i32, y: i32, side: i32) -> (r: bool)
        requires
            self.wf(),
            side == 1 || side == -1,
        ensures
            r == jump_toward(self@, *p, x as int, y as int, side as int),
    {
        let f: i64 = if p.is_white() {
            1
        } else {
            -1
        };
        let mx: i64 = x as i64 + side as i64;
        let my: i64 = y as i64 + f;
        if !(0 <= mx && mx < 8 && 0 <= my && my < 8) {
            return false;
        }
        match self.get(mx as usize, my as usize) {
            None => false,
            Some(q) => {
                if q == *p {
                    false
                } else {
                    let jx: i64 = x as i64 + 2 * (side as i64);
                    let jy: i64 = y as i64 + 2 * f;
                    if !(0 <= jx && jx < 8 && 0 <= jy && jy < 8) {
                        false
                    } else {
                        self.get(jx as usize, jy as usize).is_none()
                    }
                }
            },
        }
    }

    fn step_toward_at(&self, p: &Player, x: i32, y: i32, side: i32) -> (r: bool)
        requires
            self.wf(),
            side == 1 || side == -1,
        ensures
            r == step_toward(self@, *p, x as int, y as int, side as int),
    {
        let f: i64 = if p.is_white() {
            1
        } else {
            -1
        };
        let sx: i64 = x as i64 + side as i64;
        let sy: i64 = y as i64 + f;
        if !(0 <= sx && sx < 8 && 0 <= sy && sy < 8) {
            return false;
        }
        self.get(sx as usize, sy as usize).is_none()
    }

    /// Whether a capture is available to `player` from the origin cell of
    /// `mov`, in either diagonal-forward direction. Probes that leave the
    /// board count as no capture, never as an error.
    pub fn is_jumping_possible(&self, player: &Player, mov: &Move) -> (r: bool)
        requires
            self.wf(),
        ensures
            r == jump_possible_from(self@, *player, mov@.init_x, mov@.init_y),
    {
        self.jump_toward_at(player, mov.initial.x, mov.initial.y, 1) || self.jump_toward_at(
            player,
            mov.initial.x,
            mov.initial.y,
            -1,
        )
    }

    /// Applies one move for `current_player` if it is legal, and reports
    /// whether it was accepted. A legal move clears its origin, fills its
    /// destination, and removes the single jumped piece if it is a jump;
    /// a rejected move leaves the board unchanged. An accepted jump lowers
    /// the opponent's piece count by exactly one; no other acceptance
    /// changes either count.
    pub fn make_move(&mut self, current_player: &Player, mov: &Move) -> (r: bool)
        requires
            old(self).wf(),
        ensures
            final(self).wf(),
            r == move_legal(old(self)@, *current_player, mov@),
            r ==> final(self)@ == apply_move(old(self)@, *current_player, mov@),
            !r ==> final(self)@ == old(self)@,
            r ==> piece_count(final(self)@, *current_player) == piece_count(
                old(self)@,
                *current_player,
            ),
            r && jump_shape(mov@, *current_player) ==> piece_count(
                final(self)@,
                opponent(*current_player),
            ) == piece_count(old(self)@, opponent(*current_player)) - 1,
            r && !jump_shape(mov@, *current_player) ==> piece_count(
                final(self)@,
                opponent(*current_player),
            ) == piece_count(old(self)@, opponent(*current_player)),
    {
        if !mov.is_valid(current_player) {
            return false;
        }
        let ix: usize = mov.initial.x as usize;
        let iy: usize = mov.initial.y as usize;
        let dx: usize = mov.destination.x as usize;
        let dy: usize = mov.destination.y as usize;
        match self.get(ix, iy) {
            None => {
                return false;
            },
            Some(pl) => {
                if pl != *current_player {
                    return false;
                }
            },
        }
        if self.get(dx, dy).is_some() {
            return false;
        }
        if !mov.is_jump(current_player) && self.is_jumping_possible(current_player, mov) {
            return false;
        }
        let ghost g0 = self@;
        let ghost p = *current_player;
        if let Some(pos) = mov.jumped_position(current_player) {
            let jx: usize = pos.x as usize;
            let jy: usize = pos.y as usize;
            match self.get(jx, jy) {
                None => {
                    return false;
                },
                Some(q) => {
                    if q == *current_player {
                        return false;
                    }
                },
            }
            self.set(jx, jy, None);
            proof {
                lemma_count_update(g0, p, jx as int * 8 + jy as int, None, 64);
                lemma_count_update(g0, opponent(p), jx as int * 8 + jy as int, None, 64);
            }
        }
        let ghost g1 = self@;
        self.set(ix, iy, None);
        proof {
            lemma_count_update(g1, p, ix as int * 8 + iy as int, None, 64);
            lemma_count_update(g1, opponent(p), ix as int * 8 + iy as int, None, 64);
        }
        let ghost g2 = self@;
        self.set(dx, dy, Some(*current_player));
        proof {
            lemma_count_update(g2, p, dx as int * 8 + dy as int, Some(p), 64);
            lemma_count_update(g2, opponent(p), dx as int * 8 + dy as int, Some(p), 64);
            assert(self@ =~= apply_move(g0, p, mov@));
        }
        true
    }

    /// Whether `player` has any legal move anywhere on the board: a piece of
    /// theirs from which a simple step or a jump is available.
    pub fn has_legal_moves(&self, player: &Player) -> (r: bool)
        requires
            self.wf(),
        ensures
            r == has_any_move(self@, *player),
    {
        for x in 0..8usize
            invariant
                self.wf(),
                forall|xi: int, yi: int|
                    0 <= xi < x && 0 <= yi < 8 ==> !(#[trigger] cell_at(self@, xi, yi) == Some(
                        *player,
                    ) && (step_possible_from(self@, *player, xi, yi) || jump_possible_from(
                        self@,
                        *player,
                        xi,
                        yi,
                    ))),
        {
            for y in 0..8usize
                invariant
                    self.wf(),
                    x < 8,
                    forall|xi: int, yi: int|
                        0 <= xi < x && 0 <= yi < 8 ==> !(#[trigger] cell_at(self@, xi, yi) == Some(
                            *player,
                        ) && (step_possible_from(self@, *player, xi, yi) || jump_possible_from(
                            self@,
                            *player,
                            xi,
                            yi,
                        ))),
                    forall|yi: int|
                        0 <= yi < y ==> !(#[trigger] cell_at(self@, x as int, yi) == Some(*player)
                            && (step_possible_from(self@, *player, x as int, yi)
                            || jump_possible_from(self@, *player, x as int, yi))),
            {
                if let Some(q) = self.get(x, y) {
                    if q == *player {
                        let cx: i32 = x as i32;
                        let cy: i32 = y as i32;
                        if self.step_toward_at(player, cx, cy, 1) || self.step_toward_at(
                            player,
                            cx,
                            cy,
                            -1,
                        ) || self.jump_toward_at(player, cx, cy, 1) || self.jump_toward_at(
                            player,
                            cx,
                            cy,
                            -1,
                        ) {
                            proof {
                                assert(in_bounds(x as int, y as int) && cell_at(
                                    self@,
                                    x as int,
                                    y as int,
                                ) == Some(*player) && (step_possible_from(
                                    self@,
                                    *player,
                                    x as int,
                                    y as int,
                                ) || jump_possible_from(self@, *player, x as int, y as int)));
                            }
                            return true;
                        }
                    }
                }
            }
        }
        false
    }

    /// Whether the position leaves both sides with at least one legal move:
    /// a replayed record that ends in such a position stopped early.
    pub fn is_incomplete(&self) -> (r: bool)
        requires
            self.wf(),
        ensures
            r == (has_any_move(self@, Player::Red) && has_any_move(self@, Player::White)),
    {
        self.has_legal_moves(&Player::Red) && self.has_legal_moves(&Player::White)
    }
}

/// The starting layout gives each side exactly twelve pieces.
proof fn lemma_initial_counts()
    ensures
        piece_count(initial_grid(), Player::Red) == 12,
        piece_count(initial_grid(), Player::White) == 12,
{
    reveal_with_fuel(count_upto, 65);
    assert(piece_count(initial_grid(), Player::Red) == 12);
    assert(piece_count(initial_grid(), Player::White) == 12);
}

} // verus!
