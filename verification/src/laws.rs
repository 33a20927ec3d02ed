//! Rules of the engine stated on their own, each proved once and for all:
//! how piece counts behave, and which move sequences a replay must reject.

use vstd::prelude::*;

use crate::board::{
    apply_move, cell_at, jump_possible_from, lemma_count_bounds, lemma_count_update, move_legal,
    piece_count, Board,
};
use crate::game::{occupant, spec_play, Verdict};
use crate::moves::{jump_shape, jumped_cell, MoveData};
use crate::player::{opponent, Player};

verus! {

/// The two sides never hold more than the starting twenty-four pieces
/// between them.
pub proof fn lemma_score_bound(b: &Board)
    requires
        b.wf(),
    ensures
        piece_count(b@, Player::Red) + piece_count(b@, Player::White) <= 24,
{
    lemma_count_bounds(b@, Player::Red, 64);
    lemma_count_bounds(b@, Player::White, 64);
}

/// An accepted move never changes the mover's piece count, and changes the
/// opponent's exactly by removing one piece on a jump and not at all on a
/// step: the total strictly decreases only on an accepted jump.
pub proof fn lemma_counts_after_move(g: Seq<Option<Player>>, p: Player, m: MoveData)
    requires
        g.len() == 64,
        move_legal(g, p, m),
    ensures
        piece_count(apply_move(g, p, m), p) == piece_count(g, p),
        jump_shape(m, p) ==> piece_count(apply_move(g, p, m), opponent(p)) == piece_count(
            g,
            opponent(p),
        ) - 1,
        !jump_shape(m, p) ==> piece_count(apply_move(g, p, m), opponent(p)) == piece_count(
            g,
            opponent(p),
        ),
{
    let ii = m.init_x * 8 + m.init_y;
    let di = m.dest_x * 8 + m.dest_y;
    let g1 = if jump_shape(m, p) {
        g.update(jumped_cell(m, p).0 * 8 + jumped_cell(m, p).1, None)
    } else {
        g
    };
    let g2 = g1.update(ii, None);
    if jump_shape(m, p) {
        let mi = jumped_cell(m, p).0 * 8 + jumped_cell(m, p).1;
        assert(mi != ii && mi != di && ii != di);
        lemma_count_update(g, p, mi, None, 64);
        lemma_count_update(g, opponent(p), mi, None, 64);
    } else {
        assert(ii != di);
    }
    lemma_count_update(g1, p, ii, None, 64);
    lemma_count_update(g1, opponent(p), ii, None, 64);
    lemma_count_update(g2, p, di, Some(p), 64);
    lemma_count_update(g2, opponent(p), di, Some(p), 64);
}

/// A move whose column change is not one or two cells, or whose row change
/// is not in the mover's forward direction, is illegal on every board.
pub proof fn lemma_bad_geometry_rejected(g: Seq<Option<Player>>, p: Player, m: MoveData)
    requires
        (m.dest_x - m.init_x != 1 && m.dest_x - m.init_x != -1 && m.dest_x - m.init_x != 2
            && m.dest_x - m.init_x != -2) || (p == Player::White && m.dest_y <= m.init_y) || (p
            == Player::Red && m.dest_y >= m.init_y),
    ensures
        !move_legal(g, p, m),
{
}

/// A jump is legal only when the cell it passes over holds the opponent,
/// and applying it always clears that cell.
pub proof fn lemma_jump_captures_opponent(g: Seq<Option<Player>>, p: Player, m: MoveData)
    requires
        g.len() == 64,
        jump_shape(m, p),
    ensures
        move_legal(g, p, m) ==> cell_at(g, jumped_cell(m, p).0, jumped_cell(m, p).1) == Some(
            opponent(p),
        ),
        move_legal(g, p, m) ==> cell_at(
            apply_move(g, p, m),
            jumped_cell(m, p).0,
            jumped_cell(m, p).1,
        ) is None,
{
    if move_legal(g, p, m) {
        let mid = jumped_cell(m, p);
        assert(mid.0 * 8 + mid.1 != m.init_x * 8 + m.init_y);
        assert(mid.0 * 8 + mid.1 != m.dest_x * 8 + m.dest_y);
    }
}

/// A simple step from a cell with a capture available is illegal: captures
/// are compulsory.
pub proof fn lemma_mandatory_capture(g: Seq<Option<Player>>, p: Player, m: MoveData)
    requires
        !jump_shape(m, p),
        jump_possible_from(g, p, m.init_x, m.init_y),
    ensures
        !move_legal(g, p, m),
{
}

/// When the same side is to play twice in a row — the next move's origin
/// holds the mover after the current move lands — the replay rejects the
/// next move unless both moves are jumps.
pub proof fn lemma_consecutive_moves_need_jumps(
    g: Seq<Option<Player>>,
    p: Player,
    ms: Seq<MoveData>,
    i: int,
)
    requires
        0 <= i,
        i + 1 < ms.len(),
        move_legal(g, p, ms[i]),
        occupant(apply_move(g, p, ms[i]), ms[i + 1].init_x, ms[i + 1].init_y) == Some(p),
        !(jump_shape(ms[i], p) && jump_shape(ms[i + 1], p)),
    ensures
        spec_play(g, p, ms, i).verdict == Verdict::Illegal(i + 1),
{
}

/// The turn cannot pass to the opponent while the mover still has a capture
/// available from the landing square of a jump: such a record is rejected
/// at the next move.
pub proof fn lemma_must_continue_jumping(
    g: Seq<Option<Player>>,
    p: Player,
    ms: Seq<MoveData>,
    i: int,
)
    requires
        0 <= i,
        i + 1 < ms.len(),
        move_legal(g, p, ms[i]),
        occupant(apply_move(g, p, ms[i]), ms[i + 1].init_x, ms[i + 1].init_y) == Some(opponent(p)),
        jump_shape(ms[i], p),
        jump_possible_from(apply_move(g, p, ms[i]), p, ms[i].dest_x, ms[i].dest_y),
    ensures
        spec_play(g, p, ms, i).verdict == Verdict::Illegal(i + 1),
{
}

} // verus!
