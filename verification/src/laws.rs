//! Laws of the rule engine, stated and proved once and for all: King
//! uniqueness on every well-formed (hence every reachable) state, the
//! shape of legal destination sets, and the locality of the capture
//! pass.

use vstd::prelude::*;

use crate::board::{corner_pos, emptied, gat, grid_wf, in_bounds, throne_pos, Cell, CellType};
use crate::game::{sound_moves, GameState};
use crate::rules::{adjacent, capture_at, dest_ok, grid_captures, grid_relocate, on_segment, passable};

verus! {

/// On every well-formed game state — and every state reachable through
/// `GameState::new` and the engine's mutators is well formed, as their
/// contracts show — at most one King stands on the board.
pub proof fn lemma_at_most_one_king(s: GameState)
    requires
        s.wf(),
    ensures
        forall|r1: int, c1: int, r2: int, c2: int|
            in_bounds(r1, c1) && in_bounds(r2, c2) && (#[trigger] gat(
                s.grid(),
                r1,
                c1,
            )).cell_type == CellType::King && (#[trigger] gat(s.grid(), r2, c2)).cell_type
                == CellType::King ==> r1 == r2 && c1 == c2,
{
}

/// A legal destination always lies on the board and is never the
/// piece's own square.
pub proof fn lemma_dest_in_bounds(
    g: Seq<Seq<Cell>>,
    fr: int,
    fc: int,
    tr: int,
    tc: int,
)
    requires
        dest_ok(g, fr, fc, tr, tc),
    ensures
        in_bounds(tr, tc),
        !(tr == fr && tc == fc),
{
}

/// A piece other than the King can never reach a corner or the throne;
/// the King is not so restricted.
pub proof fn lemma_non_king_dest_open(
    g: Seq<Seq<Cell>>,
    fr: int,
    fc: int,
    tr: int,
    tc: int,
)
    requires
        grid_wf(g),
        dest_ok(g, fr, fc, tr, tc),
        gat(g, fr, fc).cell_type != CellType::King,
    ensures
        !corner_pos(tr, tc),
        !throne_pos(tr, tc),
{
    let kind = gat(g, fr, fc).cell_type;
    if fr == tr {
        assert(on_segment(fc, tc, tc));
        assert(passable(g, kind, tr, tc));
    } else {
        assert(on_segment(fr, tr, tr));
        assert(passable(g, kind, tr, tc));
    }
    assert(gat(g, tr, tc).is_corner == corner_pos(tr, tc));
}

/// A destination list sound for `(sr, sc)` — such as the one
/// `GameState::calculate_valid_moves` returns, by its contract — never
/// holds an out-of-bounds coordinate or the piece's own square.
pub proof fn lemma_moves_in_bounds(
    g: Seq<Seq<Cell>>,
    sr: int,
    sc: int,
    res: Seq<(usize, usize)>,
)
    requires
        sound_moves(g, sr, sc, res),
    ensures
        forall|i: int|
            0 <= i < res.len() ==> (#[trigger] res[i]).0 < 7 && res[i].1 < 7 && !(res[i].0 == sr
                && res[i].1 == sc),
{
    assert forall|i: int|
        0 <= i < res.len() implies (#[trigger] res[i]).0 < 7 && res[i].1 < 7 && !(res[i].0 == sr
        && res[i].1 == sc) by {
        lemma_dest_in_bounds(g, sr, sc, res[i].0 as int, res[i].1 as int);
    }
}

/// A destination list sound for a piece other than the King never holds
/// a corner or the throne; the King's list may hold both.
pub proof fn lemma_non_king_moves_open(
    g: Seq<Seq<Cell>>,
    sr: int,
    sc: int,
    res: Seq<(usize, usize)>,
)
    requires
        grid_wf(g),
        sound_moves(g, sr, sc, res),
        gat(g, sr, sc).cell_type != CellType::King,
    ensures
        forall|i: int|
            0 <= i < res.len() ==> !corner_pos((#[trigger] res[i]).0 as int, res[i].1 as int)
                && !throne_pos(res[i].0 as int, res[i].1 as int),
{
    assert forall|i: int|
        0 <= i < res.len() implies !corner_pos((#[trigger] res[i]).0 as int, res[i].1 as int)
        && !throne_pos(res[i].0 as int, res[i].1 as int) by {
        lemma_non_king_dest_open(g, sr, sc, res[i].0 as int, res[i].1 as int);
    }
}

/// The capture pass is local: it never alters a cell that is not
/// orthogonally adjacent to the landing square.
pub proof fn lemma_capture_pass_local(g: Seq<Seq<Cell>>, pr: int, pc: int, r: int, c: int)
    requires
        in_bounds(r, c),
        !adjacent(pr, pc, r, c),
    ensures
        gat(grid_captures(g, pr, pc), r, c) == gat(g, r, c),
{
    assert(grid_captures(g, pr, pc)[r] == Seq::new(
        7,
        |j: int|
            if adjacent(pr, pc, r, j) && capture_at(g, pr, pc, r - pr, j - pc) {
                emptied(gat(g, r, j))
            } else {
                gat(g, r, j)
            },
    ));
}

/// Applying a move and then the capture pass never alters a piece that
/// is not adjacent to the landing square: every cell away from the two
/// endpoints of the move and the landing square's neighbors is exactly
/// what it was.
pub proof fn lemma_move_local(
    g: Seq<Seq<Cell>>,
    fr: int,
    fc: int,
    tr: int,
    tc: int,
    r: int,
    c: int,
)
    requires
        in_bounds(r, c),
        !adjacent(tr, tc, r, c),
        !(r == fr && c == fc),
        !(r == tr && c == tc),
    ensures
        gat(grid_captures(grid_relocate(g, fr, fc, tr, tc), tr, tc), r, c) == gat(g, r, c),
{
    let g1 = grid_relocate(g, fr, fc, tr, tc);
    lemma_capture_pass_local(g1, tr, tc, r, c);
    assert(g1[r] == Seq::new(
        7,
        |j: int|
            if r == tr && j == tc {
                Cell {
                    cell_type: gat(g, fr, fc).cell_type,
                    is_corner: gat(g, r, j).is_corner,
                    is_throne: gat(g, r, j).is_throne,
                    is_selected: false,
                    is_possible_move: false,
                }
            } else if r == fr && j == fc {
                emptied(gat(g, r, j))
            } else {
                gat(g, r, j)
            },
    ));
}

} // verus!
