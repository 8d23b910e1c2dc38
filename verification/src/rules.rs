//! The Brandubh rules, stated as specification functions over a grid.
//!
//! Everything here is ghost: these functions are the mathematical model
//! that the executable engine in [`crate::game`] is proved against.
//! Coordinates are plain `int` pairs; a grid is a `Seq<Seq<Cell>>`.

use vstd::prelude::*;

use crate::board::{corner_pos, defender_side, emptied, gat, grid_wf, in_bounds, throne_pos, unmarked, Cell, CellType};

verus! {

/// The errors a move submission can produce.
///
/// `NotYourTurn` arises only at the session boundary; the others come out
/// of the rule engine and the two-click selection flow.
#[derive(Clone, Copy, Debug, PartialEq, Eq, Structural)]
pub enum MoveError {
    OutOfBounds,
    GameAlreadyOver,
    EmptyCellSelected,
    WrongOwner,
    NotStraightLine,
    PathBlocked,
    IllegalDestination,
    NotYourTurn,
}

// ------------------------------------------------------------------
// Sliding moves
// ------------------------------------------------------------------

/// The coordinates a slide from `a` towards `b` passes over: every
/// position strictly after `a` up to and including `b`.
pub open spec fn on_segment(a: int, b: int, x: int) -> bool {
    if a < b {
        a < x <= b
    } else {
        b <= x < a
    }
}

/// Whether a sliding piece of kind `kind` may pass over or stop on
/// `(r, c)`: the cell must be empty, and every piece but the King is also
/// blocked by corner cells.
pub open spec fn passable(g: Seq<Seq<Cell>>, kind: CellType, r: int, c: int) -> bool {
    gat(g, r, c).cell_type == CellType::Empty && (kind == CellType::King || !gat(
        g,
        r,
        c,
    ).is_corner)
}

/// Some cell of the straight segment from `(fr, fc)` to `(tr, tc)`
/// (source excluded, destination included) is occupied.
pub open spec fn segment_blocked(g: Seq<Seq<Cell>>, fr: int, fc: int, tr: int, tc: int) -> bool {
    if fr == tr {
        exists|c: int|
            on_segment(fc, tc, c) && (#[trigger] gat(g, fr, c)).cell_type != CellType::Empty
    } else {
        exists|r: int|
            on_segment(fr, tr, r) && (#[trigger] gat(g, r, fc)).cell_type != CellType::Empty
    }
}

/// Every cell of the straight segment from `(fr, fc)` to `(tr, tc)`
/// (source excluded, destination included) lets `kind` pass.
pub open spec fn path_open(g: Seq<Seq<Cell>>, kind: CellType, fr: int, fc: int, tr: int, tc: int) -> bool {
    if fr == tr {
        forall|c: int| on_segment(fc, tc, c) ==> passable(g, kind, fr, c)
    } else {
        forall|r: int| on_segment(fr, tr, r) ==> passable(g, kind, r, fc)
    }
}

/// `(tr, tc)` is a legal destination for the piece standing on
/// `(fr, fc)`: both on the board, the source occupied, the move a
/// non-empty straight orthogonal slide over cells that let the piece
/// pass, and the throne is closed to everything but the King.
pub open spec fn dest_ok(g: Seq<Seq<Cell>>, fr: int, fc: int, tr: int, tc: int) -> bool {
    let kind = gat(g, fr, fc).cell_type;
    &&& in_bounds(fr, fc)
    &&& in_bounds(tr, tc)
    &&& kind != CellType::Empty
    &&& !(fr == tr && fc == tc)
    &&& (fr == tr || fc == tc)
    &&& path_open(g, kind, fr, fc, tr, tc)
    &&& (kind == CellType::King || !throne_pos(tr, tc))
}

/// The rule engine's verdict on relocating `(fr, fc)` to `(tr, tc)`,
/// with the priority the engine reports errors in; `None` means the move
/// is legal.
pub open spec fn move_verdict(g: Seq<Seq<Cell>>, fr: int, fc: int, tr: int, tc: int) -> Option<
    MoveError,
> {
    if !in_bounds(fr, fc) || !in_bounds(tr, tc) {
        Some(MoveError::OutOfBounds)
    } else if gat(g, fr, fc).cell_type == CellType::Empty {
        Some(MoveError::EmptyCellSelected)
    } else if fr == tr && fc == tc {
        Some(MoveError::IllegalDestination)
    } else if fr != tr && fc != tc {
        Some(MoveError::NotStraightLine)
    } else if segment_blocked(g, fr, fc, tr, tc) {
        Some(MoveError::PathBlocked)
    } else if gat(g, fr, fc).cell_type != CellType::King && (gat(g, tr, tc).is_corner || gat(
        g,
        tr,
        tc,
    ).is_throne) {
        Some(MoveError::IllegalDestination)
    } else {
        None
    }
}

/// The piece kind may not be selected by the side whose turn it is.
pub open spec fn wrong_owner(turn: CellType, kind: CellType) -> bool {
    if turn == CellType::Attacker {
        kind == CellType::Defender || kind == CellType::King
    } else {
        kind == CellType::Attacker
    }
}

/// The verdict of the atomic from->to submission used by networked
/// play: the source gate (bounds, occupancy, ownership), then the
/// destination gate (bounds, emptiness, corner and throne closed to
/// everything but the King), then the rule engine's own verdict.
pub open spec fn submit_verdict(
    g: Seq<Seq<Cell>>,
    turn: CellType,
    fr: int,
    fc: int,
    tr: int,
    tc: int,
) -> Option<MoveError> {
    let kind = gat(g, fr, fc).cell_type;
    if !in_bounds(fr, fc) {
        Some(MoveError::OutOfBounds)
    } else if kind == CellType::Empty {
        Some(MoveError::EmptyCellSelected)
    } else if wrong_owner(turn, kind) {
        Some(MoveError::WrongOwner)
    } else if !in_bounds(tr, tc) {
        Some(MoveError::OutOfBounds)
    } else if gat(g, tr, tc).cell_type != CellType::Empty {
        Some(MoveError::PathBlocked)
    } else if (gat(g, tr, tc).is_corner || gat(g, tr, tc).is_throne) && kind != CellType::King {
        Some(MoveError::IllegalDestination)
    } else {
        move_verdict(g, fr, fc, tr, tc)
    }
}

// ------------------------------------------------------------------
// Interaction marks
// ------------------------------------------------------------------

/// The grid with every interaction mark (selection, highlighted move)
/// cleared; occupants and terrain unchanged.
pub open spec fn grid_unmark(g: Seq<Seq<Cell>>) -> Seq<Seq<Cell>> {
    Seq::new(7, |r: int| Seq::new(7, |c: int| unmarked(gat(g, r, c))))
}

/// The grid as the selection flow shows it after a piece on `(sr, sc)`
/// was picked: that cell selected, every legal destination highlighted,
/// all other marks clear.
pub open spec fn grid_select(g: Seq<Seq<Cell>>, sr: int, sc: int) -> Seq<Seq<Cell>> {
    Seq::new(
        7,
        |r: int|
            Seq::new(
                7,
                |c: int|
                    Cell {
                        cell_type: gat(g, r, c).cell_type,
                        is_corner: gat(g, r, c).is_corner,
                        is_throne: gat(g, r, c).is_throne,
                        is_selected: r == sr && c == sc,
                        is_possible_move: dest_ok(g, sr, sc, r, c),
                    },
            ),
    )
}

/// A 7x7 grid whose cells are all unmarked copies of `g`'s cells is the
/// unmarked grid, and unmarking keeps the grid well formed.
pub proof fn lemma_grid_unmark_cells(g: Seq<Seq<Cell>>, h: Seq<Seq<Cell>>)
    requires
        h.len() == 7,
        forall|i: int| 0 <= i < 7 ==> (#[trigger] h[i]).len() == 7,
        forall|i: int, j: int|
            in_bounds(i, j) ==> #[trigger] gat(h, i, j) == unmarked(gat(g, i, j)),
    ensures
        h == grid_unmark(g),
        grid_wf(g) ==> grid_wf(grid_unmark(g)),
{
    let hu = grid_unmark(g);
    assert forall|i: int| 0 <= i < 7 implies h[i] =~= hu[i] by {
        assert forall|j: int| 0 <= j < 7 implies h[i][j] == hu[i][j] by {
            assert(gat(h, i, j) == h[i][j]);
        }
    }
    assert(h =~~= hu);
    if grid_wf(g) {
        assert forall|i: int, j: int|
            in_bounds(i, j) implies (#[trigger] gat(hu, i, j)).cell_type == gat(g, i, j).cell_type
            && gat(hu, i, j).is_corner == gat(g, i, j).is_corner && gat(hu, i, j).is_throne == gat(
            g,
            i,
            j,
        ).is_throne by {}
    }
}

/// A 7x7 grid whose cells carry `g`'s occupants and terrain, select
/// exactly `(sr, sc)` and highlight exactly the legal destinations is
/// the selection grid, and selecting keeps the grid well formed.
pub proof fn lemma_grid_select_cells(g: Seq<Seq<Cell>>, h: Seq<Seq<Cell>>, sr: int, sc: int)
    requires
        h.len() == 7,
        forall|i: int| 0 <= i < 7 ==> (#[trigger] h[i]).len() == 7,
        forall|i: int, j: int|
            in_bounds(i, j) ==> #[trigger] gat(h, i, j) == (Cell {
                cell_type: gat(g, i, j).cell_type,
                is_corner: gat(g, i, j).is_corner,
                is_throne: gat(g, i, j).is_throne,
                is_selected: i == sr && j == sc,
                is_possible_move: dest_ok(g, sr, sc, i, j),
            }),
    ensures
        h == grid_select(g, sr, sc),
        grid_wf(g) ==> grid_wf(grid_select(g, sr, sc)),
{
    let hs = grid_select(g, sr, sc);
    assert forall|i: int| 0 <= i < 7 implies h[i] =~= hs[i] by {
        assert forall|j: int| 0 <= j < 7 implies h[i][j] == hs[i][j] by {
            assert(gat(h, i, j) == h[i][j]);
        }
    }
    assert(h =~~= hs);
    if grid_wf(g) {
        assert forall|i: int, j: int|
            in_bounds(i, j) implies (#[trigger] gat(hs, i, j)).cell_type == gat(g, i, j).cell_type
            && gat(hs, i, j).is_corner == gat(g, i, j).is_corner && gat(hs, i, j).is_throne == gat(
            g,
            i,
            j,
        ).is_throne by {}
    }
}

// ------------------------------------------------------------------
// Move application and capture
// ------------------------------------------------------------------

/// The grid after relocating the occupant of `(fr, fc)` onto `(tr, tc)`:
/// terrain stays with the coordinates, the interaction marks of both
/// endpoints clear, and no other cell changes.
pub open spec fn grid_relocate(g: Seq<Seq<Cell>>, fr: int, fc: int, tr: int, tc: int) -> Seq<
    Seq<Cell>,
> {
    Seq::new(
        7,
        |r: int|
            Seq::new(
                7,
                |c: int|
                    if r == tr && c == tc {
                        Cell {
                            cell_type: gat(g, fr, fc).cell_type,
                            is_corner: gat(g, r, c).is_corner,
                            is_throne: gat(g, r, c).is_throne,
                            is_selected: false,
                            is_possible_move: false,
                        }
                    } else if r == fr && c == fc {
                        emptied(gat(g, r, c))
                    } else {
                        gat(g, r, c)
                    },
            ),
    )
}

/// A 7x7 grid that moves the piece of `(fr, fc)` onto `(tr, tc)`, empties
/// the source, and agrees with `g` everywhere else is the grid the
/// relocation produces.
pub proof fn lemma_grid_relocate_cells(
    g: Seq<Seq<Cell>>,
    h: Seq<Seq<Cell>>,
    fr: int,
    fc: int,
    tr: int,
    tc: int,
)
    requires
        h.len() == 7,
        forall|i: int| 0 <= i < 7 ==> (#[trigger] h[i]).len() == 7,
        in_bounds(fr, fc),
        in_bounds(tr, tc),
        !(fr == tr && fc == tc),
        gat(h, tr, tc) == (Cell {
            cell_type: gat(g, fr, fc).cell_type,
            is_corner: gat(g, tr, tc).is_corner,
            is_throne: gat(g, tr, tc).is_throne,
            is_selected: false,
            is_possible_move: false,
        }),
        gat(h, fr, fc) == emptied(gat(g, fr, fc)),
        forall|i: int, j: int|
            in_bounds(i, j) && !(i == tr && j == tc) && !(i == fr && j == fc) ==> #[trigger] gat(
                h,
                i,
                j,
            ) == gat(g, i, j),
    ensures
        h == grid_relocate(g, fr, fc, tr, tc),
{
    let hr = grid_relocate(g, fr, fc, tr, tc);
    assert forall|i: int| 0 <= i < 7 implies h[i] =~= hr[i] by {
        assert forall|j: int| 0 <= j < 7 implies h[i][j] == hr[i][j] by {
            assert(gat(h, i, j) == h[i][j]);
        }
    }
    assert(h =~~= hr);
}

/// Relocating a piece onto an empty destination keeps the grid well
/// formed: terrain stays put and the King count cannot grow.
pub proof fn lemma_relocate_wf(g: Seq<Seq<Cell>>, fr: int, fc: int, tr: int, tc: int)
    requires
        grid_wf(g),
        in_bounds(fr, fc),
        in_bounds(tr, tc),
        !(fr == tr && fc == tc),
        gat(g, tr, tc).cell_type == CellType::Empty,
    ensures
        grid_wf(grid_relocate(g, fr, fc, tr, tc)),
{
    let h = grid_relocate(g, fr, fc, tr, tc);
    assert forall|i: int| 0 <= i < 7 implies (#[trigger] h[i]).len() == 7 by {}
    assert forall|i: int, j: int|
        in_bounds(i, j) implies (#[trigger] gat(h, i, j)).is_corner == corner_pos(i, j) && gat(
        h,
        i,
        j,
    ).is_throne == throne_pos(i, j) by {
        assert(gat(g, i, j).is_corner == corner_pos(i, j));
    }
    assert forall|r1: int, c1: int, r2: int, c2: int|
        in_bounds(r1, c1) && in_bounds(r2, c2) && (#[trigger] gat(h, r1, c1)).cell_type
            == CellType::King && (#[trigger] gat(h, r2, c2)).cell_type == CellType::King implies r1
        == r2 && c1 == c2 by {
        let s1 = if r1 == tr && c1 == tc {
            (fr, fc)
        } else {
            (r1, c1)
        };
        let s2 = if r2 == tr && c2 == tc {
            (fr, fc)
        } else {
            (r2, c2)
        };
        assert(gat(g, s1.0, s1.1).cell_type == CellType::King);
        assert(gat(g, s2.0, s2.1).cell_type == CellType::King);
        assert(s1 == s2);
    }
}

/// The capture pass keeps the grid well formed: it only empties cells,
/// terrain preserved.
pub proof fn lemma_captures_wf(g: Seq<Seq<Cell>>, pr: int, pc: int)
    requires
        grid_wf(g),
    ensures
        grid_wf(grid_captures(g, pr, pc)),
{
    let h = grid_captures(g, pr, pc);
    assert forall|i: int| 0 <= i < 7 implies (#[trigger] h[i]).len() == 7 by {}
    assert forall|i: int, j: int|
        in_bounds(i, j) implies (#[trigger] gat(h, i, j)).is_corner == corner_pos(i, j) && gat(
        h,
        i,
        j,
    ).is_throne == throne_pos(i, j) by {
        assert(gat(g, i, j).is_corner == corner_pos(i, j));
    }
    assert forall|r1: int, c1: int, r2: int, c2: int|
        in_bounds(r1, c1) && in_bounds(r2, c2) && (#[trigger] gat(h, r1, c1)).cell_type
            == CellType::King && (#[trigger] gat(h, r2, c2)).cell_type == CellType::King implies r1
        == r2 && c1 == c2 by {
        assert(gat(g, r1, c1).cell_type == CellType::King);
        assert(gat(g, r2, c2).cell_type == CellType::King);
    }
}

/// `(r, c)` is orthogonally adjacent to `(pr, pc)`.
pub open spec fn adjacent(pr: int, pc: int, r: int, c: int) -> bool {
    (r == pr && (c == pc - 1 || c == pc + 1)) || (c == pc && (r == pr - 1 || r == pr + 1))
}

/// Custodian capture against the neighbor of `(pr, pc)` one step along
/// `(dr, dc)`: the neighbor holds a piece hostile to the mover standing
/// on `(pr, pc)`, and the cell one further step away holds an allied
/// piece or is a corner. Against an Attacker the anvil may be any
/// defending-side piece; against a Defender it must be an Attacker; the
/// King is never taken by this rule.
pub open spec fn capture_at(g: Seq<Seq<Cell>>, pr: int, pc: int, dr: int, dc: int) -> bool {
    let mover = gat(g, pr, pc).cell_type;
    let nr = pr + dr;
    let nc = pc + dc;
    let br = pr + 2 * dr;
    let bc = pc + 2 * dc;
    &&& in_bounds(nr, nc)
    &&& in_bounds(br, bc)
    &&& if defender_side(mover) {
        gat(g, nr, nc).cell_type == CellType::Attacker && (defender_side(gat(g, br, bc).cell_type)
            || gat(g, br, bc).is_corner)
    } else {
        gat(g, nr, nc).cell_type == CellType::Defender && (gat(g, br, bc).cell_type
            == CellType::Attacker || gat(g, br, bc).is_corner)
    }
}

/// The grid after the capture pass around the landing square `(pr, pc)`:
/// each sandwiched hostile neighbor is emptied (terrain preserved), and
/// no cell that is not adjacent to the landing square changes.
pub open spec fn grid_captures(g: Seq<Seq<Cell>>, pr: int, pc: int) -> Seq<Seq<Cell>> {
    Seq::new(
        7,
        |r: int|
            Seq::new(
                7,
                |c: int|
                    if adjacent(pr, pc, r, c) && capture_at(g, pr, pc, r - pr, c - pc) {
                        emptied(gat(g, r, c))
                    } else {
                        gat(g, r, c)
                    },
            ),
    )
}

/// The capture pass around `(pr, pc)`, written cell by cell: the value
/// the cell `(i, j)` holds after the pass.
pub open spec fn captured_cell(g: Seq<Seq<Cell>>, pr: int, pc: int, i: int, j: int) -> Cell {
    if i == pr - 1 && j == pc && capture_at(g, pr, pc, -1, 0) {
        emptied(gat(g, i, j))
    } else if i == pr + 1 && j == pc && capture_at(g, pr, pc, 1, 0) {
        emptied(gat(g, i, j))
    } else if i == pr && j == pc - 1 && capture_at(g, pr, pc, 0, -1) {
        emptied(gat(g, i, j))
    } else if i == pr && j == pc + 1 && capture_at(g, pr, pc, 0, 1) {
        emptied(gat(g, i, j))
    } else {
        gat(g, i, j)
    }
}

/// A 7x7 grid that holds the capture outcome on the four neighbors of
/// `(pr, pc)` and agrees with `g` everywhere else is the grid the
/// capture pass produces.
pub proof fn lemma_grid_captures_cells(g: Seq<Seq<Cell>>, h: Seq<Seq<Cell>>, pr: int, pc: int)
    requires
        h.len() == 7,
        forall|i: int| 0 <= i < 7 ==> (#[trigger] h[i]).len() == 7,
        in_bounds(pr - 1, pc) ==> gat(h, pr - 1, pc) == captured_cell(g, pr, pc, pr - 1, pc),
        in_bounds(pr + 1, pc) ==> gat(h, pr + 1, pc) == captured_cell(g, pr, pc, pr + 1, pc),
        in_bounds(pr, pc - 1) ==> gat(h, pr, pc - 1) == captured_cell(g, pr, pc, pr, pc - 1),
        in_bounds(pr, pc + 1) ==> gat(h, pr, pc + 1) == captured_cell(g, pr, pc, pr, pc + 1),
        forall|i: int, j: int|
            in_bounds(i, j) && !adjacent(pr, pc, i, j) ==> #[trigger] gat(h, i, j) == gat(g, i, j),
    ensures
        h == grid_captures(g, pr, pc),
{
    assert forall|i: int, j: int|
        in_bounds(i, j) implies #[trigger] gat(h, i, j) == captured_cell(g, pr, pc, i, j) by {
        if adjacent(pr, pc, i, j) {
            assert((i == pr - 1 && j == pc) || (i == pr + 1 && j == pc) || (i == pr && j == pc - 1)
                || (i == pr && j == pc + 1));
        }
    }
    let gc = grid_captures(g, pr, pc);
    assert forall|i: int| 0 <= i < 7 implies h[i] =~= gc[i] by {
        assert(gc[i] == Seq::new(
            7,
            |c: int|
                if adjacent(pr, pc, i, c) && capture_at(g, pr, pc, i - pr, c - pc) {
                    emptied(gat(g, i, c))
                } else {
                    gat(g, i, c)
                },
        ));
        assert forall|j: int| 0 <= j < 7 implies h[i][j] == gc[i][j] by {
            assert(gat(h, i, j) == h[i][j]);
            assert(gat(h, i, j) == captured_cell(g, pr, pc, i, j));
            if adjacent(pr, pc, i, j) {
                if i == pr - 1 && j == pc {
                    assert(i - pr == -1 && j - pc == 0);
                } else if i == pr + 1 && j == pc {
                    assert(i - pr == 1 && j - pc == 0);
                } else if i == pr && j == pc - 1 {
                    assert(i - pr == 0 && j - pc == -1);
                } else {
                    assert(i == pr && j == pc + 1);
                    assert(i - pr == 0 && j - pc == 1);
                }
            }
        }
    }
    assert(h =~~= gc);
}

/// The King stands on an in-bounds orthogonal neighbor of `(pr, pc)`.
pub open spec fn king_adjacent(g: Seq<Seq<Cell>>, pr: int, pc: int) -> bool {
    exists|r: int, c: int|
        in_bounds(r, c) && adjacent(pr, pc, r, c) && (#[trigger] gat(g, r, c)).cell_type
            == CellType::King
}

/// King adjacency is a check of just the four neighbor cells.
pub proof fn lemma_king_adjacent_cases(g: Seq<Seq<Cell>>, pr: int, pc: int)
    ensures
        king_adjacent(g, pr, pc) <==> ((in_bounds(pr - 1, pc) && gat(g, pr - 1, pc).cell_type
            == CellType::King) || (in_bounds(pr + 1, pc) && gat(g, pr + 1, pc).cell_type
            == CellType::King) || (in_bounds(pr, pc - 1) && gat(g, pr, pc - 1).cell_type
            == CellType::King) || (in_bounds(pr, pc + 1) && gat(g, pr, pc + 1).cell_type
            == CellType::King)),
{
    if king_adjacent(g, pr, pc) {
        let (r, c) = choose|r: int, c: int|
            in_bounds(r, c) && adjacent(pr, pc, r, c) && (#[trigger] gat(g, r, c)).cell_type
                == CellType::King;
        assert((r == pr - 1 && c == pc) || (r == pr + 1 && c == pc) || (r == pr && c == pc - 1) || (
        r == pr && c == pc + 1));
    }
}

// ------------------------------------------------------------------
// Win evaluation
// ------------------------------------------------------------------

/// The King stands on one of the four corners.
pub open spec fn king_escaped(g: Seq<Seq<Cell>>) -> bool {
    ||| gat(g, 0, 0).cell_type == CellType::King
    ||| gat(g, 0, 6).cell_type == CellType::King
    ||| gat(g, 6, 0).cell_type == CellType::King
    ||| gat(g, 6, 6).cell_type == CellType::King
}

/// `(r, c)` is one of the four cells orthogonally adjacent to the throne.
pub open spec fn throne_adjacent(r: int, c: int) -> bool {
    (r == 2 && c == 3) || (r == 3 && c == 2) || (r == 3 && c == 4) || (r == 4 && c == 3)
}

/// An Attacker stands on `(r, c)`.
pub open spec fn attacker_on(g: Seq<Seq<Cell>>, r: int, c: int) -> bool {
    in_bounds(r, c) && gat(g, r, c).cell_type == CellType::Attacker
}

/// Two opposite neighbors of the King close the trap: both Attackers, or
/// one Attacker and one corner.
pub open spec fn hostile_pair(g: Seq<Seq<Cell>>, r1: int, c1: int, r2: int, c2: int) -> bool {
    &&& in_bounds(r1, c1)
    &&& in_bounds(r2, c2)
    &&& {
        ||| (attacker_on(g, r1, c1) && attacker_on(g, r2, c2))
        ||| (attacker_on(g, r1, c1) && gat(g, r2, c2).is_corner)
        ||| (gat(g, r1, c1).is_corner && attacker_on(g, r2, c2))
    }
}

/// The King standing on `(kr, kc)` is surrounded. On the throne, all
/// four neighbors must be Attackers; next to the throne, every in-bounds
/// neighbor other than the throne itself; elsewhere, one opposing pair
/// of neighbors closed by Attackers or a corner suffices.
pub open spec fn surrounded_at(g: Seq<Seq<Cell>>, kr: int, kc: int) -> bool {
    if throne_pos(kr, kc) {
        &&& attacker_on(g, kr - 1, kc)
        &&& attacker_on(g, kr + 1, kc)
        &&& attacker_on(g, kr, kc - 1)
        &&& attacker_on(g, kr, kc + 1)
    } else if throne_adjacent(kr, kc) {
        &&& (in_bounds(kr - 1, kc) && !throne_pos(kr - 1, kc) ==> attacker_on(g, kr - 1, kc))
        &&& (in_bounds(kr + 1, kc) && !throne_pos(kr + 1, kc) ==> attacker_on(g, kr + 1, kc))
        &&& (in_bounds(kr, kc - 1) && !throne_pos(kr, kc - 1) ==> attacker_on(g, kr, kc - 1))
        &&& (in_bounds(kr, kc + 1) && !throne_pos(kr, kc + 1) ==> attacker_on(g, kr, kc + 1))
    } else {
        ||| hostile_pair(g, kr - 1, kc, kr + 1, kc)
        ||| hostile_pair(g, kr, kc - 1, kr, kc + 1)
    }
}

/// Some King on the board is surrounded.
pub open spec fn king_trapped(g: Seq<Seq<Cell>>) -> bool {
    exists|r: int, c: int|
        in_bounds(r, c) && (#[trigger] gat(g, r, c)).cell_type == CellType::King && surrounded_at(
            g,
            r,
            c,
        )
}

/// `defenders` selects which side a piece kind belongs to.
pub open spec fn side_piece(defenders: bool, t: CellType) -> bool {
    if defenders {
        defender_side(t)
    } else {
        t == CellType::Attacker
    }
}

/// No piece of the given side has any legal destination.
pub open spec fn side_stuck(g: Seq<Seq<Cell>>, defenders: bool) -> bool {
    forall|fr: int, fc: int, tr: int, tc: int|
        in_bounds(fr, fc) && side_piece(defenders, gat(g, fr, fc).cell_type) ==> !(#[trigger] dest_ok(
            g,
            fr,
            fc,
            tr,
            tc,
        ))
}

/// Winner evaluation after a completed move, in fixed priority order.
/// `turn` is the side that has just moved; `kc` is the deferred
/// king-adjacency flag raised by the capture pass.
pub open spec fn winner_of(g: Seq<Seq<Cell>>, turn: CellType, kc: bool) -> Option<CellType> {
    if king_escaped(g) {
        Some(CellType::Defender)
    } else if (turn == CellType::Attacker || kc) && king_trapped(g) {
        Some(CellType::Attacker)
    } else if side_stuck(g, true) {
        Some(CellType::Attacker)
    } else if side_stuck(g, false) {
        Some(CellType::Defender)
    } else {
        None
    }
}

} // verus!
