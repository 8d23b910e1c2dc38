//! Board data model: cells, piece kinds, and the basic predicates on the
//! fixed 7x7 grid.
//!
//! A board is held as a `Vec<Vec<Cell>>`; specifications view it as a
//! `Seq<Seq<Cell>>` (the "grid"). Terrain (corner and throne flags) is
//! attached to coordinates and never moves with a piece.

use vstd::prelude::*;

verus! {

/// The occupant of a cell: no piece, or a piece of one of the three kinds.
/// `Attacker` forms one side; `Defender` and `King` together form the other.
#[derive(Clone, Copy, Debug, PartialEq, Eq, Structural)]
pub enum CellType {
    Empty,
    Attacker,
    Defender,
    King,
}

/// One square of the board: its occupant, its immutable terrain flags
/// (corner, throne), and two transient interaction marks used by the
/// two-click selection flow.
#[derive(Clone, Copy, Debug, PartialEq, Eq, Structural)]
pub struct Cell {
    pub cell_type: CellType,
    pub is_corner: bool,
    pub is_throne: bool,
    pub is_selected: bool,
    pub is_possible_move: bool,
}

/// Coordinates are `(row, col)` with `0 <= row, col < 7`.
pub open spec fn in_bounds(r: int, c: int) -> bool {
    0 <= r < 7 && 0 <= c < 7
}

/// The four corner coordinates of the 7x7 board.
pub open spec fn corner_pos(r: int, c: int) -> bool {
    (r == 0 || r == 6) && (c == 0 || c == 6)
}

/// The throne is the center cell.
pub open spec fn throne_pos(r: int, c: int) -> bool {
    r == 3 && c == 3
}

/// Whether a piece kind belongs to the defending side.
pub open spec fn defender_side(t: CellType) -> bool {
    t == CellType::Defender || t == CellType::King
}

/// The side to move after `t` has moved.
pub open spec fn other_turn(t: CellType) -> CellType {
    if t == CellType::Attacker {
        CellType::Defender
    } else {
        CellType::Attacker
    }
}

/// Cell lookup on a grid.
pub open spec fn gat(g: Seq<Seq<Cell>>, r: int, c: int) -> Cell {
    g[r][c]
}

/// The grid is a 7x7 matrix.
pub open spec fn grid_dims(g: Seq<Seq<Cell>>) -> bool {
    &&& g.len() == 7
    &&& forall|r: int| 0 <= r < 7 ==> (#[trigger] g[r]).len() == 7
}

/// Terrain flags agree with the coordinates: the four corners carry
/// `is_corner`, the center carries `is_throne`, and no other cell carries
/// either flag.
pub open spec fn terrain_ok(g: Seq<Seq<Cell>>) -> bool {
    forall|r: int, c: int|
        in_bounds(r, c) ==> (#[trigger] gat(g, r, c)).is_corner == corner_pos(r, c)
            && gat(g, r, c).is_throne == throne_pos(r, c)
}

/// At most one King stands on the board.
pub open spec fn king_unique(g: Seq<Seq<Cell>>) -> bool {
    forall|r1: int, c1: int, r2: int, c2: int|
        in_bounds(r1, c1) && in_bounds(r2, c2)
            && (#[trigger] gat(g, r1, c1)).cell_type == CellType::King
            && (#[trigger] gat(g, r2, c2)).cell_type == CellType::King ==> r1 == r2 && c1 == c2
}

/// Well-formedness of a grid: dimensions, terrain, and King uniqueness.
pub open spec fn grid_wf(g: Seq<Seq<Cell>>) -> bool {
    grid_dims(g) && terrain_ok(g) && king_unique(g)
}

/// `c` with its piece removed; terrain flags are preserved, interaction
/// marks are cleared.
pub open spec fn emptied(c: Cell) -> Cell {
    Cell {
        cell_type: CellType::Empty,
        is_corner: c.is_corner,
        is_throne: c.is_throne,
        is_selected: false,
        is_possible_move: false,
    }
}

/// `c` with both interaction marks cleared; occupant and terrain unchanged.
pub open spec fn unmarked(c: Cell) -> Cell {
    Cell {
        cell_type: c.cell_type,
        is_corner: c.is_corner,
        is_throne: c.is_throne,
        is_selected: false,
        is_possible_move: false,
    }
}

/// `c` with the highlighted-move mark raised; everything else unchanged.
pub open spec fn move_marked(c: Cell) -> Cell {
    Cell {
        cell_type: c.cell_type,
        is_corner: c.is_corner,
        is_throne: c.is_throne,
        is_selected: c.is_selected,
        is_possible_move: true,
    }
}

/// One of the eight starting squares of the Attackers.
pub open spec fn attacker_start(r: int, c: int) -> bool {
    ||| (r == 0 && c == 3)
    ||| (r == 1 && c == 3)
    ||| (r == 3 && (c == 0 || c == 1 || c == 5 || c == 6))
    ||| (r == 5 && c == 3)
    ||| (r == 6 && c == 3)
}

/// One of the four starting squares of the Defenders, around the throne.
pub open spec fn defender_start(r: int, c: int) -> bool {
    (r == 2 && c == 3) || (r == 3 && (c == 2 || c == 4)) || (r == 4 && c == 3)
}

/// The piece standing on `(r, c)` in the starting position: the King on
/// the throne, Attackers on the edge arms, Defenders around the throne.
pub open spec fn initial_piece(r: int, c: int) -> CellType {
    if throne_pos(r, c) {
        CellType::King
    } else if attacker_start(r, c) {
        CellType::Attacker
    } else if defender_start(r, c) {
        CellType::Defender
    } else {
        CellType::Empty
    }
}

/// The full starting cell at `(r, c)`.
pub open spec fn initial_cell(r: int, c: int) -> Cell {
    Cell {
        cell_type: initial_piece(r, c),
        is_corner: corner_pos(r, c),
        is_throne: throne_pos(r, c),
        is_selected: false,
        is_possible_move: false,
    }
}

/// The starting grid.
pub open spec fn initial_grid() -> Seq<Seq<Cell>> {
    Seq::new(7, |r: int| Seq::new(7, |c: int| initial_cell(r, c)))
}

/// The starting grid is well formed: right dimensions, terrain in place,
/// and exactly one King (on the throne).
pub proof fn lemma_initial_grid_wf()
    ensures
        grid_wf(initial_grid()),
{
    let g = initial_grid();
    assert forall|r: int, c: int| in_bounds(r, c) implies #[trigger] gat(g, r, c) == initial_cell(
        r,
        c,
    ) by {
        assert(g[r] == Seq::new(7, |c: int| initial_cell(r, c)));
    }
}

} // verus!
