//! The game state and the executable rule engine: board construction,
//! legal-move generation, move application with custodian capture and win
//! evaluation, and the two-click selection flow.
//!
//! Every method is proved against the grid-level model in
//! [`crate::rules`].

use vstd::prelude::*;

use crate::board::{
    gat, grid_dims, grid_wf, in_bounds, initial_cell, initial_grid, lemma_initial_grid_wf,
    move_marked, other_turn, unmarked, Cell, CellType,
};
use crate::rules::{
    adjacent, capture_at, captured_cell, dest_ok, grid_captures, grid_relocate, grid_select,
    grid_unmark, king_adjacent, king_escaped, king_trapped, lemma_captures_wf,
    lemma_grid_captures_cells, lemma_grid_relocate_cells, lemma_grid_select_cells,
    lemma_grid_unmark_cells, lemma_king_adjacent_cases, lemma_relocate_wf, move_verdict,
    on_segment, passable, segment_blocked, side_piece, side_stuck, submit_verdict, surrounded_at,
    winner_of, wrong_owner, MoveError,
};

verus! {

/// Every listed move is a legal destination from `(sr, sc)`.
pub open spec fn sound_moves(
    g: Seq<Seq<Cell>>,
    sr: int,
    sc: int,
    res: Seq<(usize, usize)>,
) -> bool {
    forall|i: int|
        0 <= i < res.len() ==> dest_ok(g, sr, sc, (#[trigger] res[i]).0 as int, res[i].1 as int)
}

/// Every legal destination in column `sc` with row in `[lo, hi)` is listed.
pub open spec fn col_covered(
    g: Seq<Seq<Cell>>,
    sr: int,
    sc: int,
    res: Seq<(usize, usize)>,
    lo: int,
    hi: int,
) -> bool {
    forall|x: int|
        lo <= x < hi && #[trigger] dest_ok(g, sr, sc, x, sc) ==> res.contains(
            ((x as usize), (sc as usize)),
        )
}

/// Every legal destination in row `sr` with column in `[lo, hi)` is listed.
pub open spec fn row_covered(
    g: Seq<Seq<Cell>>,
    sr: int,
    sc: int,
    res: Seq<(usize, usize)>,
    lo: int,
    hi: int,
) -> bool {
    forall|x: int|
        lo <= x < hi && #[trigger] dest_ok(g, sr, sc, sr, x) ==> res.contains(
            ((sr as usize), (x as usize)),
        )
}

/// Pushing onto a sequence keeps every element it contained and adds the
/// pushed one.
proof fn lemma_push_contains<A>(s: Seq<A>, v: A)
    ensures
        forall|x: A| s.contains(x) ==> #[trigger] s.push(v).contains(x),
        s.push(v).contains(v),
{
    assert forall|x: A| s.contains(x) implies #[trigger] s.push(v).contains(x) by {
        let i = choose|i: int| 0 <= i < s.len() && s[i] == x;
        assert(s.push(v)[i] == x);
    }
    assert(s.push(v)[s.len() as int] == v);
}

/// One game of Brandubh: the 7x7 board plus turn, outcome, selection and
/// bookkeeping state.
///
/// `click_count` drives the two-click flow: an odd count awaits the
/// selection of a piece, an even count awaits its destination. `from` is
/// the pending source, `last_click` the cell clicked most recently.
/// `king_capture` is a transient flag raised by the capture pass when the
/// King stands next to the landing square and consumed by the win check
/// of the same move.
#[derive(Debug)]
pub struct GameState {
    pub board: Vec<Vec<Cell>>,
    pub current_turn: CellType,
    pub game_over: bool,
    pub winner: Option<CellType>,
    pub click_count: u32,
    pub from: (usize, usize),
    pub last_click: (usize, usize),
    pub id: usize,
    pub attacker_moves: u32,
    pub defender_moves: u32,
    pub king_capture: bool,
}

/// The two states agree on every field outside the board.
pub open spec fn same_scalars(a: GameState, b: GameState) -> bool {
    &&& a.current_turn == b.current_turn
    &&& a.game_over == b.game_over
    &&& a.winner == b.winner
    &&& a.click_count == b.click_count
    &&& a.from == b.from
    &&& a.last_click == b.last_click
    &&& a.id == b.id
    &&& a.attacker_moves == b.attacker_moves
    &&& a.defender_moves == b.defender_moves
    &&& a.king_capture == b.king_capture
}


/// Wrapping increment of the click counter.
pub open spec fn wrap_inc(x: u32) -> u32 {
    if x == 0xffff_ffffu32 {
        0u32
    } else {
        (x + 1) as u32
    }
}

/// Wrapping decrement of the click counter.
pub open spec fn wrap_dec(x: u32) -> u32 {
    if x == 0u32 {
        0xffff_ffffu32
    } else {
        (x - 1) as u32
    }
}

/// A rejected source click: marks cleared, the click recorded, nothing
/// else changed.
pub open spec fn source_rejected(a: GameState, b: GameState, row: usize, col: usize) -> bool {
    &&& b.grid() == grid_unmark(a.grid())
    &&& b.last_click == (row, col)
    &&& b.current_turn == a.current_turn
    &&& b.game_over == a.game_over
    &&& b.winner == a.winner
    &&& b.click_count == a.click_count
    &&& b.from == a.from
    &&& b.id == a.id
    &&& b.attacker_moves == a.attacker_moves
    &&& b.defender_moves == a.defender_moves
    &&& b.king_capture == a.king_capture
}

/// A rejected destination click: marks cleared, the click recorded, the
/// flow back in the selection phase, nothing else changed.
pub open spec fn dest_rejected(a: GameState, b: GameState, row: usize, col: usize) -> bool {
    &&& b.grid() == grid_unmark(a.grid())
    &&& b.last_click == (row, col)
    &&& b.current_turn == a.current_turn
    &&& b.game_over == a.game_over
    &&& b.winner == a.winner
    &&& b.click_count == wrap_dec(a.click_count)
    &&& b.from == a.from
    &&& b.id == a.id
    &&& b.attacker_moves == a.attacker_moves
    &&& b.defender_moves == a.defender_moves
    &&& b.king_capture == a.king_capture
}

/// An accepted source click: the clicked piece is selected, its legal
/// destinations are highlighted, and the flow moves to the destination
/// phase with the source remembered.
pub open spec fn source_selected(a: GameState, b: GameState, row: usize, col: usize) -> bool {
    &&& b.grid() == grid_select(a.grid(), row as int, col as int)
    &&& b.click_count == wrap_inc(a.click_count)
    &&& b.from == (row, col)
    &&& b.last_click == (row, col)
    &&& b.current_turn == a.current_turn
    &&& b.game_over == a.game_over
    &&& b.winner == a.winner
    &&& b.id == a.id
    &&& b.attacker_moves == a.attacker_moves
    &&& b.defender_moves == a.defender_moves
    &&& b.king_capture == a.king_capture
}

/// An accepted destination click: the pending move is applied in full
/// (relocation, captures, win evaluation, turn flip unless the game just
/// ended), all marks are cleared and the flow returns to the selection
/// phase.
pub open spec fn moved_ok(a: GameState, b: GameState, row: usize, col: usize) -> bool {
    let g1 = grid_relocate(a.grid(), a.from.0 as int, a.from.1 as int, row as int, col as int);
    let g2 = grid_captures(g1, row as int, col as int);
    let kc2 = a.king_capture || king_adjacent(g1, row as int, col as int);
    let w = winner_of(g2, a.current_turn, kc2);
    &&& b.grid() == grid_unmark(g2)
    &&& b.game_over == (a.game_over || w is Some)
    &&& b.winner == if w is Some {
        w
    } else {
        a.winner
    }
    &&& b.current_turn == if w is Some {
        a.current_turn
    } else {
        other_turn(a.current_turn)
    }
    &&& b.king_capture == false
    &&& b.click_count == wrap_inc(a.click_count)
    &&& b.from == a.from
    &&& b.last_click == (row, col)
    &&& b.id == a.id
    &&& b.attacker_moves == a.attacker_moves
    &&& b.defender_moves == a.defender_moves
}

/// The grid a legal move `from` -> `to` leaves behind: relocation, then
/// the capture pass around the landing square.
pub open spec fn applied_grid(a: GameState, from: (usize, usize), to: (usize, usize)) -> Seq<
    Seq<Cell>,
> {
    grid_captures(
        grid_relocate(a.grid(), from.0 as int, from.1 as int, to.0 as int, to.1 as int),
        to.0 as int,
        to.1 as int,
    )
}

/// The winner the rule engine reports right after the legal move
/// `from` -> `to` is applied to `a`.
pub open spec fn applied_winner(a: GameState, from: (usize, usize), to: (usize, usize)) -> Option<
    CellType,
> {
    let g1 = grid_relocate(a.grid(), from.0 as int, from.1 as int, to.0 as int, to.1 as int);
    let kc2 = a.king_capture || king_adjacent(g1, to.0 as int, to.1 as int);
    winner_of(applied_grid(a, from, to), a.current_turn, kc2)
}

/// A legal move `from` -> `to` was applied to `a`, producing `b`:
/// relocation, capture pass, win evaluation, and a turn flip unless the
/// game just ended. Selection state and counters are untouched.
pub open spec fn applied_move(a: GameState, b: GameState, from: (usize, usize), to: (
    usize,
    usize,
)) -> bool {
    let g1 = grid_relocate(a.grid(), from.0 as int, from.1 as int, to.0 as int, to.1 as int);
    let g2 = grid_captures(g1, to.0 as int, to.1 as int);
    let kc2 = a.king_capture || king_adjacent(g1, to.0 as int, to.1 as int);
    let w = winner_of(g2, a.current_turn, kc2);
    &&& b.grid() == g2
    &&& b.game_over == (a.game_over || w is Some)
    &&& b.winner == if w is Some {
        w
    } else {
        a.winner
    }
    &&& b.current_turn == if w is Some {
        a.current_turn
    } else {
        other_turn(a.current_turn)
    }
    &&& b.king_capture == false
    &&& b.click_count == a.click_count
    &&& b.from == a.from
    &&& b.last_click == a.last_click
    &&& b.id == a.id
    &&& b.attacker_moves == a.attacker_moves
    &&& b.defender_moves == a.defender_moves
}

/// What the capture pass learns before it writes: which neighbors of
/// the landing square it takes, whether the King stands beside it, and
/// the neighbor cells themselves.
struct CaptureScan {
    hit_up: bool,
    hit_down: bool,
    hit_left: bool,
    hit_right: bool,
    king_adj: bool,
    up_cell: Cell,
    down_cell: Cell,
    left_cell: Cell,
    right_cell: Cell,
}

impl GameState {
    /// The board seen as a mathematical grid.
    pub open spec fn grid(self) -> Seq<Seq<Cell>> {
        self.board@.map_values(|row: Vec<Cell>| row@)
    }

    /// Reads the cell at an in-bounds position.
    fn cell_at(&self, r: usize, c: usize) -> (cell: Cell)
        requires
            grid_dims(self.grid()),
            r < 7,
            c < 7,
        ensures
            cell == gat(self.grid(), r as int, c as int),
    {
        proof {
            assert(self.board@.len() == 7);
            assert(self.grid()[r as int] == self.board@[r as int]@);
        }
        self.board[r][c]
    }

    /// Writes the cell at an in-bounds position, leaving every other cell
    /// and every other field unchanged.
    fn set_cell(&mut self, r: usize, c: usize, cell: Cell)
        requires
            grid_dims(old(self).grid()),
            r < 7,
            c < 7,
        ensures
            grid_dims(final(self).grid()),
            gat(final(self).grid(), r as int, c as int) == cell,
            forall|i: int, j: int|
                in_bounds(i, j) && !(i == r && j == c) ==> gat(final(self).grid(), i, j) == gat(
                    old(self).grid(),
                    i,
                    j,
                ),
            same_scalars(*final(self), *old(self)),
    {
        proof {
            assert(self.board@.len() == 7);
            assert(self.grid()[r as int] == self.board@[r as int]@);
        }
        self.board[r][c] = cell;
        proof {
            assert(self.board@.len() == 7);
            assert forall|i: int| 0 <= i < 7 implies (#[trigger] self.grid()[i]).len() == 7 by {
                assert(self.grid()[i] == self.board@[i]@);
                assert(old(self).grid()[i] == old(self).board@[i]@);
            }
            assert(gat(self.grid(), r as int, c as int) == cell) by {
                assert(self.grid()[r as int] == self.board@[r as int]@);
            }
            assert forall|i: int, j: int|
                in_bounds(i, j) && !(i == r && j == c) implies gat(self.grid(), i, j) == gat(
                old(self).grid(),
                i,
                j,
            ) by {
                assert(self.grid()[i] == self.board@[i]@);
                assert(old(self).grid()[i] == old(self).board@[i]@);
            }
        }
    }

    /// Well-formedness: a 7x7 board with terrain in place and at most one
    /// King, a turn that names a side, and in-bounds selection state.
    pub open spec fn wf(self) -> bool {
        &&& grid_wf(self.grid())
        &&& (self.current_turn == CellType::Attacker || self.current_turn == CellType::Defender)
        &&& self.from.0 < 7
        &&& self.from.1 < 7
        &&& self.last_click.0 < 7
        &&& self.last_click.1 < 7
    }

    /// The two-click flow awaits the selection of a piece to move.
    pub open spec fn awaiting_source(self) -> bool {
        self.click_count % 2 == 1
    }

    /// Creates a new game with the initial Brandubh board: Attackers on
    /// the four edge arms, Defenders around the throne, the King on the
    /// throne, the Attacker side to move.
    pub fn new(id: usize) -> (s: GameState)
        ensures
            s.wf(),
            s.grid() == initial_grid(),
            s.current_turn == CellType::Attacker,
            s.game_over == false,
            s.winner is None,
            s.click_count == 1,
            s.from == (0usize, 0usize),
            s.last_click == (0usize, 0usize),
            s.id == id,
            s.attacker_moves == 0,
            s.defender_moves == 0,
            s.king_capture == false,
    {
        let mut board: Vec<Vec<Cell>> = Vec::new();
        let mut r: usize = 0;
        while r < 7
            invariant
                r <= 7,
                board@.len() == r,
                forall|i: int|
                    0 <= i < r ==> (#[trigger] board@[i])@.len() == 7 && forall|j: int|
                        0 <= j < 7 ==> board@[i]@[j] == initial_cell(i, j),
            decreases 7 - r,
        {
            let mut row: Vec<Cell> = Vec::new();
            let mut c: usize = 0;
            while c < 7
                invariant
                    c <= 7,
                    row@.len() == c,
                    r < 7,
                    forall|j: int| 0 <= j < c ==> row@[j] == initial_cell(r as int, j),
                decreases 7 - c,
            {
                let piece = if r == 3 && c == 3 {
                    CellType::King
                } else if (r == 0 && c == 3) || (r == 1 && c == 3) || (r == 3 && (c == 0 || c == 1
                    || c == 5 || c == 6)) || (r == 5 && c == 3) || (r == 6 && c == 3) {
                    CellType::Attacker
                } else if (r == 2 && c == 3) || (r == 3 && (c == 2 || c == 4)) || (r == 4 && c
                    == 3) {
                    CellType::Defender
                } else {
                    CellType::Empty
                };
                let cell = Cell {
                    cell_type: piece,
                    is_corner: (r == 0 || r == 6) && (c == 0 || c == 6),
                    is_throne: r == 3 && c == 3,
                    is_selected: false,
                    is_possible_move: false,
                };
                proof {
                    assert(cell == initial_cell(r as int, c as int));
                }
                row.push(cell);
                c = c + 1;
            }
            board.push(row);
            r = r + 1;
        }
        let s = GameState {
            board,
            current_turn: CellType::Attacker,
            game_over: false,
            winner: None,
            click_count: 1,
            from: (0, 0),
            last_click: (0, 0),
            id,
            attacker_moves: 0,
            defender_moves: 0,
            king_capture: false,
        };
        proof {
            let g = s.grid();
            assert forall|i: int| 0 <= i < 7 implies g[i] =~= initial_grid()[i] by {
                assert(g[i] == s.board@[i]@);
                assert(initial_grid()[i] == Seq::new(7, |c: int| initial_cell(i, c)));
            }
            assert(g =~~= initial_grid());
            lemma_initial_grid_wf();
        }
        s
    }

    /// Checks that the given position lies on the board.
    fn is_within_bounds(&self, pos: (usize, usize)) -> (r: bool)
        requires
            self.grid().len() == 7,
        ensures
            r == in_bounds(pos.0 as int, pos.1 as int),
    {
        let size = self.board.len();
        pos.0 < size && pos.1 < size
    }

    /// Checks that every cell strictly after `from` up to and including
    /// `to` on their straight line is empty; `false` for positions not on
    /// one line.
    fn is_path_clear(&self, from: (usize, usize), to: (usize, usize)) -> (r: bool)
        requires
            grid_dims(self.grid()),
            in_bounds(from.0 as int, from.1 as int),
            in_bounds(to.0 as int, to.1 as int),
        ensures
            r == if from.0 == to.0 || from.1 == to.1 {
                !segment_blocked(self.grid(), from.0 as int, from.1 as int, to.0 as int, to.1 as int)
            } else {
                false
            },
    {
        let (row, col) = from;
        if row == to.0 && col == to.1 {
            return true;
        }
        if row == to.0 {
            let lo = if col < to.1 { col + 1 } else { to.1 };
            let hi = if col < to.1 { to.1 } else { col - 1 };
            let mut c = lo;
            while c <= hi
                invariant
                    grid_dims(self.grid()),
                    row == from.0 && col == from.1,
                    row == to.0,
                    row < 7,
                    lo <= c,
                    hi < 7,
                    lo == if col < to.1 { col + 1 } else { to.1 as int },
                    hi == if col < to.1 { to.1 as int } else { col - 1 },
                    col < 7,
                    to.1 < 7,
                    col != to.1,
                    forall|x: int|
                        on_segment(col as int, to.1 as int, x) && lo <= x < c ==> gat(
                            self.grid(),
                            row as int,
                            x,
                        ).cell_type == CellType::Empty,
                decreases hi + 1 - c,
            {
                let cur = self.cell_at(row, c);
                if cur.cell_type != CellType::Empty {
                    proof {
                        let gs = self.grid();
                        assert(segment_blocked(gs, row as int, col as int, to.0 as int, to.1 as int))
                            by {
                            assert(on_segment(col as int, to.1 as int, c as int) && gat(
                                gs,
                                row as int,
                                c as int,
                            ).cell_type != CellType::Empty);
                        }
                    }
                    return false;
                }
                c = c + 1;
            }
            proof {
                assert forall|x: int| on_segment(col as int, to.1 as int, x) implies gat(
                    self.grid(),
                    row as int,
                    x,
                ).cell_type == CellType::Empty by {
                    assert(lo <= x < c);
                }
            }
            true
        } else if col == to.1 {
            let lo = if row < to.0 { row + 1 } else { to.0 };
            let hi = if row < to.0 { to.0 } else { row - 1 };
            let mut r = lo;
            while r <= hi
                invariant
                    grid_dims(self.grid()),
                    row == from.0 && col == from.1,
                    col == to.1,
                    col < 7,
                    lo <= r,
                    hi < 7,
                    lo == if row < to.0 { row + 1 } else { to.0 as int },
                    hi == if row < to.0 { to.0 as int } else { row - 1 },
                    row < 7,
                    to.0 < 7,
                    row != to.0,
                    forall|x: int|
                        on_segment(row as int, to.0 as int, x) && lo <= x < r ==> gat(
                            self.grid(),
                            x,
                            col as int,
                        ).cell_type == CellType::Empty,
                decreases hi + 1 - r,
            {
                let cur = self.cell_at(r, col);
                if cur.cell_type != CellType::Empty {
                    proof {
                        let gs = self.grid();
                        assert(segment_blocked(gs, row as int, col as int, to.0 as int, to.1 as int))
                            by {
                            assert(on_segment(row as int, to.0 as int, r as int) && gat(
                                gs,
                                r as int,
                                col as int,
                            ).cell_type != CellType::Empty);
                        }
                    }
                    return false;
                }
                r = r + 1;
            }
            proof {
                assert forall|x: int| on_segment(row as int, to.0 as int, x) implies gat(
                    self.grid(),
                    x,
                    col as int,
                ).cell_type == CellType::Empty by {
                    assert(lo <= x < r);
                }
            }
            true
        } else {
            false
        }
    }

    /// Checks the geometric part of move legality: distinct in-bounds
    /// endpoints on one straight line with an open, empty path.
    pub fn is_valid_move(&self, from: (usize, usize), to: (usize, usize)) -> (r: bool)
        requires
            grid_dims(self.grid()),
            in_bounds(from.0 as int, from.1 as int),
        ensures
            r == (!(from.0 == to.0 && from.1 == to.1) && in_bounds(to.0 as int, to.1 as int) && (
            from.0 == to.0 || from.1 == to.1) && !segment_blocked(
                self.grid(),
                from.0 as int,
                from.1 as int,
                to.0 as int,
                to.1 as int,
            )),
    {
        if (from.0 == to.0 && from.1 == to.1) || !self.is_within_bounds(to) {
            return false;
        }
        if from.0 != to.0 && from.1 != to.1 {
            return false;
        }
        self.is_path_clear(from, to)
    }

    /// Collects every legal destination of the piece standing on `start`:
    /// straight slides in the four orthogonal directions that stop before
    /// occupied cells, with corners and the throne closed to everything
    /// but the King. Returns the empty list when `start` is out of bounds
    /// or holds no piece.
    #[verifier::loop_isolation(false)]
    pub fn calculate_valid_moves(&self, start: (usize, usize)) -> (res: Vec<(usize, usize)>)
        requires
            grid_dims(self.grid()),
        ensures
            sound_moves(self.grid(), start.0 as int, start.1 as int, res@),
            forall|tr: int, tc: int|
                #[trigger] dest_ok(self.grid(), start.0 as int, start.1 as int, tr, tc)
                    ==> res@.contains(((tr as usize), (tc as usize))),
    {
        let mut res: Vec<(usize, usize)> = Vec::new();
        if !(start.0 < 7 && start.1 < 7) {
            return res;
        }
        let (sr, sc) = start;
        let scell = self.cell_at(sr, sc);
        let kind = scell.cell_type;
        if kind == CellType::Empty {
            return res;
        }
        let ghost g = self.grid();
        let ghost sri = sr as int;
        let ghost sci = sc as int;
        // upward
        let mut r = sr;
        let mut open_path = true;
        while open_path && r > 0
            invariant
                r <= sr,
                forall|x: int| r <= x < sri ==> passable(g, kind, x, sci),
                !open_path ==> 1 <= r && !passable(g, kind, r - 1, sci),
                sound_moves(g, sri, sci, res@),
                col_covered(g, sri, sci, res@, r as int, sri),
            decreases r + (if open_path { 1int } else { 0int }),
        {
            let nr = r - 1;
            let cell = self.cell_at(nr, sc);
            if cell.cell_type == CellType::Empty && (kind == CellType::King || !cell.is_corner) {
                if kind == CellType::King || !(nr == 3 && sc == 3) {
                    proof {
                        assert(dest_ok(g, sri, sci, nr as int, sci)) by {
                            assert forall|x: int| on_segment(sri, nr as int, x) implies passable(
                                g,
                                kind,
                                x,
                                sci,
                            ) by {}
                        }
                        lemma_push_contains(res@, (nr, sc));
                    }
                    res.push((nr, sc));
                }
                r = nr;
            } else {
                open_path = false;
            }
        }
        proof {
            assert forall|x: int| 0 <= x < sri && dest_ok(g, sri, sci, x, sci) implies res@.contains(
                ((x as usize), (sc as usize)),
            ) by {
                if x < r {
                    assert(on_segment(sri, x, r - 1));
                    assert(passable(g, gat(g, sri, sci).cell_type, r - 1, sci));
                }
            }
            assert(col_covered(g, sri, sci, res@, 0, sri));
        }
        // downward
        let mut r2 = sr;
        let mut open2 = true;
        while open2 && r2 < 6
            invariant
                sr <= r2 <= 6,
                forall|x: int| sri < x <= r2 ==> passable(g, kind, x, sci),
                !open2 ==> r2 <= 5 && !passable(g, kind, r2 + 1, sci),
                sound_moves(g, sri, sci, res@),
                col_covered(g, sri, sci, res@, 0, sri),
                col_covered(g, sri, sci, res@, sri + 1, r2 + 1),
            decreases 6 - r2 + (if open2 { 1int } else { 0int }),
        {
            let nr = r2 + 1;
            let cell = self.cell_at(nr, sc);
            if cell.cell_type == CellType::Empty && (kind == CellType::King || !cell.is_corner) {
                if kind == CellType::King || !(nr == 3 && sc == 3) {
                    proof {
                        assert(dest_ok(g, sri, sci, nr as int, sci)) by {
                            assert forall|x: int| on_segment(sri, nr as int, x) implies passable(
                                g,
                                kind,
                                x,
                                sci,
                            ) by {}
                        }
                        lemma_push_contains(res@, (nr, sc));
                    }
                    res.push((nr, sc));
                }
                r2 = nr;
            } else {
                open2 = false;
            }
        }
        proof {
            assert forall|x: int|
                sri < x < 7 && dest_ok(g, sri, sci, x, sci) implies res@.contains(
                ((x as usize), (sc as usize)),
            ) by {
                if x > r2 {
                    assert(on_segment(sri, x, r2 + 1));
                    assert(passable(g, gat(g, sri, sci).cell_type, r2 + 1, sci));
                }
            }
            assert(col_covered(g, sri, sci, res@, sri + 1, 7));
        }
        // leftward
        let mut c = sc;
        let mut open3 = true;
        while open3 && c > 0
            invariant
                c <= sc,
                forall|x: int| c <= x < sci ==> passable(g, kind, sri, x),
                !open3 ==> 1 <= c && !passable(g, kind, sri, c - 1),
                sound_moves(g, sri, sci, res@),
                col_covered(g, sri, sci, res@, 0, sri),
                col_covered(g, sri, sci, res@, sri + 1, 7),
                row_covered(g, sri, sci, res@, c as int, sci),
            decreases c + (if open3 { 1int } else { 0int }),
        {
            let nc = c - 1;
            let cell = self.cell_at(sr, nc);
            if cell.cell_type == CellType::Empty && (kind == CellType::King || !cell.is_corner) {
                if kind == CellType::King || !(sr == 3 && nc == 3) {
                    proof {
                        assert(dest_ok(g, sri, sci, sri, nc as int)) by {
                            assert forall|x: int| on_segment(sci, nc as int, x) implies passable(
                                g,
                                kind,
                                sri,
                                x,
                            ) by {}
                        }
                        lemma_push_contains(res@, (sr, nc));
                    }
                    res.push((sr, nc));
                }
                c = nc;
            } else {
                open3 = false;
            }
        }
        proof {
            assert forall|x: int| 0 <= x < sci && dest_ok(g, sri, sci, sri, x) implies res@.contains(
                ((sr as usize), (x as usize)),
            ) by {
                if x < c {
                    assert(on_segment(sci, x, c - 1));
                    assert(passable(g, gat(g, sri, sci).cell_type, sri, c - 1));
                }
            }
            assert(row_covered(g, sri, sci, res@, 0, sci));
        }
        // rightward
        let mut c2 = sc;
        let mut open4 = true;
        while open4 && c2 < 6
            invariant
                sc <= c2 <= 6,
                forall|x: int| sci < x <= c2 ==> passable(g, kind, sri, x),
                !open4 ==> c2 <= 5 && !passable(g, kind, sri, c2 + 1),
                sound_moves(g, sri, sci, res@),
                col_covered(g, sri, sci, res@, 0, sri),
                col_covered(g, sri, sci, res@, sri + 1, 7),
                row_covered(g, sri, sci, res@, 0, sci),
                row_covered(g, sri, sci, res@, sci + 1, c2 + 1),
            decreases 6 - c2 + (if open4 { 1int } else { 0int }),
        {
            let nc = c2 + 1;
            let cell = self.cell_at(sr, nc);
            if cell.cell_type == CellType::Empty && (kind == CellType::King || !cell.is_corner) {
                if kind == CellType::King || !(sr == 3 && nc == 3) {
                    proof {
                        assert(dest_ok(g, sri, sci, sri, nc as int)) by {
                            assert forall|x: int| on_segment(sci, nc as int, x) implies passable(
                                g,
                                kind,
                                sri,
                                x,
                            ) by {}
                        }
                        lemma_push_contains(res@, (sr, nc));
                    }
                    res.push((sr, nc));
                }
                c2 = nc;
            } else {
                open4 = false;
            }
        }
        proof {
            assert forall|x: int|
                sci < x < 7 && dest_ok(g, sri, sci, sri, x) implies res@.contains(
                ((sr as usize), (x as usize)),
            ) by {
                if x > c2 {
                    assert(on_segment(sci, x, c2 + 1));
                    assert(passable(g, gat(g, sri, sci).cell_type, sri, c2 + 1));
                }
            }
            assert(row_covered(g, sri, sci, res@, sci + 1, 7));
            assert forall|tr: int, tc: int| dest_ok(g, sri, sci, tr, tc) implies res@.contains(
                ((tr as usize), (tc as usize)),
            ) by {
                if tc == sci && tr < sri {
                    assert(col_covered(g, sri, sci, res@, 0, sri));
                } else if tc == sci && tr > sri {
                    assert(col_covered(g, sri, sci, res@, sri + 1, 7));
                } else if tr == sri && tc < sci {
                    assert(row_covered(g, sri, sci, res@, 0, sci));
                } else {
                    assert(tr == sri && tc > sci);
                    assert(row_covered(g, sri, sci, res@, sci + 1, 7));
                }
            }
        }
        res
    }

    /// Resolves custodian captures around the landing square `pos`:
    /// each of its four orthogonal neighbors holding a piece hostile to
    /// the mover, with an allied piece or a corner one step beyond, is
    /// emptied. When the King stands on any in-bounds neighbor the
    /// deferred `king_capture` flag is raised; the King itself is never
    /// removed here. No cell away from those neighbors changes.
    #[verifier::rlimit(100)]
    #[verifier::spinoff_prover]
    pub fn check_captures(&mut self, pos: (usize, usize)) -> (r: Result<(), MoveError>)
        requires
            grid_dims(old(self).grid()),
            pos.0 < 7,
            pos.1 < 7,
            gat(old(self).grid(), pos.0 as int, pos.1 as int).cell_type != CellType::Empty,
        ensures
            r is Ok,
            grid_dims(final(self).grid()),
            final(self).grid() == grid_captures(old(self).grid(), pos.0 as int, pos.1 as int),
            final(self).king_capture == (old(self).king_capture || king_adjacent(
                old(self).grid(),
                pos.0 as int,
                pos.1 as int,
            )),
            final(self).current_turn == old(self).current_turn,
            final(self).game_over == old(self).game_over,
            final(self).winner == old(self).winner,
            final(self).click_count == old(self).click_count,
            final(self).from == old(self).from,
            final(self).last_click == old(self).last_click,
            final(self).id == old(self).id,
            final(self).attacker_moves == old(self).attacker_moves,
            final(self).defender_moves == old(self).defender_moves,
    {
        let scan = self.capture_scan(pos);
        let ghost g0 = self.grid();
        let ghost pri = pos.0 as int;
        let ghost pci = pos.1 as int;
        if scan.hit_up {
            self.set_cell(
                pos.0 - 1,
                pos.1,
                Cell {
                    cell_type: CellType::Empty,
                    is_corner: scan.up_cell.is_corner,
                    is_throne: scan.up_cell.is_throne,
                    is_selected: false,
                    is_possible_move: false,
                },
            );
        }
        if scan.hit_down {
            self.set_cell(
                pos.0 + 1,
                pos.1,
                Cell {
                    cell_type: CellType::Empty,
                    is_corner: scan.down_cell.is_corner,
                    is_throne: scan.down_cell.is_throne,
                    is_selected: false,
                    is_possible_move: false,
                },
            );
        }
        if scan.hit_left {
            self.set_cell(
                pos.0,
                pos.1 - 1,
                Cell {
                    cell_type: CellType::Empty,
                    is_corner: scan.left_cell.is_corner,
                    is_throne: scan.left_cell.is_throne,
                    is_selected: false,
                    is_possible_move: false,
                },
            );
        }
        if scan.hit_right {
            self.set_cell(
                pos.0,
                pos.1 + 1,
                Cell {
                    cell_type: CellType::Empty,
                    is_corner: scan.right_cell.is_corner,
                    is_throne: scan.right_cell.is_throne,
                    is_selected: false,
                    is_possible_move: false,
                },
            );
        }
        if scan.king_adj {
            self.king_capture = true;
        }
        proof {
            let g4 = self.grid();
            assert forall|i: int, j: int|
                in_bounds(i, j) && !adjacent(pri, pci, i, j) implies #[trigger] gat(g4, i, j)
                == gat(g0, i, j) by {}
            assert(in_bounds(pri - 1, pci) ==> gat(g4, pri - 1, pci) == captured_cell(
                g0,
                pri,
                pci,
                pri - 1,
                pci,
            ));
            assert(in_bounds(pri + 1, pci) ==> gat(g4, pri + 1, pci) == captured_cell(
                g0,
                pri,
                pci,
                pri + 1,
                pci,
            ));
            assert(in_bounds(pri, pci - 1) ==> gat(g4, pri, pci - 1) == captured_cell(
                g0,
                pri,
                pci,
                pri,
                pci - 1,
            ));
            assert(in_bounds(pri, pci + 1) ==> gat(g4, pri, pci + 1) == captured_cell(
                g0,
                pri,
                pci,
                pri,
                pci + 1,
            ));
            lemma_grid_captures_cells(g0, g4, pri, pci);
        }
        Ok(())
    }

    /// Reads the mover, the four neighbors of `pos` and the cells one
    /// step beyond them, and decides which neighbors the capture rule
    /// takes and whether the King stands next to `pos`.
    #[verifier::rlimit(100)]
    #[verifier::spinoff_prover]
    fn capture_scan(&self, pos: (usize, usize)) -> (s: CaptureScan)
        requires
            grid_dims(self.grid()),
            pos.0 < 7,
            pos.1 < 7,
            gat(self.grid(), pos.0 as int, pos.1 as int).cell_type != CellType::Empty,
        ensures
            s.hit_up == capture_at(self.grid(), pos.0 as int, pos.1 as int, -1, 0),
            s.hit_down == capture_at(self.grid(), pos.0 as int, pos.1 as int, 1, 0),
            s.hit_left == capture_at(self.grid(), pos.0 as int, pos.1 as int, 0, -1),
            s.hit_right == capture_at(self.grid(), pos.0 as int, pos.1 as int, 0, 1),
            s.king_adj == king_adjacent(self.grid(), pos.0 as int, pos.1 as int),
            pos.0 >= 1 ==> s.up_cell == gat(self.grid(), pos.0 - 1, pos.1 as int),
            pos.0 + 1 < 7 ==> s.down_cell == gat(self.grid(), pos.0 + 1, pos.1 as int),
            pos.1 >= 1 ==> s.left_cell == gat(self.grid(), pos.0 as int, pos.1 - 1),
            pos.1 + 1 < 7 ==> s.right_cell == gat(self.grid(), pos.0 as int, pos.1 + 1),
    {
        let mover = self.cell_at(pos.0, pos.1).cell_type;
        let defside = mover == CellType::Defender || mover == CellType::King;
        let ghost g0 = self.grid();
        let ghost pri = pos.0 as int;
        let ghost pci = pos.1 as int;
        let blank = Cell {
            cell_type: CellType::Empty,
            is_corner: false,
            is_throne: false,
            is_selected: false,
            is_possible_move: false,
        };
        let mut s = CaptureScan {
            hit_up: false,
            hit_down: false,
            hit_left: false,
            hit_right: false,
            king_adj: false,
            up_cell: blank,
            down_cell: blank,
            left_cell: blank,
            right_cell: blank,
        };
        if pos.0 >= 1 {
            s.up_cell = self.cell_at(pos.0 - 1, pos.1);
            if s.up_cell.cell_type == CellType::King {
                s.king_adj = true;
            }
            if pos.0 >= 2 {
                let bcell = self.cell_at(pos.0 - 2, pos.1);
                s.hit_up = if defside {
                    s.up_cell.cell_type == CellType::Attacker && (bcell.cell_type
                        == CellType::Defender || bcell.cell_type == CellType::King
                        || bcell.is_corner)
                } else {
                    s.up_cell.cell_type == CellType::Defender && (bcell.cell_type
                        == CellType::Attacker || bcell.is_corner)
                };
            }
        }
        if pos.0 + 1 < 7 {
            s.down_cell = self.cell_at(pos.0 + 1, pos.1);
            if s.down_cell.cell_type == CellType::King {
                s.king_adj = true;
            }
            if pos.0 + 2 < 7 {
                let bcell = self.cell_at(pos.0 + 2, pos.1);
                s.hit_down = if defside {
                    s.down_cell.cell_type == CellType::Attacker && (bcell.cell_type
                        == CellType::Defender || bcell.cell_type == CellType::King
                        || bcell.is_corner)
                } else {
                    s.down_cell.cell_type == CellType::Defender && (bcell.cell_type
                        == CellType::Attacker || bcell.is_corner)
                };
            }
        }
        if pos.1 >= 1 {
            s.left_cell = self.cell_at(pos.0, pos.1 - 1);
            if s.left_cell.cell_type == CellType::King {
                s.king_adj = true;
            }
            if pos.1 >= 2 {
                let bcell = self.cell_at(pos.0, pos.1 - 2);
                s.hit_left = if defside {
                    s.left_cell.cell_type == CellType::Attacker && (bcell.cell_type
                        == CellType::Defender || bcell.cell_type == CellType::King
                        || bcell.is_corner)
                } else {
                    s.left_cell.cell_type == CellType::Defender && (bcell.cell_type
                        == CellType::Attacker || bcell.is_corner)
                };
            }
        }
        if pos.1 + 1 < 7 {
            s.right_cell = self.cell_at(pos.0, pos.1 + 1);
            if s.right_cell.cell_type == CellType::King {
                s.king_adj = true;
            }
            if pos.1 + 2 < 7 {
                let bcell = self.cell_at(pos.0, pos.1 + 2);
                s.hit_right = if defside {
                    s.right_cell.cell_type == CellType::Attacker && (bcell.cell_type
                        == CellType::Defender || bcell.cell_type == CellType::King
                        || bcell.is_corner)
                } else {
                    s.right_cell.cell_type == CellType::Defender && (bcell.cell_type
                        == CellType::Attacker || bcell.is_corner)
                };
            }
        }
        proof {
            lemma_king_adjacent_cases(g0, pri, pci);
        }
        s
    }
    /// Decides whether the given side has no legal destination anywhere
    /// on the board.
    #[verifier::loop_isolation(false)]
    #[verifier::rlimit(60)]
    fn side_has_no_moves(&self, defenders: bool) -> (b: bool)
        requires
            grid_dims(self.grid()),
        ensures
            b == side_stuck(self.grid(), defenders),
    {
        let ghost g = self.grid();
        let mut r: usize = 0;
        while r < 7
            invariant
                r <= 7,
                forall|fr: int, fc: int, tr: int, tc: int|
                    0 <= fr < r && 0 <= fc < 7 && side_piece(defenders, gat(g, fr, fc).cell_type)
                        ==> !(#[trigger] dest_ok(g, fr, fc, tr, tc)),
            decreases 7 - r,
        {
            let mut c: usize = 0;
            while c < 7
                invariant
                    c <= 7,
                    r < 7,
                    forall|fr: int, fc: int, tr: int, tc: int|
                        0 <= fr < r && 0 <= fc < 7 && side_piece(
                            defenders,
                            gat(g, fr, fc).cell_type,
                        ) ==> !(#[trigger] dest_ok(g, fr, fc, tr, tc)),
                    forall|fc: int, tr: int, tc: int|
                        0 <= fc < c && side_piece(defenders, gat(g, r as int, fc).cell_type)
                            ==> !(#[trigger] dest_ok(g, r as int, fc, tr, tc)),
                decreases 7 - c,
            {
                let cell = self.cell_at(r, c);
                let relevant = if defenders {
                    cell.cell_type == CellType::Defender || cell.cell_type == CellType::King
                } else {
                    cell.cell_type == CellType::Attacker
                };
                if relevant {
                    let mv = self.calculate_valid_moves((r, c));
                    if mv.len() > 0 {
                        let ghost w = mv@[0];
                        proof {
                            assert(dest_ok(g, r as int, c as int, w.0 as int, w.1 as int));
                            assert(!side_stuck(g, defenders));
                        }
                        return false;
                    }
                    proof {
                        assert forall|tr: int, tc: int|
                            !(#[trigger] dest_ok(g, r as int, c as int, tr, tc)) by {
                            if dest_ok(g, r as int, c as int, tr, tc) {
                                assert(mv@.contains(((tr as usize), (tc as usize))));
                            }
                        }
                    }
                }
                c = c + 1;
            }
            r = r + 1;
        }
        true
    }

    /// Evaluates the win conditions, in their fixed priority: King on a
    /// corner, King surrounded (only after an Attacker move or with the
    /// deferred adjacency flag raised), defending side stalemated,
    /// attacking side stalemated. Consumes the deferred flag; nothing
    /// else changes.
    #[verifier::loop_isolation(false)]
    #[verifier::rlimit(100)]
    #[verifier::spinoff_prover]
    pub fn check_win_condition(&mut self) -> (w: Option<CellType>)
        requires
            old(self).wf(),
        ensures
            w == winner_of(old(self).grid(), old(self).current_turn, old(self).king_capture),
            final(self).grid() == old(self).grid(),
            final(self).king_capture == false,
            final(self).current_turn == old(self).current_turn,
            final(self).game_over == old(self).game_over,
            final(self).winner == old(self).winner,
            final(self).click_count == old(self).click_count,
            final(self).from == old(self).from,
            final(self).last_click == old(self).last_click,
            final(self).id == old(self).id,
            final(self).attacker_moves == old(self).attacker_moves,
            final(self).defender_moves == old(self).defender_moves,
    {
        let kc = self.king_capture;
        self.king_capture = false;
        let ghost g = self.grid();
        // 1. escape: the King stands on a corner
        if self.cell_at(0, 0).cell_type == CellType::King || self.cell_at(0, 6).cell_type
            == CellType::King || self.cell_at(6, 0).cell_type == CellType::King || self.cell_at(
            6,
            6,
        ).cell_type == CellType::King {
            return Some(CellType::Defender);
        }
        proof {
            assert(!king_escaped(g));
        }
        // 2. surround, gated on who has just moved and the deferred flag
        let mut king_row: usize = 0;
        let mut king_col: usize = 0;
        let mut king_found = false;
        let mut r: usize = 0;
        while r < 7
            invariant
                r <= 7,
                king_found ==> king_row < 7 && king_col < 7 && gat(
                    g,
                    king_row as int,
                    king_col as int,
                ).cell_type == CellType::King,
                !king_found ==> forall|i: int, j: int|
                    0 <= i < r && 0 <= j < 7 ==> (#[trigger] gat(g, i, j)).cell_type
                        != CellType::King,
            decreases 7 - r,
        {
            let mut c: usize = 0;
            while c < 7
                invariant
                    c <= 7,
                    r < 7,
                    king_found ==> king_row < 7 && king_col < 7 && gat(
                        g,
                        king_row as int,
                        king_col as int,
                    ).cell_type == CellType::King,
                    !king_found ==> (forall|i: int, j: int|
                        0 <= i < r && 0 <= j < 7 ==> (#[trigger] gat(g, i, j)).cell_type
                            != CellType::King) && (forall|j: int|
                        0 <= j < c ==> (#[trigger] gat(g, r as int, j)).cell_type
                            != CellType::King),
                decreases 7 - c,
            {
                if self.cell_at(r, c).cell_type == CellType::King {
                    king_row = r;
                    king_col = c;
                    king_found = true;
                }
                c = c + 1;
            }
            r = r + 1;
        }
        if self.current_turn == CellType::Attacker || kc {
            if king_found {
                let kr = king_row;
                let kcol = king_col;
                if kr == 3 && kcol == 3 {
                    if self.cell_at(2, 3).cell_type == CellType::Attacker && self.cell_at(
                        4,
                        3,
                    ).cell_type == CellType::Attacker && self.cell_at(3, 2).cell_type
                        == CellType::Attacker && self.cell_at(3, 4).cell_type
                        == CellType::Attacker {
                        proof {
                            assert(surrounded_at(g, 3, 3));
                            assert(king_trapped(g));
                        }
                        return Some(CellType::Attacker);
                    }
                } else if (kr == 2 && kcol == 3) || (kr == 3 && kcol == 2) || (kr == 3 && kcol == 4)
                    || (kr == 4 && kcol == 3) {
                    let mut ok = true;
                    if kr >= 1 && !(kr - 1 == 3 && kcol == 3) {
                        if self.cell_at(kr - 1, kcol).cell_type != CellType::Attacker {
                            ok = false;
                        }
                    }
                    if kr + 1 < 7 && !(kr + 1 == 3 && kcol == 3) {
                        if self.cell_at(kr + 1, kcol).cell_type != CellType::Attacker {
                            ok = false;
                        }
                    }
                    if kcol >= 1 && !(kr == 3 && kcol - 1 == 3) {
                        if self.cell_at(kr, kcol - 1).cell_type != CellType::Attacker {
                            ok = false;
                        }
                    }
                    if kcol + 1 < 7 && !(kr == 3 && kcol + 1 == 3) {
                        if self.cell_at(kr, kcol + 1).cell_type != CellType::Attacker {
                            ok = false;
                        }
                    }
                    if ok {
                        proof {
                            assert(surrounded_at(g, kr as int, kcol as int));
                            assert(king_trapped(g));
                        }
                        return Some(CellType::Attacker);
                    }
                } else {
                    let mut trapped = false;
                    if kr >= 1 && kr + 1 < 7 {
                        let a = self.cell_at(kr - 1, kcol);
                        let b = self.cell_at(kr + 1, kcol);
                        if (a.cell_type == CellType::Attacker && b.cell_type == CellType::Attacker)
                            || (a.cell_type == CellType::Attacker && b.is_corner) || (a.is_corner
                            && b.cell_type == CellType::Attacker) {
                            trapped = true;
                        }
                    }
                    if !trapped && kcol >= 1 && kcol + 1 < 7 {
                        let a = self.cell_at(kr, kcol - 1);
                        let b = self.cell_at(kr, kcol + 1);
                        if (a.cell_type == CellType::Attacker && b.cell_type == CellType::Attacker)
                            || (a.cell_type == CellType::Attacker && b.is_corner) || (a.is_corner
                            && b.cell_type == CellType::Attacker) {
                            trapped = true;
                        }
                    }
                    if trapped {
                        proof {
                            assert(surrounded_at(g, kr as int, kcol as int));
                            assert(king_trapped(g));
                        }
                        return Some(CellType::Attacker);
                    }
                }
                proof {
                    assert(!surrounded_at(g, kr as int, kcol as int));
                    assert forall|i: int, j: int|
                        in_bounds(i, j) && (#[trigger] gat(g, i, j)).cell_type == CellType::King
                            implies !surrounded_at(g, i, j) by {
                        assert(i == kr as int && j == kcol as int);
                    }
                    assert(!king_trapped(g));
                }
            } else {
                proof {
                    assert(!king_trapped(g));
                }
            }
        }
        proof {
            assert(!((old(self).current_turn == CellType::Attacker || old(self).king_capture)
                && king_trapped(g)));
        }
        // 3. the defending side cannot move
        if self.side_has_no_moves(true) {
            return Some(CellType::Attacker);
        }
        // 4. the attacking side cannot move
        if self.side_has_no_moves(false) {
            return Some(CellType::Defender);
        }
        None
    }
    /// Applies the move `from` -> `to`: validates it (reporting the
    /// first failing rule), relocates the piece with terrain preserved,
    /// runs the capture pass around the landing square, evaluates the
    /// win conditions, and flips the turn unless the game just ended.
    /// On any error the state is left exactly as it was.
    #[verifier::rlimit(100)]
    #[verifier::spinoff_prover]
    pub fn make_move(&mut self, from: (usize, usize), to: (usize, usize)) -> (r: Result<
        (),
        MoveError,
    >)
        requires
            old(self).wf(),
        ensures
            final(self).wf(),
            match r {
                Result::Err(e) => move_verdict(
                    old(self).grid(),
                    from.0 as int,
                    from.1 as int,
                    to.0 as int,
                    to.1 as int,
                ) == Some(e) && *final(self) == *old(self),
                Result::Ok(u) => move_verdict(
                    old(self).grid(),
                    from.0 as int,
                    from.1 as int,
                    to.0 as int,
                    to.1 as int,
                ) is None && ({
                    let g1 = grid_relocate(
                        old(self).grid(),
                        from.0 as int,
                        from.1 as int,
                        to.0 as int,
                        to.1 as int,
                    );
                    let g2 = grid_captures(g1, to.0 as int, to.1 as int);
                    let kc2 = old(self).king_capture || king_adjacent(g1, to.0 as int, to.1 as int);
                    let w = winner_of(g2, old(self).current_turn, kc2);
                    &&& final(self).grid() == g2
                    &&& final(self).game_over == (old(self).game_over || w is Some)
                    &&& final(self).winner == if w is Some {
                        w
                    } else {
                        old(self).winner
                    }
                    &&& final(self).current_turn == if w is Some {
                        old(self).current_turn
                    } else {
                        other_turn(old(self).current_turn)
                    }
                    &&& final(self).king_capture == false
                    &&& final(self).click_count == old(self).click_count
                    &&& final(self).from == old(self).from
                    &&& final(self).last_click == old(self).last_click
                    &&& final(self).id == old(self).id
                    &&& final(self).attacker_moves == old(self).attacker_moves
                    &&& final(self).defender_moves == old(self).defender_moves
                }),
            },
    {
        if !(from.0 < 7 && from.1 < 7 && to.0 < 7 && to.1 < 7) {
            return Err(MoveError::OutOfBounds);
        }
        let fcell = self.cell_at(from.0, from.1);
        let kind = fcell.cell_type;
        if kind == CellType::Empty {
            return Err(MoveError::EmptyCellSelected);
        }
        if from.0 == to.0 && from.1 == to.1 {
            return Err(MoveError::IllegalDestination);
        }
        if from.0 != to.0 && from.1 != to.1 {
            return Err(MoveError::NotStraightLine);
        }
        if !self.is_path_clear(from, to) {
            return Err(MoveError::PathBlocked);
        }
        let tcell = self.cell_at(to.0, to.1);
        if kind != CellType::King && (tcell.is_corner || tcell.is_throne) {
            return Err(MoveError::IllegalDestination);
        }
        let ghost g0 = self.grid();
        let ghost fri = from.0 as int;
        let ghost fci = from.1 as int;
        let ghost tri = to.0 as int;
        let ghost tci = to.1 as int;
        proof {
            assert(move_verdict(g0, fri, fci, tri, tci) is None);
            // the destination itself lies on the open segment, so it is empty
            assert(on_segment(if fri == tri { fci } else { fri }, if fri == tri { tci } else { tri },
                if fri == tri { tci } else { tri }));
            assert(gat(g0, tri, tci).cell_type == CellType::Empty);
        }
        // relocate the piece; terrain flags stay with their squares
        self.set_cell(
            to.0,
            to.1,
            Cell {
                cell_type: kind,
                is_corner: tcell.is_corner,
                is_throne: tcell.is_throne,
                is_selected: false,
                is_possible_move: false,
            },
        );
        self.set_cell(
            from.0,
            from.1,
            Cell {
                cell_type: CellType::Empty,
                is_corner: fcell.is_corner,
                is_throne: fcell.is_throne,
                is_selected: false,
                is_possible_move: false,
            },
        );
        let ghost g1 = grid_relocate(g0, fri, fci, tri, tci);
        proof {
            lemma_grid_relocate_cells(g0, self.grid(), fri, fci, tri, tci);
            lemma_relocate_wf(g0, fri, fci, tri, tci);
            assert(gat(g1, tri, tci).cell_type == kind);
        }
        let _ = self.check_captures(to);
        let ghost g2 = grid_captures(g1, tri, tci);
        proof {
            lemma_captures_wf(g1, tri, tci);
            assert(self.grid() == g2);
        }
        let w = self.check_win_condition();
        match w {
            Some(winner) => {
                self.game_over = true;
                self.winner = Some(winner);
                Ok(())
            },
            None => {
                if self.current_turn == CellType::Attacker {
                    self.current_turn = CellType::Defender;
                } else {
                    self.current_turn = CellType::Attacker;
                }
                Ok(())
            },
        }
    }
    /// Clears every selection and highlighted-move mark on the board.
    #[verifier::loop_isolation(false)]
    fn clear_marks(&mut self)
        requires
            grid_dims(old(self).grid()),
        ensures
            grid_dims(final(self).grid()),
            final(self).grid() == grid_unmark(old(self).grid()),
            crate::board::grid_wf(old(self).grid()) ==> crate::board::grid_wf(final(self).grid()),
            same_scalars(*final(self), *old(self)),
    {
        let ghost g0 = self.grid();
        let mut r: usize = 0;
        while r < 7
            invariant
                r <= 7,
                grid_dims(self.grid()),
                same_scalars(*self, *old(self)),
                forall|i: int, j: int|
                    in_bounds(i, j) ==> #[trigger] gat(self.grid(), i, j) == (if i < r {
                        unmarked(gat(g0, i, j))
                    } else {
                        gat(g0, i, j)
                    }),
            decreases 7 - r,
        {
            let mut c: usize = 0;
            while c < 7
                invariant
                    c <= 7,
                    r < 7,
                    grid_dims(self.grid()),
                    same_scalars(*self, *old(self)),
                    forall|i: int, j: int|
                        in_bounds(i, j) ==> #[trigger] gat(self.grid(), i, j) == (if i < r || (i
                            == r && j < c) {
                            unmarked(gat(g0, i, j))
                        } else {
                            gat(g0, i, j)
                        }),
                decreases 7 - c,
            {
                let cell = self.cell_at(r, c);
                self.set_cell(
                    r,
                    c,
                    Cell {
                        cell_type: cell.cell_type,
                        is_corner: cell.is_corner,
                        is_throne: cell.is_throne,
                        is_selected: false,
                        is_possible_move: false,
                    },
                );
                proof {
                    assert forall|i: int, j: int| in_bounds(i, j) implies #[trigger] gat(
                        self.grid(),
                        i,
                        j,
                    ) == (if i < r || (i == r && j < c + 1) {
                        unmarked(gat(g0, i, j))
                    } else {
                        gat(g0, i, j)
                    }) by {}
                }
                c = c + 1;
            }
            r = r + 1;
        }
        proof {
            lemma_grid_unmark_cells(g0, self.grid());
        }
    }

    /// Raises the highlighted-move mark on every listed cell.
    #[verifier::loop_isolation(false)]
    fn mark_moves(&mut self, moves: &Vec<(usize, usize)>)
        requires
            grid_dims(old(self).grid()),
            forall|k: int|
                0 <= k < moves@.len() ==> (#[trigger] moves@[k]).0 < 7 && moves@[k].1 < 7,
        ensures
            grid_dims(final(self).grid()),
            same_scalars(*final(self), *old(self)),
            forall|i: int, j: int|
                in_bounds(i, j) ==> #[trigger] gat(final(self).grid(), i, j) == (
                if moves@.contains(((i as usize), (j as usize))) {
                    move_marked(gat(old(self).grid(), i, j))
                } else {
                    gat(old(self).grid(), i, j)
                }),
    {
        let ghost g0 = self.grid();
        let mut k: usize = 0;
        while k < moves.len()
            invariant
                k <= moves@.len(),
                grid_dims(self.grid()),
                same_scalars(*self, *old(self)),
                forall|i: int, j: int|
                    in_bounds(i, j) ==> #[trigger] gat(self.grid(), i, j) == (
                    if exists|t: int|
                        0 <= t < k && moves@[t] == ((i as usize), (j as usize)) {
                        move_marked(gat(g0, i, j))
                    } else {
                        gat(g0, i, j)
                    }),
            decreases moves@.len() - k,
        {
            let (mr, mc) = moves[k];
            let cur = self.cell_at(mr, mc);
            self.set_cell(
                mr,
                mc,
                Cell {
                    cell_type: cur.cell_type,
                    is_corner: cur.is_corner,
                    is_throne: cur.is_throne,
                    is_selected: cur.is_selected,
                    is_possible_move: true,
                },
            );
            proof {
                let ki = k as int;
                assert forall|i: int, j: int| in_bounds(i, j) implies #[trigger] gat(
                    self.grid(),
                    i,
                    j,
                ) == (if exists|t: int|
                    0 <= t < ki + 1 && moves@[t] == ((i as usize), (j as usize)) {
                    move_marked(gat(g0, i, j))
                } else {
                    gat(g0, i, j)
                }) by {
                    if i == mr && j == mc {
                        assert(moves@[ki] == ((i as usize), (j as usize)));
                    } else {
                        if exists|t: int| 0 <= t < ki + 1 && moves@[t] == (
                        (i as usize),
                        (j as usize),
                        ) {
                            let t = choose|t: int|
                                0 <= t < ki + 1 && moves@[t] == ((i as usize), (j as usize));
                            assert(t < ki);
                            assert(exists|t2: int|
                                0 <= t2 < ki && moves@[t2] == ((i as usize), (j as usize)));
                        }
                    }
                }
            }
            k = k + 1;
        }
        proof {
            assert forall|i: int, j: int| in_bounds(i, j) implies ((exists|t: int|
                0 <= t < k && moves@[t] == ((i as usize), (j as usize))) == moves@.contains(
                ((i as usize), (j as usize)),
            )) by {}
        }
    }

    /// Processes one click of the two-phase interaction. An odd
    /// `click_count` selects a piece of the side to move and highlights
    /// its destinations; an even one selects the destination and applies
    /// the move. Every rejection returns to the selection phase with all
    /// marks cleared; out-of-bounds clicks and clicks after the game
    /// ended change nothing.
    #[verifier::rlimit(100)]
    #[verifier::spinoff_prover]
    pub fn process_click(&mut self, row: usize, col: usize) -> (r: Result<(), MoveError>)
        requires
            old(self).wf(),
        ensures
            final(self).wf(),
            ({
                let g = old(self).grid();
                if !(row < 7 && col < 7) {
                    r == Result::<(), MoveError>::Err(MoveError::OutOfBounds) && *final(self)
                        == *old(self)
                } else if old(self).game_over {
                    r == Result::<(), MoveError>::Err(MoveError::GameAlreadyOver) && *final(self)
                        == *old(self)
                } else if old(self).awaiting_source() {
                    let kind = gat(g, row as int, col as int).cell_type;
                    if kind == CellType::Empty {
                        r == Result::<(), MoveError>::Err(MoveError::EmptyCellSelected)
                            && source_rejected(*old(self), *final(self), row, col)
                    } else if wrong_owner(old(self).current_turn, kind) {
                        r == Result::<(), MoveError>::Err(MoveError::WrongOwner) && source_rejected(
                            *old(self),
                            *final(self),
                            row,
                            col,
                        )
                    } else {
                        r is Ok && source_selected(*old(self), *final(self), row, col)
                    }
                } else {
                    let kind = gat(g, old(self).from.0 as int, old(self).from.1 as int).cell_type;
                    let dcell = gat(g, row as int, col as int);
                    if dcell.cell_type != CellType::Empty {
                        r == Result::<(), MoveError>::Err(MoveError::PathBlocked) && dest_rejected(
                            *old(self),
                            *final(self),
                            row,
                            col,
                        )
                    } else if (dcell.is_corner || dcell.is_throne) && kind != CellType::King {
                        r == Result::<(), MoveError>::Err(MoveError::IllegalDestination)
                            && dest_rejected(*old(self), *final(self), row, col)
                    } else {
                        match move_verdict(
                            g,
                            old(self).from.0 as int,
                            old(self).from.1 as int,
                            row as int,
                            col as int,
                        ) {
                            Some(e) => r == Result::<(), MoveError>::Err(e) && dest_rejected(
                                *old(self),
                                *final(self),
                                row,
                                col,
                            ),
                            None => r is Ok && moved_ok(*old(self), *final(self), row, col),
                        }
                    }
                }
            }),
    {
        if !(row < 7 && col < 7) {
            return Err(MoveError::OutOfBounds);
        }
        if self.game_over {
            return Err(MoveError::GameAlreadyOver);
        }
        if self.click_count % 2 == 1 {
            // first click: select a piece of the side to move
            let cell = self.cell_at(row, col);
            if cell.cell_type == CellType::Empty {
                self.clear_marks();
                self.last_click = (row, col);
                return Err(MoveError::EmptyCellSelected);
            }
            let wrong = if self.current_turn == CellType::Attacker {
                cell.cell_type == CellType::Defender || cell.cell_type == CellType::King
            } else {
                cell.cell_type == CellType::Attacker
            };
            if wrong {
                self.clear_marks();
                self.last_click = (row, col);
                return Err(MoveError::WrongOwner);
            }
            let ghost g = self.grid();
            let moves = self.calculate_valid_moves((row, col));
            self.clear_marks();
            self.set_cell(
                row,
                col,
                Cell {
                    cell_type: cell.cell_type,
                    is_corner: cell.is_corner,
                    is_throne: cell.is_throne,
                    is_selected: true,
                    is_possible_move: false,
                },
            );
            self.mark_moves(&moves);
            proof {
                assert forall|i: int, j: int| in_bounds(i, j) implies #[trigger] gat(
                    self.grid(),
                    i,
                    j,
                ) == (Cell {
                    cell_type: gat(g, i, j).cell_type,
                    is_corner: gat(g, i, j).is_corner,
                    is_throne: gat(g, i, j).is_throne,
                    is_selected: i == row && j == col,
                    is_possible_move: dest_ok(g, row as int, col as int, i, j),
                }) by {
                    if moves@.contains(((i as usize), (j as usize))) {
                        let t = choose|t: int|
                            0 <= t < moves@.len() && moves@[t] == ((i as usize), (j as usize));
                        assert(dest_ok(g, row as int, col as int, i, j));
                    }
                }
                lemma_grid_select_cells(g, self.grid(), row as int, col as int);
            }
            self.click_count = if self.click_count == 0xffff_ffffu32 {
                0
            } else {
                self.click_count + 1
            };
            self.from = (row, col);
            self.last_click = (row, col);
            Ok(())
        } else {
            // second click: select the destination and apply the move
            let dcell = self.cell_at(row, col);
            let src = self.from;
            let mover = self.cell_at(src.0, src.1).cell_type;
            if dcell.cell_type != CellType::Empty {
                self.clear_marks();
                self.click_count = if self.click_count == 0 {
                    0xffff_ffffu32
                } else {
                    self.click_count - 1
                };
                self.last_click = (row, col);
                return Err(MoveError::PathBlocked);
            }
            if (dcell.is_corner || dcell.is_throne) && mover != CellType::King {
                self.clear_marks();
                self.click_count = if self.click_count == 0 {
                    0xffff_ffffu32
                } else {
                    self.click_count - 1
                };
                self.last_click = (row, col);
                return Err(MoveError::IllegalDestination);
            }
            match self.make_move(src, (row, col)) {
                Ok(_) => {
                    self.clear_marks();
                    self.click_count = if self.click_count == 0xffff_ffffu32 {
                        0
                    } else {
                        self.click_count + 1
                    };
                    self.last_click = (row, col);
                    Ok(())
                },
                Err(e) => {
                    self.clear_marks();
                    self.click_count = if self.click_count == 0 {
                        0xffff_ffffu32
                    } else {
                        self.click_count - 1
                    };
                    self.last_click = (row, col);
                    Err(e)
                },
            }
        }
    }
    /// The atomic from->to submission used by networked play: the same
    /// two legality gates as the two-click flow (first the source, then
    /// the destination), then full move application. On any error the
    /// state is left exactly as it was; selection state never changes.
    pub fn submit_move(&mut self, from: (usize, usize), to: (usize, usize)) -> (r: Result<
        (),
        MoveError,
    >)
        requires
            old(self).wf(),
        ensures
            final(self).wf(),
            match r {
                Result::Err(e) => submit_verdict(
                    old(self).grid(),
                    old(self).current_turn,
                    from.0 as int,
                    from.1 as int,
                    to.0 as int,
                    to.1 as int,
                ) == Some(e) && *final(self) == *old(self),
                Result::Ok(u) => submit_verdict(
                    old(self).grid(),
                    old(self).current_turn,
                    from.0 as int,
                    from.1 as int,
                    to.0 as int,
                    to.1 as int,
                ) is None && applied_move(*old(self), *final(self), from, to),
            },
    {
        // source gate
        if !(from.0 < 7 && from.1 < 7) {
            return Err(MoveError::OutOfBounds);
        }
        let scell = self.cell_at(from.0, from.1);
        if scell.cell_type == CellType::Empty {
            return Err(MoveError::EmptyCellSelected);
        }
        let wrong = if self.current_turn == CellType::Attacker {
            scell.cell_type == CellType::Defender || scell.cell_type == CellType::King
        } else {
            scell.cell_type == CellType::Attacker
        };
        if wrong {
            return Err(MoveError::WrongOwner);
        }
        // destination gate
        if !(to.0 < 7 && to.1 < 7) {
            return Err(MoveError::OutOfBounds);
        }
        let dcell = self.cell_at(to.0, to.1);
        if dcell.cell_type != CellType::Empty {
            return Err(MoveError::PathBlocked);
        }
        if (dcell.is_corner || dcell.is_throne) && scell.cell_type != CellType::King {
            return Err(MoveError::IllegalDestination);
        }
        // full application through the rule engine
        self.make_move(from, to)
    }
}

} // verus!
