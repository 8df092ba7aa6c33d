use vstd::prelude::*;

use crate::coords::Coords;
use crate::game_utils::{coords_to_index, is_white};
use crate::piece::{Piece, PieceType};
use crate::player::PlayerId;
use crate::CELL_N;

verus! {

/// Mathematical model of a board: its cells read row by row.
pub type Grid = Seq<Option<Piece>>;

/// Position of the cell `c` when the board is read row by row.
pub open spec fn index_of(c: Coords) -> int {
    c.y * CELL_N + c.x
}

/// The grid has `CELL_N * CELL_N` cells.
pub open spec fn grid_wf(g: Grid) -> bool {
    g.len() == CELL_N * CELL_N
}

/// Content of the cell `c` of `g`.
pub open spec fn cell_of(g: Grid, c: Coords) -> Option<Piece> {
    g[index_of(c)]
}

/// `g` with the cell `c` replaced by `v`.
pub open spec fn set_cell(g: Grid, c: Coords, v: Option<Piece>) -> Grid {
    g.update(index_of(c), v)
}

/// Content of cell `c` in the opening position: the opponent's pawns on the dark cells of
/// rows 0 to 2, the starting player's pawns on the dark cells of rows 5 to 7.
pub open spec fn initial_cell(c: Coords, starting_turn: PlayerId, opponent: PlayerId) -> Option<Piece> {
    if c.y < 3 && c.is_dark() {
        Some(Piece { piece_type: PieceType::Pawn, player_id: opponent })
    } else if c.y > 4 && c.is_dark() {
        Some(Piece { piece_type: PieceType::Pawn, player_id: starting_turn })
    } else {
        None
    }
}

/// The 8x8 board, read row by row: each cell is empty or holds a piece.
#[derive(Debug)]
pub struct Board(Vec<Option<Piece>>);

impl Clone for Board {
    fn clone(&self) -> (r: Board)
        ensures
            r@ == self@,
    {
        let mut cells: Vec<Option<Piece>> = Vec::new();
        let mut i: usize = 0;
        while i < self.0.len()
            invariant
                i <= self.0@.len(),
                cells@ == self.0@.take(i as int),
            decreases self.0.len() - i,
        {
            cells.push(self.0[i]);
            i += 1;
            assert(cells@ =~= self.0@.take(i as int));
        }
        assert(self.0@.take(self.0@.len() as int) =~= self.0@);
        Board(cells)
    }
}

impl View for Board {
    type V = Grid;

    closed spec fn view(&self) -> Grid {
        self.0@
    }
}

impl Board {
    /// The board has the right shape.
    pub open spec fn wf(&self) -> bool {
        grid_wf(self@)
    }

    /// Content of the cell `c`.
    pub open spec fn cell(&self, c: Coords) -> Option<Piece> {
        cell_of(self@, c)
    }

    /// The opening position when `opening` holds, else a board with no pieces.
    fn filled(starting_turn: PlayerId, opponent: PlayerId, opening: bool) -> (b: Board)
        ensures
            b.wf(),
            forall|c: Coords|
                c.in_bounds() ==> #[trigger] cell_of(b@, c) == if opening {
                    initial_cell(c, starting_turn, opponent)
                } else {
                    None
                },
    {
        let mut grid: Vec<Option<Piece>> = Vec::new();
        let mut i: usize = 0;
        while i < CELL_N
            invariant
                i <= CELL_N,
                grid.len() == i * CELL_N,
                forall|c: Coords|
                    c.x < CELL_N && c.y < i ==> #[trigger] grid@[index_of(c)] == if opening {
                        initial_cell(c, starting_turn, opponent)
                    } else {
                        None
                    },
            decreases CELL_N - i,
        {
            let mut j: usize = 0;
            while j < CELL_N
                invariant
                    i < CELL_N,
                    j <= CELL_N,
                    grid.len() == i * CELL_N + j,
                    forall|c: Coords|
                        (c.x < CELL_N && c.y < i) || (c.x < j && c.y == i) ==> #[trigger] grid@[index_of(c)]
                            == if opening {
                            initial_cell(c, starting_turn, opponent)
                        } else {
                            None
                        },
                decreases CELL_N - j,
            {
                let coords = Coords { x: j, y: i };
                let cell = if !opening {
                    None
                } else if i < 3 && is_white(coords) {
                    Some(Piece { piece_type: PieceType::Pawn, player_id: opponent })
                } else if i > 4 && is_white(coords) {
                    Some(Piece { piece_type: PieceType::Pawn, player_id: starting_turn })
                } else {
                    None
                };
                assert(index_of(coords) == grid.len());
                grid.push(cell);
                j += 1;
            }
            i += 1;
        }
        Board(grid)
    }

    /// The opening position, with `starting_turn` on rows 5 to 7 and `opponent` on rows 0 to 2.
    pub fn new(starting_turn: PlayerId, opponent: PlayerId) -> (b: Board)
        ensures
            b.wf(),
            forall|c: Coords|
                c.in_bounds() ==> #[trigger] cell_of(b@, c) == initial_cell(c, starting_turn, opponent),
    {
        Self::filled(starting_turn, opponent, true)
    }

    /// A board with no pieces.
    pub fn empty() -> (b: Board)
        ensures
            b.wf(),
            forall|c: Coords| c.in_bounds() ==> #[trigger] cell_of(b@, c) is None,
    {
        Self::filled(0, 0, false)
    }

    /// Content of the cell `c`.
    pub fn get(&self, c: Coords) -> (r: Option<Piece>)
        requires
            self.wf(),
            c.in_bounds(),
        ensures
            r == self.cell(c),
    {
        self.0[coords_to_index(c)]
    }

    /// Puts `v` in the cell `c`.
    pub fn set(&mut self, c: Coords, v: Option<Piece>)
        requires
            old(self).wf(),
            c.in_bounds(),
        ensures
            final(self)@ == set_cell(old(self)@, c, v),
            final(self).wf(),
    {
        self.0.set(coords_to_index(c), v);
    }
}

} // verus!
