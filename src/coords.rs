use vstd::prelude::*;

use crate::CELL_N;

verus! {

/// A cell of the board: `x` is the column, `y` the row, both counted from zero.
#[derive(Debug, Default, Clone, Copy, PartialEq, Eq, Structural)]
pub struct Coords {
    pub x: usize,
    pub y: usize,
}

impl Coords {
    /// The cell lies on the board.
    pub open spec fn in_bounds(self) -> bool {
        self.x < CELL_N && self.y < CELL_N
    }

    /// The cell is a playable ("dark") square: its coordinates add up to an even number.
    pub open spec fn is_dark(self) -> bool {
        (self.x + self.y) % 2 == 0
    }

    /// Component-wise sum.
    pub fn add(self, rhs: Coords) -> (r: Coords)
        requires
            self.x + rhs.x <= usize::MAX,
            self.y + rhs.y <= usize::MAX,
        ensures
            r.x == self.x + rhs.x,
            r.y == self.y + rhs.y,
    {
        Coords { x: self.x + rhs.x, y: self.y + rhs.y }
    }

    /// Signed component-wise difference `self - rhs`.
    pub fn sub(self, rhs: Coords) -> (r: (i32, i32))
        requires
            self.x <= i32::MAX,
            self.y <= i32::MAX,
            rhs.x <= i32::MAX,
            rhs.y <= i32::MAX,
        ensures
            r.0 == self.x - rhs.x,
            r.1 == self.y - rhs.y,
    {
        (self.x as i32 - rhs.x as i32, self.y as i32 - rhs.y as i32)
    }

    /// The diagonal neighbours that stay on the board, in the order
    /// top-left, top-right, bottom-left, bottom-right.
    pub fn diag(self) -> (v: Vec<Coords>)
        ensures
            v@ == diag_spec(self),
    {
        let mut v: Vec<Coords> = Vec::new();
        if self.x > 0 && self.y > 0 {
            v.push(Coords { x: self.x - 1, y: self.y - 1 });
        }
        if self.x < CELL_N - 1 && self.y > 0 {
            v.push(Coords { x: self.x + 1, y: self.y - 1 });
        }
        if self.x > 0 && self.y < CELL_N - 1 {
            v.push(Coords { x: self.x - 1, y: self.y + 1 });
        }
        if self.x < CELL_N - 1 && self.y < CELL_N - 1 {
            v.push(Coords { x: self.x + 1, y: self.y + 1 });
        }
        proof {
            assert(v@ =~= diag_spec(self));
        }
        v
    }
}

/// The cell at column `x`, row `y` (for non-negative `x` and `y`).
pub open spec fn at(x: int, y: int) -> Coords {
    Coords { x: x as usize, y: y as usize }
}

/// The in-bounds diagonal neighbours of `c`, top-left, top-right, bottom-left, bottom-right.
pub open spec fn diag_spec(c: Coords) -> Seq<Coords> {
    let tl = if c.x > 0 && c.y > 0 { seq![at(c.x - 1, c.y - 1)] } else { seq![] };
    let tr = if c.x < CELL_N - 1 && c.y > 0 { seq![at(c.x + 1, c.y - 1)] } else { seq![] };
    let bl = if c.x > 0 && c.y < CELL_N - 1 { seq![at(c.x - 1, c.y + 1)] } else { seq![] };
    let br = if c.x < CELL_N - 1 && c.y < CELL_N - 1 {
        seq![at(c.x + 1, c.y + 1)]
    } else {
        seq![]
    };
    tl + tr + bl + br
}

/// `n` is one diagonal step away from `c`.
pub open spec fn is_diagonal_step(c: Coords, n: Coords) -> bool {
    &&& (n.x == c.x + 1 || n.x + 1 == c.x)
    &&& (n.y == c.y + 1 || n.y + 1 == c.y)
}

/// Every diagonal neighbour of a cell on the board is on the board, one diagonal step away,
/// and of the same colour.
pub proof fn lemma_diag_neighbours(c: Coords)
    requires
        c.in_bounds(),
    ensures
        forall|i: int|
            0 <= i < diag_spec(c).len() ==> {
                &&& (#[trigger] diag_spec(c)[i]).in_bounds()
                &&& is_diagonal_step(c, diag_spec(c)[i])
                &&& diag_spec(c)[i].is_dark() == c.is_dark()
            },
{
    let d = diag_spec(c);
    assert forall|i: int| 0 <= i < d.len() implies {
        &&& (#[trigger] d[i]).in_bounds()
        &&& is_diagonal_step(c, d[i])
        &&& d[i].is_dark() == c.is_dark()
    } by {
        let n = d[i];
        assert(n.x + n.y == c.x + c.y - 2 || n.x + n.y == c.x + c.y || n.x + n.y == c.x + c.y + 2);
    }
}

} // verus!
