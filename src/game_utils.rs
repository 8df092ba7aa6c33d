use vstd::prelude::*;

use crate::board::{cell_of, Board, Grid};
use crate::coords::{at, diag_spec, is_diagonal_step, lemma_diag_neighbours, Coords};
use crate::error::GameError;
use crate::player::{Player, PlayerId};
use crate::CELL_N;

verus! {

/// Index of a cell when the board is read row by row.
pub fn coords_to_index(coords: Coords) -> (r: usize)
    requires
        coords.in_bounds(),
    ensures
        r == coords.y * CELL_N + coords.x,
{
    coords.y * CELL_N + coords.x
}

/// Whether the cell is a playable ("dark") square.
pub fn is_white(coords: Coords) -> (r: bool)
    ensures
        r == coords.is_dark(),
{
    (coords.x % 2 == coords.y % 2)
}

} // verus!

verus! {

/// A move of one pawn: a step to an empty neighbour, or a jump over the piece at `eat`.
#[derive(Debug, Clone, Copy, PartialEq, Eq, Structural)]
pub enum Move {
    Simple { from: Coords, to: Coords },
    Capture { from: Coords, to: Coords, eat: Coords },
}

impl Move {
    /// The cell the pawn ends on.
    pub open spec fn target(self) -> Coords {
        match self {
            Move::Simple { to, .. } => to,
            Move::Capture { to, .. } => to,
        }
    }

    /// The cell the pawn starts from.
    pub open spec fn source(self) -> Coords {
        match self {
            Move::Simple { from, .. } => from,
            Move::Capture { from, .. } => from,
        }
    }

    /// Every cell the move touches lies on the board.
    pub open spec fn on_board(self) -> bool {
        match self {
            Move::Simple { from, to } => from.in_bounds() && to.in_bounds(),
            Move::Capture { from, to, eat } => from.in_bounds() && to.in_bounds() && eat.in_bounds(),
        }
    }

    pub fn to(&self) -> (r: Coords)
        ensures
            r == self.target(),
    {
        match self {
            Move::Capture { to, .. } => *to,
            Move::Simple { to, .. } => *to,
        }
    }

    pub fn from(&self) -> (r: Coords)
        ensures
            r == self.source(),
    {
        match self {
            Move::Capture { from, .. } => *from,
            Move::Simple { from, .. } => *from,
        }
    }
}

/// The capture from `origin` over the neighbour `n`, if `n` holds a piece of another player
/// than `player_id` and the cell beyond it, on the same diagonal, is on the board and empty.
pub open spec fn capture_over(g: Grid, origin: Coords, player_id: PlayerId, n: Coords) -> Option<Move> {
    let lx = 2 * n.x - origin.x;
    let ly = 2 * n.y - origin.y;
    let landing = at(lx, ly);
    if cell_of(g, n) is Some && cell_of(g, n)->0.player_id != player_id && 0 <= lx < CELL_N && 0
        <= ly < CELL_N && cell_of(g, landing) is None {
        Some(Move::Capture { from: origin, to: landing, eat: n })
    } else {
        None
    }
}

/// The captures over the cells of `ns`, in their order.
pub open spec fn captures_over(g: Grid, origin: Coords, player_id: PlayerId, ns: Seq<Coords>) -> Seq<Move>
    decreases ns.len(),
{
    if ns.len() == 0 {
        seq![]
    } else {
        let rest = captures_over(g, origin, player_id, ns.drop_last());
        match capture_over(g, origin, player_id, ns.last()) {
            Some(m) => rest.push(m),
            None => rest,
        }
    }
}

/// `n` lies ahead of `origin` for a player moving in `direction`: towards row 0 for `1`,
/// towards the last row otherwise.
pub open spec fn is_forward(origin: Coords, n: Coords, direction: i32) -> bool {
    if direction == 1 {
        n.y < origin.y
    } else {
        n.y > origin.y
    }
}

/// The step from `origin` to the neighbour `n`, if `n` is empty and lies ahead.
pub open spec fn step_to(g: Grid, origin: Coords, direction: i32, n: Coords) -> Option<Move> {
    if cell_of(g, n) is None && is_forward(origin, n, direction) {
        Some(Move::Simple { from: origin, to: n })
    } else {
        None
    }
}

/// The steps to the cells of `ns`, in their order.
pub open spec fn steps_to(g: Grid, origin: Coords, direction: i32, ns: Seq<Coords>) -> Seq<Move>
    decreases ns.len(),
{
    if ns.len() == 0 {
        seq![]
    } else {
        let rest = steps_to(g, origin, direction, ns.drop_last());
        match step_to(g, origin, direction, ns.last()) {
            Some(m) => rest.push(m),
            None => rest,
        }
    }
}

/// The moves of a pawn of `player_id`, advancing in `direction`, from `origin`: the captures
/// over its diagonal neighbours if there is any (capture is forced), else its forward steps.
pub open spec fn legal_moves(g: Grid, origin: Coords, player_id: PlayerId, direction: i32) -> Seq<Move> {
    let captures = captures_over(g, origin, player_id, diag_spec(origin));
    if captures.len() > 0 {
        captures
    } else {
        steps_to(g, origin, direction, diag_spec(origin))
    }
}

/// The legal moves of `player`'s pawn at `original_cell`, or `OutOfBounds` when the cell is
/// off the board.
pub fn get_possible_moves(grid: &Board, original_cell: Coords, player: &Player) -> (r: Result<
    Vec<Move>,
    GameError,
>)
    requires
        grid.wf(),
    ensures
        original_cell.in_bounds() ==> (r matches Ok(v) && v@ == legal_moves(
            grid@,
            original_cell,
            player.id,
            player.direction,
        )),
        !original_cell.in_bounds() ==> r == Err::<Vec<Move>, GameError>(GameError::OutOfBounds),
{
    if original_cell.x >= CELL_N || original_cell.y >= CELL_N {
        return Err(GameError::OutOfBounds);
    }
    let neighbours = original_cell.diag();
    proof {
        lemma_diag_neighbours(original_cell);
    }
    let mut moves: Vec<Move> = Vec::new();
    let mut i: usize = 0;
    while i < neighbours.len()
        invariant
            grid.wf(),
            original_cell.in_bounds(),
            neighbours@ == diag_spec(original_cell),
            forall|k: int|
                0 <= k < neighbours@.len() ==> {
                    &&& (#[trigger] neighbours@[k]).in_bounds()
                    &&& is_diagonal_step(original_cell, neighbours@[k])
                },
            i <= neighbours.len(),
            moves@ == captures_over(grid@, original_cell, player.id, neighbours@.take(i as int)),
        decreases neighbours.len() - i,
    {
        let edible = neighbours[i];
        assert(neighbours@.take(i + 1).drop_last() == neighbours@.take(i as int));
        if let Some(piece) = grid.get(edible) {
            if piece.player_id != player.id {
                let x_ok = if edible.x > original_cell.x {
                    edible.x < CELL_N - 1
                } else {
                    edible.x > 0
                };
                let y_ok = if edible.y > original_cell.y {
                    edible.y < CELL_N - 1
                } else {
                    edible.y > 0
                };
                if x_ok && y_ok {
                    let landing = Coords {
                        x: if edible.x > original_cell.x {
                            edible.x + 1
                        } else {
                            edible.x - 1
                        },
                        y: if edible.y > original_cell.y {
                            edible.y + 1
                        } else {
                            edible.y - 1
                        },
                    };
                    assert(landing == at(2 * edible.x - original_cell.x, 2 * edible.y - original_cell.y));
                    if grid.get(landing).is_none() {
                        moves.push(Move::Capture { from: original_cell, to: landing, eat: edible });
                    }
                }
            }
        }
        i += 1;
    }
    assert(neighbours@.take(neighbours.len() as int) == neighbours@);
    // a capture is forced whenever one exists
    if moves.len() > 0 {
        return Ok(moves);
    }
    let mut i: usize = 0;
    while i < neighbours.len()
        invariant
            grid.wf(),
            original_cell.in_bounds(),
            neighbours@ == diag_spec(original_cell),
            forall|k: int|
                0 <= k < neighbours@.len() ==> (#[trigger] neighbours@[k]).in_bounds(),
            i <= neighbours.len(),
            moves@ == steps_to(grid@, original_cell, player.direction, neighbours@.take(i as int)),
        decreases neighbours.len() - i,
    {
        let empty = neighbours[i];
        assert(neighbours@.take(i + 1).drop_last() == neighbours@.take(i as int));
        if grid.get(empty).is_none() {
            let ahead = if player.direction == 1 {
                empty.y < original_cell.y
            } else {
                empty.y > original_cell.y
            };
            if ahead {
                moves.push(Move::Simple { from: original_cell, to: empty });
            }
        }
        i += 1;
    }
    assert(neighbours@.take(neighbours.len() as int) == neighbours@);
    Ok(moves)
}

} // verus!

verus! {

/// Each move of `captures_over(g, origin, player_id, ns)` is the capture over some cell of `ns`.
proof fn lemma_captures_over_members(g: Grid, origin: Coords, player_id: PlayerId, ns: Seq<Coords>)
    ensures
        forall|k: int|
            0 <= k < captures_over(g, origin, player_id, ns).len() ==> exists|j: int|
                0 <= j < ns.len() && capture_over(g, origin, player_id, ns[j]) == Some(
                    #[trigger] captures_over(g, origin, player_id, ns)[k],
                ),
    decreases ns.len(),
{
    if ns.len() > 0 {
        let init = ns.drop_last();
        lemma_captures_over_members(g, origin, player_id, init);
        let all = captures_over(g, origin, player_id, ns);
        let rest = captures_over(g, origin, player_id, init);
        assert forall|k: int| 0 <= k < all.len() implies exists|j: int|
            0 <= j < ns.len() && capture_over(g, origin, player_id, ns[j]) == Some(
                #[trigger] all[k],
            ) by {
            if k < rest.len() {
                let j = choose|j: int|
                    0 <= j < init.len() && capture_over(g, origin, player_id, init[j]) == Some(
                        rest[k],
                    );
                assert(ns[j] == init[j]);
            } else {
                assert(ns[ns.len() - 1] == ns.last());
            }
        }
    }
}

/// Each move of `steps_to(g, origin, direction, ns)` is the step to some cell of `ns`.
proof fn lemma_steps_to_members(g: Grid, origin: Coords, direction: i32, ns: Seq<Coords>)
    ensures
        forall|k: int|
            0 <= k < steps_to(g, origin, direction, ns).len() ==> exists|j: int|
                0 <= j < ns.len() && step_to(g, origin, direction, ns[j]) == Some(
                    #[trigger] steps_to(g, origin, direction, ns)[k],
                ),
    decreases ns.len(),
{
    if ns.len() > 0 {
        let init = ns.drop_last();
        lemma_steps_to_members(g, origin, direction, init);
        let all = steps_to(g, origin, direction, ns);
        let rest = steps_to(g, origin, direction, init);
        assert forall|k: int| 0 <= k < all.len() implies exists|j: int|
            0 <= j < ns.len() && step_to(g, origin, direction, ns[j]) == Some(#[trigger] all[k]) by {
            if k < rest.len() {
                let j = choose|j: int|
                    0 <= j < init.len() && step_to(g, origin, direction, init[j]) == Some(rest[k]);
                assert(ns[j] == init[j]);
            } else {
                assert(ns[ns.len() - 1] == ns.last());
            }
        }
    }
}

/// From a cell on the board, every legal move starts there and touches only cells on the board.
pub proof fn lemma_moves_on_board(g: Grid, origin: Coords, player_id: PlayerId, direction: i32)
    requires
        origin.in_bounds(),
    ensures
        forall|k: int|
            0 <= k < legal_moves(g, origin, player_id, direction).len() ==> {
                &&& (#[trigger] legal_moves(g, origin, player_id, direction)[k]).on_board()
                &&& legal_moves(g, origin, player_id, direction)[k].source() == origin
            },
{
    let d = diag_spec(origin);
    lemma_diag_neighbours(origin);
    lemma_captures_over_members(g, origin, player_id, d);
    lemma_steps_to_members(g, origin, direction, d);
    let moves = legal_moves(g, origin, player_id, direction);
    assert forall|k: int| 0 <= k < moves.len() implies {
        &&& (#[trigger] moves[k]).on_board()
        &&& moves[k].source() == origin
    } by {
        if captures_over(g, origin, player_id, d).len() > 0 {
            let j = choose|j: int|
                0 <= j < d.len() && capture_over(g, origin, player_id, d[j]) == Some(moves[k]);
            assert(d[j].in_bounds());
        } else {
            let j = choose|j: int|
                0 <= j < d.len() && step_to(g, origin, direction, d[j]) == Some(moves[k]);
            assert(d[j].in_bounds());
        }
    }
}

/// A capture over any cell of `ns` makes `captures_over(g, origin, player_id, ns)` non-empty.
proof fn lemma_captures_over_nonempty(g: Grid, origin: Coords, player_id: PlayerId, ns: Seq<Coords>, j: int)
    requires
        0 <= j < ns.len(),
        capture_over(g, origin, player_id, ns[j]) is Some,
    ensures
        captures_over(g, origin, player_id, ns).len() > 0,
    decreases ns.len(),
{
    if j < ns.len() - 1 {
        let init = ns.drop_last();
        assert(init[j] == ns[j]);
        lemma_captures_over_nonempty(g, origin, player_id, init, j);
    }
}

/// From a dark cell on the board, every legal move ends on a dark cell on the board.
pub proof fn lemma_moves_land_on_dark_cells(g: Grid, origin: Coords, player_id: PlayerId, direction: i32)
    requires
        origin.in_bounds(),
        origin.is_dark(),
    ensures
        forall|k: int|
            0 <= k < legal_moves(g, origin, player_id, direction).len() ==> {
                &&& (#[trigger] legal_moves(g, origin, player_id, direction)[k]).target().in_bounds()
                &&& legal_moves(g, origin, player_id, direction)[k].target().is_dark()
            },
{
    let d = diag_spec(origin);
    lemma_diag_neighbours(origin);
    lemma_captures_over_members(g, origin, player_id, d);
    lemma_steps_to_members(g, origin, direction, d);
    let moves = legal_moves(g, origin, player_id, direction);
    assert forall|k: int| 0 <= k < moves.len() implies {
        &&& (#[trigger] moves[k]).target().in_bounds()
        &&& moves[k].target().is_dark()
    } by {
        if captures_over(g, origin, player_id, d).len() > 0 {
            let j = choose|j: int|
                0 <= j < d.len() && capture_over(g, origin, player_id, d[j]) == Some(moves[k]);
            let n = d[j];
            assert(is_diagonal_step(origin, n));
            let t = moves[k].target();
            assert(t.x + t.y == 2 * (n.x + n.y) - (origin.x + origin.y));
            assert(t.x + t.y == origin.x + origin.y - 4 || t.x + t.y == origin.x + origin.y || t.x
                + t.y == origin.x + origin.y + 4);
        } else {
            let j = choose|j: int|
                0 <= j < d.len() && step_to(g, origin, direction, d[j]) == Some(moves[k]);
            assert(moves[k].target() == d[j]);
        }
    }
}

/// When a capture is available over a diagonal neighbour, the legal moves are all captures.
pub proof fn lemma_capture_is_forced(g: Grid, origin: Coords, player_id: PlayerId, direction: i32, n: Coords)
    requires
        diag_spec(origin).contains(n),
        capture_over(g, origin, player_id, n) is Some,
    ensures
        legal_moves(g, origin, player_id, direction).len() > 0,
        forall|k: int|
            0 <= k < legal_moves(g, origin, player_id, direction).len() ==> (#[trigger] legal_moves(
                g,
                origin,
                player_id,
                direction,
            )[k]) is Capture,
{
    let d = diag_spec(origin);
    let j = choose|j: int| 0 <= j < d.len() && d[j] == n;
    lemma_captures_over_nonempty(g, origin, player_id, d, j);
    lemma_captures_over_members(g, origin, player_id, d);
    let moves = legal_moves(g, origin, player_id, direction);
    assert forall|k: int| 0 <= k < moves.len() implies (#[trigger] moves[k]) is Capture by {
        let i = choose|i: int|
            0 <= i < d.len() && capture_over(g, origin, player_id, d[i]) == Some(moves[k]);
    }
}

/// A step always goes forward: towards row 0 for direction `1`, towards the last row for `-1`.
pub proof fn lemma_steps_go_forward(g: Grid, origin: Coords, player_id: PlayerId, direction: i32)
    ensures
        forall|k: int|
            0 <= k < legal_moves(g, origin, player_id, direction).len() && (#[trigger] legal_moves(
                g,
                origin,
                player_id,
                direction,
            )[k]) is Simple ==> {
                let m = legal_moves(g, origin, player_id, direction)[k];
                &&& m.source() == origin
                &&& direction == 1 ==> m.target().y < m.source().y
                &&& direction == -1 ==> m.target().y > m.source().y
            },
{
    let d = diag_spec(origin);
    lemma_captures_over_members(g, origin, player_id, d);
    lemma_steps_to_members(g, origin, direction, d);
    let moves = legal_moves(g, origin, player_id, direction);
    assert forall|k: int| 0 <= k < moves.len() && (#[trigger] moves[k]) is Simple implies {
        let m = moves[k];
        &&& m.source() == origin
        &&& direction == 1 ==> m.target().y < m.source().y
        &&& direction == -1 ==> m.target().y > m.source().y
    } by {
        if captures_over(g, origin, player_id, d).len() > 0 {
            let i = choose|i: int|
                0 <= i < d.len() && capture_over(g, origin, player_id, d[i]) == Some(moves[k]);
        } else {
            let i = choose|i: int|
                0 <= i < d.len() && step_to(g, origin, direction, d[i]) == Some(moves[k]);
        }
    }
}

} // verus!
