//! Coordinates and moves.

use vstd::prelude::*;

verus! {

/// A pair of indices in [0, 3): either a sub-board within the large
/// board or a cell within a sub-board.
#[derive(Clone, Copy, Debug, PartialEq, Eq, Structural)]
pub struct Coord {
    pub x: usize,
    pub y: usize,
}

/// Both indices are within the 3x3 grid.
pub open spec fn coord_wf(c: Coord) -> bool {
    c.x < 3 && c.y < 3
}

/// The row-major flat index of a coordinate, in [0, 9).
pub open spec fn flat(c: Coord) -> int {
    c.x * 3 + c.y
}

/// The coordinate whose row-major flat index is `k`.
pub open spec fn coord_at(k: int) -> Coord {
    Coord { x: (k / 3) as usize, y: (k % 3) as usize }
}

impl Coord {
    pub fn new(x: usize, y: usize) -> (r: Coord)
        ensures
            r == (Coord { x, y }),
    {
        Coord { x, y }
    }
}

/// A full move: which sub-board is played in, and which cell of it.
#[derive(Clone, Copy, Debug, PartialEq, Eq, Structural)]
pub struct Move {
    pub large_board: Coord,
    pub sub_board: Coord,
}

/// Both coordinates of the move are within the 3x3 grids.
pub open spec fn move_wf(m: Move) -> bool {
    coord_wf(m.large_board) && coord_wf(m.sub_board)
}

impl Move {
    pub fn new(large_board: Coord, sub_board: Coord) -> (r: Move)
        ensures
            r == (Move { large_board, sub_board }),
    {
        Move { large_board, sub_board }
    }
}

} // verus!
