//! Players mirrored from the server's world snapshot.

use vstd::prelude::*;

verus! {

/// How many position units fit in one grid cell: positions are stored in
/// fixed-point units of 1/256 of a cell, so that sub-cell movement from the
/// server can be mirrored without floating point.
pub const SUBCELL: u32 = 256;

/// A player of the mirrored world. `x` and `y` are fixed-point grid
/// coordinates in units of 1/256 cell ([`SUBCELL`]); the cell a player
/// stands on is `(x / SUBCELL, y / SUBCELL)`. A dead player stays in the
/// list so that the indices of the others, which serve as their identities,
/// never shift.
#[derive(Clone, Copy, Debug, PartialEq, Eq, Structural)]
pub struct MapPlayer {
    pub x: u32,
    pub y: u32,
    pub dead: bool,
}

impl MapPlayer {
    /// The column of the cell this player stands on.
    pub open spec fn spec_cell_x(self) -> int {
        self.x as int / 256
    }

    /// The row of the cell this player stands on.
    pub open spec fn spec_cell_y(self) -> int {
        self.y as int / 256
    }

    pub fn cell_x(&self) -> (r: usize)
        ensures
            r == self.spec_cell_x(),
    {
        (self.x / SUBCELL) as usize
    }

    pub fn cell_y(&self) -> (r: usize)
        ensures
            r == self.spec_cell_y(),
    {
        (self.y / SUBCELL) as usize
    }

    /// The position at the centre of a cell, where spawned players stand.
    pub open spec fn spec_cell_center(cx: int, cy: int) -> (int, int) {
        (cx * 256 + 128, cy * 256 + 128)
    }

    pub fn at_cell_center(cx: u16, cy: u16) -> (r: MapPlayer)
        ensures
            (r.x as int, r.y as int) == MapPlayer::spec_cell_center(cx as int, cy as int),
            r.spec_cell_x() == cx as int,
            r.spec_cell_y() == cy as int,
            r.x as int % 256 == 128,
            r.y as int % 256 == 128,
            !r.dead,
    {
        let r = MapPlayer { x: cx as u32 * SUBCELL + SUBCELL / 2, y: cy as u32 * SUBCELL + SUBCELL / 2, dead: false };
        proof {
            assert(r.x as int / 256 == cx as int && r.x as int % 256 == 128) by (nonlinear_arith)
                requires r.x == cx as int * 256 + 128;
            assert(r.y as int / 256 == cy as int && r.y as int % 256 == 128) by (nonlinear_arith)
                requires r.y == cy as int * 256 + 128;
        }
        r
    }
}

} // verus!
