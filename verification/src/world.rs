//! The mirrored game world and the diff operations that keep it consistent
//! with the server.

use vstd::prelude::*;

use crate::item::InteractiveItem;
use crate::player::MapPlayer;
use crate::square::{Square, SquareType};

verus! {

/// The local mirror of the game world: `w * h` squares and item slots in
/// row-major order (index `x + y * w`), plus the ordered player list.
///
/// A player's index in `players` is its identity in every diff message, so
/// players are never removed from the list; a dead player merely carries
/// `dead == true`.
#[derive(Clone, Debug, PartialEq)]
pub struct World {
    pub w: usize,
    pub h: usize,
    pub squares: Vec<Square>,
    pub players: Vec<MapPlayer>,
    pub items: Vec<Option<InteractiveItem>>,
}

/// The index of cell `(x, y)` in the row-major square and item arrays.
pub open spec fn spec_cell_index(w: int, x: int, y: int) -> int {
    x + y * w
}

pub proof fn lemma_cell_index_in_range(w: int, h: int, x: int, y: int)
    requires
        0 <= x < w,
        0 <= y < h,
    ensures
        0 <= spec_cell_index(w, x, y) < w * h,
{
    assert(0 <= x + y * w < w * h) by (nonlinear_arith)
        requires
            0 <= x < w,
            0 <= y < h,
    ;
}

impl World {
    /// The grid invariant: both per-cell arrays cover exactly the `w * h`
    /// grid. Every constructor establishes it and every diff preserves it.
    pub open spec fn wf(self) -> bool {
        &&& self.squares@.len() == self.w * self.h
        &&& self.items@.len() == self.w * self.h
    }

    pub open spec fn spec_in_bounds(self, x: int, y: int) -> bool {
        0 <= x < self.w && 0 <= y < self.h
    }

    pub open spec fn spec_item_at(self, x: int, y: int) -> Option<InteractiveItem>
        recommends
            self.wf(),
            self.spec_in_bounds(x, y),
    {
        self.items@[spec_cell_index(self.w as int, x, y)]
    }

    pub open spec fn spec_square_at(self, x: int, y: int) -> SquareType
        recommends
            self.wf(),
            self.spec_in_bounds(x, y),
    {
        self.squares@[spec_cell_index(self.w as int, x, y)].sq_type
    }

    /// The item slots after an item diff on cell `(x, y)`: the slot is
    /// overwritten when the cell exists, and an out-of-range cell leaves
    /// the world untouched rather than faulting.
    pub open spec fn spec_items_with(self, x: int, y: int, item: Option<InteractiveItem>) -> Seq<Option<InteractiveItem>> {
        if self.spec_in_bounds(x, y) {
            self.items@.update(spec_cell_index(self.w as int, x, y), item)
        } else {
            self.items@
        }
    }

    /// The squares after a square diff on cell `(x, y)`.
    pub open spec fn spec_squares_with(self, x: int, y: int, sq_type: SquareType) -> Seq<Square> {
        if self.spec_in_bounds(x, y) {
            self.squares@.update(spec_cell_index(self.w as int, x, y), Square { sq_type })
        } else {
            self.squares@
        }
    }

    /// The player list after a movement diff: player `id` stands at
    /// `(x, y)` (in 1/256-cell units), keeping its life state; an unknown
    /// id is ignored.
    pub open spec fn spec_players_with_position(self, id: int, x: u32, y: u32) -> Seq<MapPlayer> {
        if 0 <= id < self.players@.len() {
            self.players@.update(id, MapPlayer { x, y, dead: self.players@[id].dead })
        } else {
            self.players@
        }
    }

    /// The player list after a death diff: player `id` is marked dead but
    /// keeps its place and position; an unknown id is ignored.
    pub open spec fn spec_players_with_dead(self, id: int) -> Seq<MapPlayer> {
        if 0 <= id < self.players@.len() {
            self.players@.update(id, MapPlayer { dead: true, ..self.players@[id] })
        } else {
            self.players@
        }
    }

    /// Everything a diff on cells or players leaves alone: the dimensions.
    pub open spec fn spec_same_frame(self, other: World) -> bool {
        self.w == other.w && self.h == other.h
    }

    /// Overwrite the item slot of cell `(x, y)`; an out-of-range cell from
    /// the wire is ignored, never a crash.
    pub fn set_item(&mut self, x: usize, y: usize, item: Option<InteractiveItem>)
        requires
            old(self).wf(),
        ensures
            final(self).wf(),
            final(self).items@ == old(self).spec_items_with(x as int, y as int, item),
            final(self).squares == old(self).squares,
            final(self).players == old(self).players,
            final(self).spec_same_frame(*old(self)),
    {
        if x < self.w && y < self.h {
            let _bound = self.items.len();
            proof {
                lemma_cell_index_in_range(self.w as int, self.h as int, x as int, y as int);
            }
            let idx: usize = x + y * self.w;
            self.items.set(idx, item);
        }
    }

    /// Overwrite the square type of cell `(x, y)`; out-of-range cells are
    /// ignored.
    pub fn set_square(&mut self, x: usize, y: usize, sq_type: SquareType)
        requires
            old(self).wf(),
        ensures
            final(self).wf(),
            final(self).squares@ == old(self).spec_squares_with(x as int, y as int, sq_type),
            final(self).items == old(self).items,
            final(self).players == old(self).players,
            final(self).spec_same_frame(*old(self)),
    {
        if x < self.w && y < self.h {
            let _bound = self.squares.len();
            proof {
                lemma_cell_index_in_range(self.w as int, self.h as int, x as int, y as int);
            }
            let idx: usize = x + y * self.w;
            self.squares.set(idx, Square { sq_type });
        }
    }

    /// Move player `id` to `(x, y)` (1/256-cell units); unknown ids are
    /// ignored.
    pub fn set_player_position(&mut self, id: usize, x: u32, y: u32)
        ensures
            final(self).players@ == old(self).spec_players_with_position(id as int, x, y),
            final(self).squares == old(self).squares,
            final(self).items == old(self).items,
            final(self).spec_same_frame(*old(self)),
            final(self).wf() == old(self).wf(),
    {
        if id < self.players.len() {
            let dead = self.players[id].dead;
            self.players.set(id, MapPlayer { x, y, dead });
        }
    }

    /// Mark player `id` dead; unknown ids are ignored and no player is
    /// ever removed.
    pub fn kill_player(&mut self, id: usize)
        ensures
            final(self).players@ == old(self).spec_players_with_dead(id as int),
            final(self).squares == old(self).squares,
            final(self).items == old(self).items,
            final(self).spec_same_frame(*old(self)),
            final(self).wf() == old(self).wf(),
    {
        if id < self.players.len() {
            let p = self.players[id];
            self.players.set(id, MapPlayer { dead: true, ..p });
        }
    }
}

/// Identity stability: marking any id dead never changes the length of the
/// player list and never touches any other player, so the indices that
/// serve as identities cannot shift.
pub proof fn lemma_identity_stability(world: World, id: int)
    ensures
        world.spec_players_with_dead(id).len() == world.players@.len(),
        forall|j: int|
            0 <= j < world.players@.len() && j != id
                ==> world.spec_players_with_dead(id)[j] == world.players@[j],
        0 <= id < world.players@.len() ==> {
            &&& world.spec_players_with_dead(id)[id].dead
            &&& world.spec_players_with_dead(id)[id].x == world.players@[id].x
            &&& world.spec_players_with_dead(id)[id].y == world.players@[id].y
        },
{
}

/// Item symmetry: creating any item on a cell and then destroying the item
/// on that cell leaves the cell's slot empty, whatever the item was.
pub proof fn lemma_item_symmetry(world: World, x: int, y: int, item: InteractiveItem)
    requires
        world.wf(),
        world.spec_in_bounds(x, y),
    ensures
        ({
            let idx = spec_cell_index(world.w as int, x, y);
            let after_create = world.spec_items_with(x, y, Some(item));
            &&& after_create.update(idx, None) =~= world.items@.update(idx, None)
            &&& after_create.update(idx, None)[idx] is None
        }),
{
    lemma_cell_index_in_range(world.w as int, world.h as int, x, y);
}

} // verus!
