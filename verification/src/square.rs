//! The terrain of the world: one square per grid cell.

use vstd::prelude::*;

use crate::item::Walkable;
use crate::player::MapPlayer;

verus! {

/// The side a directed wall faces.
#[derive(Clone, Copy, Debug, PartialEq, Eq, Structural)]
pub enum Direction {
    North,
    South,
    West,
    East,
}

/// The kind of terrain on a cell. `Block` is the indestructible pillar
/// lattice and is never drawn at random; a `Wall` lets players and blasts
/// through on one side only.
#[derive(Clone, Copy, Debug, PartialEq, Eq, Structural)]
pub enum SquareType {
    Water,
    Empty,
    Wall(Direction),
    Block,
}

impl Walkable for SquareType {
    open spec fn spec_walkable(&self, p: MapPlayer, pos: (usize, usize)) -> bool {
        match self {
            SquareType::Empty => true,
            SquareType::Wall(w) => match w {
                Direction::West => p.spec_cell_x() >= pos.0 as int,
                Direction::East => p.spec_cell_x() <= pos.0 as int,
                Direction::North => p.spec_cell_y() <= pos.1 as int,
                Direction::South => p.spec_cell_y() >= pos.1 as int,
            },
            _ => false,
        }
    }

    open spec fn spec_explode_event(&self, pos: (usize, usize), bomb_pos: (usize, usize)) -> (bool, bool) {
        match self {
            SquareType::Empty => (false, true),
            SquareType::Water => (false, false),
            SquareType::Block => (true, false),
            SquareType::Wall(w) => match w {
                Direction::North => (bomb_pos.1 == pos.1, bomb_pos.1 <= pos.1),
                Direction::South => (bomb_pos.1 == pos.1, bomb_pos.1 >= pos.1),
                Direction::West => (bomb_pos.0 == pos.0, bomb_pos.0 >= pos.0),
                Direction::East => (bomb_pos.0 == pos.0, bomb_pos.0 <= pos.0),
            },
        }
    }

    fn walkable(&self, p: &MapPlayer, pos: &(usize, usize)) -> (r: bool) {
        match self {
            SquareType::Empty => true,
            SquareType::Wall(w) => match w {
                Direction::West => p.cell_x() >= pos.0,
                Direction::East => p.cell_x() <= pos.0,
                Direction::North => p.cell_y() <= pos.1,
                Direction::South => p.cell_y() >= pos.1,
            },
            _ => false,
        }
    }

    fn explode_event(&self, pos: &(usize, usize), bomb_pos: &(usize, usize)) -> (r: (bool, bool)) {
        match self {
            SquareType::Empty => (false, true),
            SquareType::Water => (false, false),
            SquareType::Block => (true, false),
            SquareType::Wall(w) => match w {
                Direction::North => (bomb_pos.1 == pos.1, bomb_pos.1 <= pos.1),
                Direction::South => (bomb_pos.1 == pos.1, bomb_pos.1 >= pos.1),
                Direction::West => (bomb_pos.0 == pos.0, bomb_pos.0 >= pos.0),
                Direction::East => (bomb_pos.0 == pos.0, bomb_pos.0 <= pos.0),
            },
        }
    }
}

/// One cell of terrain. Beyond its type tag a square carries no state.
#[derive(Clone, Copy, Debug, PartialEq, Eq, Structural)]
pub struct Square {
    pub sq_type: SquareType,
}

} // verus!
