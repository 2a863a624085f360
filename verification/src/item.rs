//! The items that can occupy a cell, as a closed tagged union with an
//! explicit per-variant interaction table.

use vstd::prelude::*;

use crate::player::MapPlayer;

verus! {

/// How a thing on the grid interacts with players walking and bombs
/// exploding. `explode_event` answers, for a blast reaching `pos` from a
/// bomb at `bomb_pos`: does this thing block the blast from propagating
/// further, and is it destroyed by the blast?
pub trait Walkable {
    spec fn spec_walkable(&self, p: MapPlayer, pos: (usize, usize)) -> bool;

    spec fn spec_explode_event(&self, pos: (usize, usize), bomb_pos: (usize, usize)) -> (bool, bool);

    fn walkable(&self, p: &MapPlayer, pos: &(usize, usize)) -> (r: bool)
        ensures
            r == self.spec_walkable(*p, *pos),
    ;

    fn explode_event(&self, pos: &(usize, usize), bomb_pos: &(usize, usize)) -> (r: (bool, bool))
        ensures
            r == self.spec_explode_event(*pos, *bomb_pos),
    ;
}

/// An item with a displayable name.
pub trait Item: Walkable {
    spec fn spec_name(&self) -> Seq<char>;

    fn name(&self) -> (r: String)
        ensures
            r@ == self.spec_name(),
    ;
}

/// A bomb ticking on a cell. Nobody can walk through it; it blocks a blast
/// except at its own cell, and a blast destroys it.
#[derive(Clone, Copy, Debug, PartialEq, Eq, Structural)]
pub struct BombItem;

impl Walkable for BombItem {
    open spec fn spec_walkable(&self, p: MapPlayer, pos: (usize, usize)) -> bool {
        false
    }

    open spec fn spec_explode_event(&self, pos: (usize, usize), bomb_pos: (usize, usize)) -> (bool, bool) {
        (bomb_pos != pos, true)
    }

    fn walkable(&self, p: &MapPlayer, pos: &(usize, usize)) -> (r: bool) {
        false
    }

    fn explode_event(&self, pos: &(usize, usize), bomb_pos: &(usize, usize)) -> (r: (bool, bool)) {
        (bomb_pos.0 != pos.0 || bomb_pos.1 != pos.1, true)
    }
}

impl Item for BombItem {
    open spec fn spec_name(&self) -> Seq<char> {
        "Bomb"@
    }

    fn name(&self) -> (r: String) {
        "Bomb".to_owned()
    }
}

/// A beneficial pick-up. Walkable, never blocks a blast, destroyed by one.
#[derive(Clone, Debug, PartialEq)]
pub enum Bonus {
    ImproveBombRadius,
    PunchBombs,
    ImproveSpeed,
    RepelBombs,
    MoreBombs,
    Custom(String),
}

impl Walkable for Bonus {
    open spec fn spec_walkable(&self, p: MapPlayer, pos: (usize, usize)) -> bool {
        true
    }

    open spec fn spec_explode_event(&self, pos: (usize, usize), bomb_pos: (usize, usize)) -> (bool, bool) {
        (false, true)
    }

    fn walkable(&self, p: &MapPlayer, pos: &(usize, usize)) -> (r: bool) {
        true
    }

    fn explode_event(&self, pos: &(usize, usize), bomb_pos: &(usize, usize)) -> (r: (bool, bool)) {
        (false, true)
    }
}

impl Item for Bonus {
    open spec fn spec_name(&self) -> Seq<char> {
        "Bonus"@
    }

    fn name(&self) -> (r: String) {
        "Bonus".to_owned()
    }
}

/// A harmful pick-up. Walkable, never blocks a blast, destroyed by one.
#[derive(Clone, Debug, PartialEq)]
pub enum Malus {
    Slow,
    UltraFast,
    SpeedBomb,
    DropBombs,
    InvertedControls,
    Custom(String),
}

impl Walkable for Malus {
    open spec fn spec_walkable(&self, p: MapPlayer, pos: (usize, usize)) -> bool {
        true
    }

    open spec fn spec_explode_event(&self, pos: (usize, usize), bomb_pos: (usize, usize)) -> (bool, bool) {
        (false, true)
    }

    fn walkable(&self, p: &MapPlayer, pos: &(usize, usize)) -> (r: bool) {
        true
    }

    fn explode_event(&self, pos: &(usize, usize), bomb_pos: &(usize, usize)) -> (r: (bool, bool)) {
        (false, true)
    }
}

impl Item for Malus {
    open spec fn spec_name(&self) -> Seq<char> {
        "Malus"@
    }

    fn name(&self) -> (r: String) {
        "Malus".to_owned()
    }
}

/// A crate that stands in the way until a blast destroys it. The blast does
/// not travel past it.
#[derive(Clone, Copy, Debug, PartialEq, Eq, Structural)]
pub struct DestructibleBox;

impl Walkable for DestructibleBox {
    open spec fn spec_walkable(&self, p: MapPlayer, pos: (usize, usize)) -> bool {
        false
    }

    open spec fn spec_explode_event(&self, pos: (usize, usize), bomb_pos: (usize, usize)) -> (bool, bool) {
        (true, true)
    }

    fn walkable(&self, p: &MapPlayer, pos: &(usize, usize)) -> (r: bool) {
        false
    }

    fn explode_event(&self, pos: &(usize, usize), bomb_pos: &(usize, usize)) -> (r: (bool, bool)) {
        (true, true)
    }
}

impl Item for DestructibleBox {
    open spec fn spec_name(&self) -> Seq<char> {
        "DestructibleBox"@
    }

    fn name(&self) -> (r: String) {
        "DestructibleBox".to_owned()
    }
}

/// Any item that can occupy a cell: the closed union over the item variants,
/// dispatching each capability to the variant's own table.
#[derive(Clone, Debug, PartialEq)]
pub enum InteractiveItem {
    Bomb(BombItem),
    Bonus(Bonus),
    Malus(Malus),
    DestructibleBox(DestructibleBox),
}

impl Walkable for InteractiveItem {
    open spec fn spec_walkable(&self, p: MapPlayer, pos: (usize, usize)) -> bool {
        match self {
            InteractiveItem::Bomb(i) => i.spec_walkable(p, pos),
            InteractiveItem::Bonus(i) => i.spec_walkable(p, pos),
            InteractiveItem::Malus(i) => i.spec_walkable(p, pos),
            InteractiveItem::DestructibleBox(i) => i.spec_walkable(p, pos),
        }
    }

    open spec fn spec_explode_event(&self, pos: (usize, usize), bomb_pos: (usize, usize)) -> (bool, bool) {
        match self {
            InteractiveItem::Bomb(i) => i.spec_explode_event(pos, bomb_pos),
            InteractiveItem::Bonus(i) => i.spec_explode_event(pos, bomb_pos),
            InteractiveItem::Malus(i) => i.spec_explode_event(pos, bomb_pos),
            InteractiveItem::DestructibleBox(i) => i.spec_explode_event(pos, bomb_pos),
        }
    }

    fn walkable(&self, p: &MapPlayer, pos: &(usize, usize)) -> (r: bool) {
        match self {
            InteractiveItem::Bomb(i) => i.walkable(p, pos),
            InteractiveItem::Bonus(i) => i.walkable(p, pos),
            InteractiveItem::Malus(i) => i.walkable(p, pos),
            InteractiveItem::DestructibleBox(i) => i.walkable(p, pos),
        }
    }

    fn explode_event(&self, pos: &(usize, usize), bomb_pos: &(usize, usize)) -> (r: (bool, bool)) {
        match self {
            InteractiveItem::Bomb(i) => i.explode_event(pos, bomb_pos),
            InteractiveItem::Bonus(i) => i.explode_event(pos, bomb_pos),
            InteractiveItem::Malus(i) => i.explode_event(pos, bomb_pos),
            InteractiveItem::DestructibleBox(i) => i.explode_event(pos, bomb_pos),
        }
    }
}

impl Item for InteractiveItem {
    open spec fn spec_name(&self) -> Seq<char> {
        match self {
            InteractiveItem::Bomb(i) => i.spec_name(),
            InteractiveItem::Bonus(i) => i.spec_name(),
            InteractiveItem::Malus(i) => i.spec_name(),
            InteractiveItem::DestructibleBox(i) => i.spec_name(),
        }
    }

    fn name(&self) -> (r: String) {
        match self {
            InteractiveItem::Bomb(i) => i.name(),
            InteractiveItem::Bonus(i) => i.name(),
            InteractiveItem::Malus(i) => i.name(),
            InteractiveItem::DestructibleBox(i) => i.name(),
        }
    }
}

} // verus!
