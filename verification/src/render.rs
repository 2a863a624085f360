//! Rendering a world as text, one character per cell and one line per
//! row.

use vstd::prelude::*;

use crate::item::InteractiveItem;
use crate::player::MapPlayer;
use crate::square::{Direction, SquareType};
use crate::world::{lemma_cell_index_in_range, World};

verus! {

/// The linear cell index a player stands on, from its fixed-point
/// position.
pub open spec fn spec_player_linear(p: MapPlayer, w: int) -> int {
    p.spec_cell_x() + p.spec_cell_y() * w
}

/// Whether any player stands on the cell with this linear index.
pub open spec fn spec_player_at(wd: World, idx: int) -> bool {
    exists|j: int| 0 <= j < wd.players@.len() && spec_player_linear(#[trigger] wd.players@[j], wd.w as int) == idx
}

/// The character drawn for one cell: `P` for a player (`p` when standing
/// on a bomb), `W` water, `B` block, the facing letter for a wall, and on
/// empty ground `X` for bare floor, `D` a destructible box, `b` a bomb,
/// `O` a bonus, `M` a malus.
pub open spec fn spec_cell_char(wd: World, idx: int) -> char
    recommends
        wd.wf(),
        0 <= idx < wd.squares@.len(),
{
    let sq = wd.squares@[idx].sq_type;
    let it = wd.items@[idx];
    if spec_player_at(wd, idx) {
        if sq == SquareType::Empty && (it matches Some(InteractiveItem::Bomb(..))) {
            'p'
        } else {
            'P'
        }
    } else {
        match sq {
            SquareType::Water => 'W',
            SquareType::Block => 'B',
            SquareType::Wall(d) => match d {
                Direction::North => 'N',
                Direction::South => 'S',
                Direction::West => 'W',
                Direction::East => 'E',
            },
            SquareType::Empty => match it {
                None => 'X',
                Some(InteractiveItem::Bomb(..)) => 'b',
                Some(InteractiveItem::Bonus(..)) => 'O',
                Some(InteractiveItem::Malus(..)) => 'M',
                Some(InteractiveItem::DestructibleBox(..)) => 'D',
            },
        }
    }
}

/// One rendered row: the row's cells, then a newline.
pub open spec fn spec_row_text(wd: World, y: int) -> Seq<char> {
    Seq::new((wd.w + 1) as nat, |k: int| if k == wd.w { '\n' } else { spec_cell_char(wd, y * wd.w + k) })
}

pub open spec fn spec_rows_text(wd: World, y: int) -> Seq<char>
    decreases y,
{
    if y <= 0 {
        Seq::empty()
    } else {
        spec_rows_text(wd, y - 1) + spec_row_text(wd, y - 1)
    }
}

/// The whole world as text: `h` lines of `w` cell characters.
pub open spec fn spec_world_text(wd: World) -> Seq<char> {
    spec_rows_text(wd, wd.h as int)
}

impl World {
    /// Whether any player stands on the cell with this linear index.
    pub fn player_at(&self, idx: usize) -> (r: bool)
        requires
            self.w <= 65535,
        ensures
            r == spec_player_at(*self, idx as int),
    {
        let mut j: usize = 0;
        while j < self.players.len()
            invariant
                j <= self.players@.len(),
                self.w <= 65535,
                forall|k: int|
                    0 <= k < j ==> spec_player_linear(#[trigger] self.players@[k], self.w as int)
                        != idx as int,
            decreases self.players@.len() - j,
        {
            let p = self.players[j];
            let cx = p.cell_x();
            let cy = p.cell_y();
            proof {
                assert(cx <= 0xFFFFFF) by (nonlinear_arith)
                    requires
                        cx == p.x as int / 256,
                        p.x <= 0xFFFFFFFF,
                ;
                assert(cy <= 0xFFFFFF) by (nonlinear_arith)
                    requires
                        cy == p.y as int / 256,
                        p.y <= 0xFFFFFFFF,
                ;
                assert(cy as int * (self.w as int) <= 0xFFFFFF * 65535) by (nonlinear_arith)
                    requires
                        cy <= 0xFFFFFF,
                        self.w <= 65535,
                ;
            }
            let lin: u64 = (cx as u64) + (cy as u64) * (self.w as u64);
            if lin == idx as u64 {
                proof {
                    assert(spec_player_linear(self.players@[j as int], self.w as int) == idx as int);
                }
                return true;
            }
            j += 1;
        }
        false
    }

    /// Render the world as text, as [`spec_world_text`] lays it out.
    #[verifier::loop_isolation(false)]
    pub fn to_text(&self) -> (r: String)
        requires
            self.wf(),
            self.w <= 65535,
            self.h <= 65535,
        ensures
            r@ == spec_world_text(*self),
    {
        let mut cs: Vec<char> = Vec::new();
        let mut y: usize = 0;
        while y < self.h
            invariant
                y <= self.h,
                cs@ == spec_rows_text(*self, y as int),
            decreases self.h - y,
        {
            let mut x: usize = 0;
            while x < self.w
                invariant
                    x <= self.w,
                    y < self.h,
                    cs@ == spec_rows_text(*self, y as int) + spec_row_text(*self, y as int).subrange(
                        0,
                        x as int,
                    ),
                decreases self.w - x,
            {
                let _bound = self.squares.len();
                proof {
                    lemma_cell_index_in_range(self.w as int, self.h as int, x as int, y as int);
                }
                let idx: usize = x + y * self.w;
                let here = self.player_at(idx);
                let sq = self.squares[idx];
                let slot = &self.items[idx];
                let c: char = if here {
                    let bomb_here = matches!(slot, Some(InteractiveItem::Bomb(..)));
                    if sq.sq_type == SquareType::Empty && bomb_here {
                        'p'
                    } else {
                        'P'
                    }
                } else {
                    match sq.sq_type {
                        SquareType::Water => 'W',
                        SquareType::Block => 'B',
                        SquareType::Wall(d) => match d {
                            Direction::North => 'N',
                            Direction::South => 'S',
                            Direction::West => 'W',
                            Direction::East => 'E',
                        },
                        SquareType::Empty => match slot {
                            None => 'X',
                            Some(InteractiveItem::Bomb(..)) => 'b',
                            Some(InteractiveItem::Bonus(..)) => 'O',
                            Some(InteractiveItem::Malus(..)) => 'M',
                            Some(InteractiveItem::DestructibleBox(..)) => 'D',
                        },
                    }
                };
                cs.push(c);
                x += 1;
                proof {
                    assert(c == spec_row_text(*self, y as int)[x - 1]);
                    assert(spec_row_text(*self, y as int).subrange(0, x - 1).push(c) =~= spec_row_text(
                        *self,
                        y as int,
                    ).subrange(0, x as int));
                }
            }
            cs.push('\n');
            y += 1;
            proof {
                assert(spec_row_text(*self, y - 1).subrange(0, self.w as int).push('\n') =~= spec_row_text(
                    *self,
                    y - 1,
                ));
                assert(cs@ =~= spec_rows_text(*self, y as int));
            }
        }
        crate::strings::string_from_chars(&cs)
    }
}

} // verus!
