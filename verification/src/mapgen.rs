//! Procedural generation of a playable world.
//!
//! Terrain is drawn at random with the classic pillar lattice forced on
//! odd-odd cells and destructible boxes only on open ground; four players
//! spawn at cell centers, one per quadrant, each provably on a walkable,
//! item-free cell; a carving pass then opens escape routes, provably only
//! ever opening cells, and reports for each player whether it found cells
//! off the spawn's row and column. Every random draw is bounded by an
//! iteration budget, so generation always returns, whatever the random
//! source yields.

use vstd::prelude::*;

use crate::item::{Bonus, DestructibleBox, InteractiveItem, Malus, Walkable};
use crate::player::MapPlayer;
use crate::rng::RandomSource;
use crate::square::{Direction, Square, SquareType};
use crate::world::{lemma_cell_index_in_range, spec_cell_index, World};

verus! {

/// Two in-bounds columns with the same row-major index share row and
/// column.
proof fn lemma_cell_index_injective(w: int, x1: int, y1: int, x2: int, y2: int)
    requires
        0 <= x1 < w,
        0 <= x2 < w,
        0 <= y1,
        0 <= y2,
        spec_cell_index(w, x1, y1) == spec_cell_index(w, x2, y2),
    ensures
        x1 == x2 && y1 == y2,
{
    assert(x1 == x2 && y1 == y2) by (nonlinear_arith)
        requires
            0 <= x1 < w,
            0 <= x2 < w,
            0 <= y1,
            0 <= y2,
            x1 + y1 * w == x2 + y2 * w,
    ;
}

/// A legal spawn cell for player `pl` on a grid given by its parts: on the
/// grid, its square walkable for the player standing there (so never
/// `Block`, never `Water`, never a wall oriented to exclude it), and free
/// of any item.
pub open spec fn spawn_ok_parts(
    squares: Seq<Square>,
    items: Seq<Option<InteractiveItem>>,
    w: int,
    h: int,
    pl: MapPlayer,
) -> bool {
    let cx = pl.spec_cell_x();
    let cy = pl.spec_cell_y();
    &&& 0 <= cx < w
    &&& 0 <= cy < h
    &&& squares[spec_cell_index(w, cx, cy)].sq_type.spec_walkable(pl, (cx as usize, cy as usize))
    &&& squares[spec_cell_index(w, cx, cy)].sq_type != SquareType::Block
    &&& items[spec_cell_index(w, cx, cy)] is None
}

/// A legal spawn cell for player `pl` in world `wd`.
pub open spec fn spawn_ok(wd: World, pl: MapPlayer) -> bool {
    spawn_ok_parts(wd.squares@, wd.items@, wd.w as int, wd.h as int, pl)
}

/// The symmetric pillar lattice: every cell with both coordinates odd is
/// an indestructible `Block`.
pub open spec fn lattice_ok(squares: Seq<Square>, w: int, h: int) -> bool {
    forall|cx: int, cy: int|
        #![trigger spec_cell_index(w, cx, cy)]
        0 <= cx < w && 0 <= cy < h && cx % 2 == 1 && cy % 2 == 1
            ==> squares[spec_cell_index(w, cx, cy)].sq_type == SquareType::Block
}

/// In a fresh world the only items are destructible boxes, and a box
/// stands only on an `Empty` square.
pub open spec fn boxes_on_empty(squares: Seq<Square>, items: Seq<Option<InteractiveItem>>) -> bool {
    forall|k: int|
        0 <= k < items.len() ==> ((#[trigger] items[k]) matches Some(it) ==> {
            &&& it == InteractiveItem::DestructibleBox(DestructibleBox)
            &&& 0 <= k < squares.len()
            &&& squares[k].sq_type == SquareType::Empty
        })
}

/// The quadrant cell `(cx, cy)` must lie in for player `p` of the four:
/// left or right band of width `w / 4`, top or bottom band of height
/// `h / 4` (integer division).
pub open spec fn in_quadrant(w: int, h: int, p: int, cx: int, cy: int) -> bool {
    &&& if p == 1 || p == 3 {
        cx >= w - w / 4
    } else {
        cx < w / 4
    }
    &&& if p == 2 || p == 3 {
        cy >= h - h / 4
    } else {
        cy < h / 4
    }
}

/// Cell `(cx, cy)` is open for player `pl`: on the grid, its square
/// walkable for the player, and any item on it walkable too.
pub open spec fn cell_open_for(
    squares: Seq<Square>,
    items: Seq<Option<InteractiveItem>>,
    w: int,
    h: int,
    pl: MapPlayer,
    cx: int,
    cy: int,
) -> bool {
    &&& 0 <= cx < w
    &&& 0 <= cy < h
    &&& squares[spec_cell_index(w, cx, cy)].sq_type.spec_walkable(pl, (cx as usize, cy as usize))
    &&& (items[spec_cell_index(w, cx, cy)] matches Some(it) ==> it.spec_walkable(
        pl,
        (cx as usize, cy as usize),
    ))
}

/// Some open cell lies off the player's spawn column.
pub open spec fn x_escape_witness(
    squares: Seq<Square>,
    items: Seq<Option<InteractiveItem>>,
    w: int,
    h: int,
    pl: MapPlayer,
) -> bool {
    exists|cx: int, cy: int|
        #[trigger] cell_open_for(squares, items, w, h, pl, cx, cy) && cx != pl.spec_cell_x()
}

/// Some open cell lies off the player's spawn row.
pub open spec fn y_escape_witness(
    squares: Seq<Square>,
    items: Seq<Option<InteractiveItem>>,
    w: int,
    h: int,
    pl: MapPlayer,
) -> bool {
    exists|cx: int, cy: int|
        #[trigger] cell_open_for(squares, items, w, h, pl, cx, cy) && cy != pl.spec_cell_y()
}

/// The second grid only opens cells of the first: every square is
/// unchanged or turned `Empty`, every item slot unchanged or cleared.
pub open spec fn only_opened(
    sq1: Seq<Square>,
    it1: Seq<Option<InteractiveItem>>,
    sq2: Seq<Square>,
    it2: Seq<Option<InteractiveItem>>,
) -> bool {
    &&& sq2.len() == sq1.len()
    &&& it2.len() == it1.len()
    &&& forall|k: int|
        0 <= k < sq1.len() ==> ((#[trigger] sq2[k]) == sq1[k] || sq2[k] == (Square {
            sq_type: SquareType::Empty,
        }))
    &&& forall|k: int| 0 <= k < it1.len() ==> ((#[trigger] it2[k]) == it1[k] || it2[k] is None)
}

proof fn lemma_only_opened_trans(
    sq1: Seq<Square>,
    it1: Seq<Option<InteractiveItem>>,
    sq2: Seq<Square>,
    it2: Seq<Option<InteractiveItem>>,
    sq3: Seq<Square>,
    it3: Seq<Option<InteractiveItem>>,
)
    requires
        only_opened(sq1, it1, sq2, it2),
        only_opened(sq2, it2, sq3, it3),
    ensures
        only_opened(sq1, it1, sq3, it3),
{
}

/// Opening the world never hurts a spawn: every legal spawn cell stays
/// legal.
proof fn lemma_spawn_ok_more_open(
    sq1: Seq<Square>,
    it1: Seq<Option<InteractiveItem>>,
    sq2: Seq<Square>,
    it2: Seq<Option<InteractiveItem>>,
    w: int,
    h: int,
    pl: MapPlayer,
)
    requires
        spawn_ok_parts(sq1, it1, w, h, pl),
        only_opened(sq1, it1, sq2, it2),
        sq1.len() == w * h,
        it1.len() == w * h,
    ensures
        spawn_ok_parts(sq2, it2, w, h, pl),
{
    let cx = pl.spec_cell_x();
    let cy = pl.spec_cell_y();
    lemma_cell_index_in_range(w, h, cx, cy);
    let ci = spec_cell_index(w, cx, cy);
    assert(sq2[ci] == sq1[ci] || sq2[ci] == (Square { sq_type: SquareType::Empty }));
    assert(it2[ci] == it1[ci] || it2[ci] is None);
}

/// Opening the world never closes a cell: a cell open for a player stays
/// open.
proof fn lemma_cell_open_more_open(
    sq1: Seq<Square>,
    it1: Seq<Option<InteractiveItem>>,
    sq2: Seq<Square>,
    it2: Seq<Option<InteractiveItem>>,
    w: int,
    h: int,
    pl: MapPlayer,
    cx: int,
    cy: int,
)
    requires
        cell_open_for(sq1, it1, w, h, pl, cx, cy),
        only_opened(sq1, it1, sq2, it2),
        sq1.len() == w * h,
        it1.len() == w * h,
    ensures
        cell_open_for(sq2, it2, w, h, pl, cx, cy),
{
    lemma_cell_index_in_range(w, h, cx, cy);
    let ci = spec_cell_index(w, cx, cy);
    assert(sq2[ci] == sq1[ci] || sq2[ci] == (Square { sq_type: SquareType::Empty }));
    assert(it2[ci] == it1[ci] || it2[ci] is None);
}

/// The terrain distribution: roll 0 of 22 is water, roll 1 a wall facing
/// `d`, anything else open ground. `Block` is never drawn; only the
/// pillar lattice forces it.
pub open spec fn spec_square_type_of_roll(roll: u32, d: Direction) -> SquareType {
    if roll == 0 {
        SquareType::Water
    } else if roll == 1 {
        SquareType::Wall(d)
    } else {
        SquareType::Empty
    }
}

/// Map one terrain roll to its square type, as
/// [`spec_square_type_of_roll`] says.
pub fn square_type_of_roll(roll: u32, d: Direction) -> (t: SquareType)
    ensures
        t == spec_square_type_of_roll(roll, d),
        t != SquareType::Block,
{
    if roll == 0 {
        SquareType::Water
    } else if roll == 1 {
        SquareType::Wall(d)
    } else {
        SquareType::Empty
    }
}

/// Draw a square type for one cell of fresh terrain, putting a roll of 22
/// and a random facing through [`spec_square_type_of_roll`]. Whatever the
/// draw, the result is never `Block`.
pub fn random_square_type(rng: &mut RandomSource) -> (t: SquareType)
    ensures
        t != SquareType::Block,
{
    let roll = rng.below(22);
    let d = random_direction(rng);
    square_type_of_roll(roll, d)
}

/// Draw a wall facing.
pub fn random_direction(rng: &mut RandomSource) -> Direction {
    match rng.below(4) {
        0u32 => Direction::North,
        1u32 => Direction::South,
        2u32 => Direction::West,
        _ => Direction::East,
    }
}

/// Draw a bonus: one of the first four variants; the draw never yields
/// `MoreBombs` or a custom bonus.
pub fn random_bonus(rng: &mut RandomSource) -> (b: Bonus)
    ensures
        b == Bonus::ImproveBombRadius || b == Bonus::PunchBombs || b == Bonus::ImproveSpeed
            || b == Bonus::RepelBombs,
{
    match rng.below(4) {
        0u32 => Bonus::ImproveBombRadius,
        1u32 => Bonus::PunchBombs,
        2u32 => Bonus::ImproveSpeed,
        _ => Bonus::RepelBombs,
    }
}

/// Draw a malus: one of the first four variants; the draw never yields
/// `InvertedControls` or a custom malus.
pub fn random_malus(rng: &mut RandomSource) -> (m: Malus)
    ensures
        m == Malus::Slow || m == Malus::UltraFast || m == Malus::SpeedBomb || m == Malus::DropBombs,
{
    match rng.below(4) {
        0u32 => Malus::Slow,
        1u32 => Malus::UltraFast,
        2u32 => Malus::SpeedBomb,
        _ => Malus::DropBombs,
    }
}

impl World {
    /// Generate a world of `max(w, 11) x max(h, 11)` cells: random
    /// terrain with the forced pillar lattice and destructible boxes on
    /// roughly two thirds of the empty cells (and nowhere else), plus
    /// exactly four live players at cell centers, one per quadrant, each
    /// on a provably legal spawn cell; the carving pass then opens escape
    /// routes without ever making a spawn cell worse or touching the
    /// lattice. Succeeds for every outcome of the random source.
    ///
    /// The requested dimensions are bounded by 65535 because the wire
    /// carries them as 2-byte integers, and because `w * h` cells must fit
    /// a 32-bit `usize`.
    pub fn new(w: usize, h: usize, rng: &mut RandomSource) -> (r: World)
        requires
            w <= 65535,
            h <= 65535,
        ensures
            r.wf(),
            r.w == (if w < 11 { 11int } else { w as int }),
            r.h == (if h < 11 { 11int } else { h as int }),
            lattice_ok(r.squares@, r.w as int, r.h as int),
            boxes_on_empty(r.squares@, r.items@),
            r.players@.len() == 4,
            forall|j: int| 0 <= j < 4 ==> spawn_ok(r, #[trigger] r.players@[j]),
            forall|j: int|
                0 <= j < 4 ==> {
                    let pl = #[trigger] r.players@[j];
                    &&& !pl.dead
                    &&& pl.x as int % 256 == 128
                    &&& pl.y as int % 256 == 128
                    &&& in_quadrant(r.w as int, r.h as int, j, pl.spec_cell_x(), pl.spec_cell_y())
                },
    {
        let w: usize = if w < 11 { 11 } else { w };
        let h: usize = if h < 11 { 11 } else { h };
        proof {
            assert(w * h <= 0xFFFE0001) by (nonlinear_arith)
                requires
                    w <= 65535,
                    h <= 65535,
            ;
        }
        let size: usize = w * h;

        let mut squares: Vec<Square> = Vec::new();
        let mut items: Vec<Option<InteractiveItem>> = Vec::new();
        let mut x: usize = 0;
        let mut y: usize = 0;
        let mut i: usize = 0;
        while i < size
            invariant
                i <= size,
                w <= 65535,
                x < w,
                y <= i,
                i == x + y * w,
                squares@.len() == i,
                items@.len() == i,
                forall|cx: int, cy: int|
                    #![trigger spec_cell_index(w as int, cx, cy)]
                    0 <= cx < w && 0 <= cy && cx % 2 == 1 && cy % 2 == 1 && spec_cell_index(
                        w as int,
                        cx,
                        cy,
                    ) < i ==> squares@[spec_cell_index(w as int, cx, cy)].sq_type
                        == SquareType::Block,
                forall|k: int|
                    0 <= k < i ==> ((#[trigger] items@[k]) matches Some(it) ==> {
                        &&& it == InteractiveItem::DestructibleBox(DestructibleBox)
                        &&& squares@[k].sq_type == SquareType::Empty
                    }),
            decreases size - i,
        {
            let ghost gx = x as int;
            let ghost gy = y as int;
            let ghost gi = i as int;
            let mut sq_type = random_square_type(rng);
            if x % 2 == 1 && y % 2 == 1 {
                sq_type = SquareType::Block;
            }

            let add_box = rng.byte();
            if add_box % 3 != 0 && sq_type == SquareType::Empty {
                items.push(Some(InteractiveItem::DestructibleBox(DestructibleBox)));
            } else {
                items.push(None);
            }
            squares.push(Square { sq_type });

            x += 1;
            if x == w {
                x = 0;
                y += 1;
            }
            i += 1;
            proof {
                if x == 0 {
                    assert((gy + 1) * w == gy * w + w) by (nonlinear_arith);
                }
                assert(i == x + y * w);
                assert forall|cx: int, cy: int|
                    0 <= cx < w && 0 <= cy && cx % 2 == 1 && cy % 2 == 1 && #[trigger] spec_cell_index(
                        w as int,
                        cx,
                        cy,
                    ) < i implies squares@[spec_cell_index(w as int, cx, cy)].sq_type
                    == SquareType::Block by {
                    if spec_cell_index(w as int, cx, cy) == gi {
                        lemma_cell_index_injective(w as int, cx, cy, gx, gy);
                        assert(sq_type == SquareType::Block);
                    }
                }
            }
        }

        proof {
            assert forall|cx: int, cy: int|
                0 <= cx < w && 0 <= cy < h && cx % 2 == 1 && cy % 2 == 1 implies squares@[#[trigger] spec_cell_index(
                w as int,
                cx,
                cy,
            )].sq_type == SquareType::Block by {
                lemma_cell_index_in_range(w as int, h as int, cx, cy);
            }
            assert(lattice_ok(squares@, w as int, h as int));
            assert(boxes_on_empty(squares@, items@));
        }

        let mut players: Vec<MapPlayer> = Vec::new();
        let mut p: usize = 0;
        while p < 4
            invariant
                11 <= w <= 65535,
                11 <= h <= 65535,
                squares@.len() == w * h,
                items@.len() == w * h,
                p <= 4,
                players@.len() == p,
                lattice_ok(squares@, w as int, h as int),
                boxes_on_empty(squares@, items@),
                forall|j: int|
                    0 <= j < p ==> spawn_ok_parts(
                        squares@,
                        items@,
                        w as int,
                        h as int,
                        #[trigger] players@[j],
                    ),
                forall|j: int|
                    0 <= j < p ==> {
                        let pl = #[trigger] players@[j];
                        &&& !pl.dead
                        &&& pl.x as int % 256 == 128
                        &&& pl.y as int % 256 == 128
                        &&& in_quadrant(w as int, h as int, j, pl.spec_cell_x(), pl.spec_cell_y())
                    },
            decreases 4 - p,
        {
            // The deterministic fallback cell: even coordinates, inside
            // the player's quadrant.
            proof {
                assert(w / 4 >= 2 && h / 4 >= 2) by (nonlinear_arith)
                    requires
                        w >= 11,
                        h >= 11,
                ;
            }
            let mut fx: usize = 0;
            let mut fy: usize = 0;
            if p == 1 || p == 3 {
                let rx = w - 1;
                fx = if rx % 2 == 1 {
                    rx - 1
                } else {
                    rx
                };
            }
            if p == 2 || p == 3 {
                let ry = h - 1;
                fy = if ry % 2 == 1 {
                    ry - 1
                } else {
                    ry
                };
            }
            proof {
                assert(fx % 2 == 0 && fy % 2 == 0);
                assert(fx < w && fy < h);
                assert(in_quadrant(w as int, h as int, p as int, fx as int, fy as int));
            }
            let mut posx: usize = fx;
            let mut posy: usize = fy;
            let mut player = MapPlayer::at_cell_center(posx as u16, posy as u16);
            let mut valid = false;
            // Quadrant-biased rejection sampling, with a budget; the
            // fallback below opens the deterministic cell if the budget
            // runs out.
            let mut tries: usize = 0;
            while !valid && tries < 64
                invariant
                    11 <= w <= 65535,
                    11 <= h <= 65535,
                    squares@.len() == w * h,
                    posx < w,
                    posy < h,
                    p < 4,
                    in_quadrant(w as int, h as int, p as int, posx as int, posy as int),
                    valid ==> {
                        &&& player.spec_cell_x() == posx
                        &&& player.spec_cell_y() == posy
                        &&& !player.dead
                        &&& player.x as int % 256 == 128
                        &&& player.y as int % 256 == 128
                        &&& squares@[spec_cell_index(w as int, posx as int, posy as int)].sq_type.spec_walkable(
                            player,
                            (posx, posy),
                        )
                    },
                decreases 64 - tries,
            {
                let rx = rng.below((w / 4) as u32);
                let ry = rng.below((h / 4) as u32);
                posx = rx as usize;
                posy = ry as usize;
                if p == 1 || p == 3 {
                    posx = w - posx - 1;
                }
                if p == 2 || p == 3 {
                    posy = h - posy - 1;
                }
                proof {
                    assert(in_quadrant(w as int, h as int, p as int, posx as int, posy as int));
                }
                player = MapPlayer::at_cell_center(posx as u16, posy as u16);
                let _bound = squares.len();
                proof {
                    lemma_cell_index_in_range(w as int, h as int, posx as int, posy as int);
                }
                let idx: usize = posx + posy * w;
                let sq = squares[idx];
                if sq.sq_type.walkable(&player, &(posx, posy)) {
                    valid = true;
                }
                tries += 1;
            }
            if !valid {
                // The sampling budget ran out (possible only on terrain
                // with almost no open ground): open the deterministic
                // fallback cell. Its even coordinates keep it off the
                // pillar lattice.
                posx = fx;
                posy = fy;
                let _bound = squares.len();
                proof {
                    lemma_cell_index_in_range(w as int, h as int, posx as int, posy as int);
                }
                let idx: usize = posx + posy * w;
                let ghost old_squares = squares@;
                squares.set(idx, Square { sq_type: SquareType::Empty });
                player = MapPlayer::at_cell_center(posx as u16, posy as u16);
                proof {
                    assert(only_opened(old_squares, items@, squares@, items@));
                    assert forall|j: int| 0 <= j < p implies spawn_ok_parts(
                        squares@,
                        items@,
                        w as int,
                        h as int,
                        #[trigger] players@[j],
                    ) by {
                        lemma_spawn_ok_more_open(
                            old_squares,
                            items@,
                            squares@,
                            items@,
                            w as int,
                            h as int,
                            players@[j],
                        );
                    }
                    assert forall|cx: int, cy: int|
                        0 <= cx < w && 0 <= cy < h && cx % 2 == 1 && cy % 2 == 1 implies squares@[#[trigger] spec_cell_index(
                        w as int,
                        cx,
                        cy,
                    )].sq_type == SquareType::Block by {
                        lemma_cell_index_in_range(w as int, h as int, cx, cy);
                        if spec_cell_index(w as int, cx, cy) == idx {
                            lemma_cell_index_injective(w as int, cx, cy, posx as int, posy as int);
                        }
                    }
                    assert(boxes_on_empty(squares@, items@));
                }
            }
            let _bound = items.len();
            proof {
                lemma_cell_index_in_range(w as int, h as int, posx as int, posy as int);
            }
            let idx: usize = posx + posy * w;
            let ghost old_items = items@;
            let ghost players_before = players@;
            items.set(idx, None);
            players.push(player);
            proof {
                assert(only_opened(squares@, old_items, squares@, items@));
                assert forall|j: int| 0 <= j < p + 1 implies spawn_ok_parts(
                    squares@,
                    items@,
                    w as int,
                    h as int,
                    #[trigger] players@[j],
                ) by {
                    if j < p {
                        lemma_spawn_ok_more_open(
                            squares@,
                            old_items,
                            squares@,
                            items@,
                            w as int,
                            h as int,
                            players@[j],
                        );
                    } else {
                        assert(players@[j] == player);
                        assert(squares@[spec_cell_index(w as int, posx as int, posy as int)].sq_type
                            != SquareType::Block);
                    }
                }
                assert(boxes_on_empty(squares@, items@));
                assert forall|j: int| 0 <= j < p + 1 implies {
                    let plj = #[trigger] players@[j];
                    &&& !plj.dead
                    &&& plj.x as int % 256 == 128
                    &&& plj.y as int % 256 == 128
                    &&& in_quadrant(w as int, h as int, j, plj.spec_cell_x(), plj.spec_cell_y())
                } by {
                    if j == p {
                        assert(players@[j] == player);
                        assert(!player.dead);
                        assert(player.x as int % 256 == 128);
                        assert(player.y as int % 256 == 128);
                        assert(player.spec_cell_x() == posx as int);
                        assert(player.spec_cell_y() == posy as int);
                        assert(in_quadrant(w as int, h as int, p as int, posx as int, posy as int));
                    } else {
                        let plj0 = players_before[j];
                        assert(!plj0.dead && plj0.x as int % 256 == 128 && plj0.y as int % 256 == 128
                            && in_quadrant(w as int, h as int, j, plj0.spec_cell_x(), plj0.spec_cell_y()));
                        assert(players@[j] == plj0);
                    }
                }
            }
            p += 1;
        }

        let mut res = World { w, h, squares, players, items };
        let _outcomes = res.make_startable(rng);
        res
    }

    /// The carving pass: from each spawn, walk a randomized frontier,
    /// remembering walkable cells as safe and blocked ones as
    /// destroyable, and promote destroyable cells — clearing their item
    /// and, if the square still blocks, opening it to `Empty` — until the
    /// safe set holds a cell off the spawn's column and one off its row,
    /// the backlog runs dry, or the iteration budget ends.
    ///
    /// Returns one flag pair per player: a set flag carries its proof
    /// that the final world holds an open cell off the spawn's column
    /// (respectively row); an unset flag means the destroyable backlog or
    /// the budget was exhausted first, the documented relaxation. The
    /// pass only ever opens cells, so every legal spawn cell stays legal
    /// and the pillar lattice stands.
    #[verifier::rlimit(100)]
    #[verifier::spinoff_prover]
    fn make_startable(&mut self, rng: &mut RandomSource) -> (outcomes: Vec<(bool, bool)>)
        requires
            old(self).wf(),
            old(self).w <= 65535,
            old(self).h <= 65535,
            1 <= old(self).w,
            1 <= old(self).h,
            forall|j: int|
                0 <= j < old(self).players@.len() ==> {
                    &&& 0 <= (#[trigger] old(self).players@[j]).spec_cell_x() < old(self).w
                    &&& 0 <= old(self).players@[j].spec_cell_y() < old(self).h
                },
            boxes_on_empty(old(self).squares@, old(self).items@),
            lattice_ok(old(self).squares@, old(self).w as int, old(self).h as int),
        ensures
            final(self).wf(),
            final(self).w == old(self).w,
            final(self).h == old(self).h,
            final(self).players == old(self).players,
            only_opened(old(self).squares@, old(self).items@, final(self).squares@, final(self).items@),
            lattice_ok(final(self).squares@, final(self).w as int, final(self).h as int),
            boxes_on_empty(final(self).squares@, final(self).items@),
            forall|j: int|
                0 <= j < old(self).players@.len() && spawn_ok(
                    *old(self),
                    old(self).players@[j],
                ) ==> spawn_ok(*final(self), #[trigger] final(self).players@[j]),
            outcomes@.len() == old(self).players@.len(),
            forall|j: int|
                0 <= j < outcomes@.len() && (#[trigger] outcomes@[j]).0 ==> x_escape_witness(
                    final(self).squares@,
                    final(self).items@,
                    final(self).w as int,
                    final(self).h as int,
                    final(self).players@[j],
                ),
            forall|j: int|
                0 <= j < outcomes@.len() && (#[trigger] outcomes@[j]).1 ==> y_escape_witness(
                    final(self).squares@,
                    final(self).items@,
                    final(self).w as int,
                    final(self).h as int,
                    final(self).players@[j],
                ),
    {
        let ghost pre = *old(self);
        let w = self.w;
        let h = self.h;
        let mut outcomes: Vec<(bool, bool)> = Vec::new();
        let mut p_i: usize = 0;
        while p_i < self.players.len()
            invariant
                self.wf(),
                self.w == pre.w,
                self.h == pre.h,
                self.players == pre.players,
                w == pre.w,
                h == pre.h,
                1 <= w <= 65535,
                1 <= h <= 65535,
                forall|j: int|
                    0 <= j < pre.players@.len() ==> {
                        &&& 0 <= (#[trigger] pre.players@[j]).spec_cell_x() < pre.w
                        &&& 0 <= pre.players@[j].spec_cell_y() < pre.h
                    },
                only_opened(pre.squares@, pre.items@, self.squares@, self.items@),
                lattice_ok(self.squares@, w as int, h as int),
                boxes_on_empty(self.squares@, self.items@),
                forall|j: int|
                    0 <= j < pre.players@.len() && spawn_ok(pre, pre.players@[j]) ==> spawn_ok(
                        *self,
                        #[trigger] self.players@[j],
                    ),
                p_i <= self.players@.len(),
                outcomes@.len() == p_i,
                forall|j: int|
                    0 <= j < outcomes@.len() && (#[trigger] outcomes@[j]).0 ==> x_escape_witness(
                        self.squares@,
                        self.items@,
                        w as int,
                        h as int,
                        self.players@[j],
                    ),
                forall|j: int|
                    0 <= j < outcomes@.len() && (#[trigger] outcomes@[j]).1 ==> y_escape_witness(
                        self.squares@,
                        self.items@,
                        w as int,
                        h as int,
                        self.players@[j],
                    ),
            decreases self.players@.len() - p_i,
        {
            let pl = self.players[p_i];
            let spawn_cx = pl.cell_x();
            let spawn_cy = pl.cell_y();
            let mut different_x = false;
            let mut different_y = false;
            let mut destroyable: Vec<(usize, usize)> = Vec::new();
            let mut safe: Vec<(usize, usize)> = Vec::new();
            safe.push((spawn_cx, spawn_cy));

            let mut safe_idx: usize = 0;
            let mut prefer_n = rng.coin();
            let mut prefer_w = rng.coin();
            let mut check_x = true;
            let mut inc_x: i64 = 0;
            let mut inc_y: i64 = 0;
            let mut direction_tested: u8 = 0;
            let total_cells = self.items.len();
            proof {
                assert(total_cells <= 0xFFFE0001) by (nonlinear_arith)
                    requires
                        total_cells == w * h,
                        w <= 65535,
                        h <= 65535,
                ;
            }
            let mut budget: u64 = 16 * (total_cells as u64) + 64;
            while (!different_x || !different_y) && budget > 0
                invariant
                    self.wf(),
                    self.w == pre.w,
                    self.h == pre.h,
                    self.players == pre.players,
                    w == pre.w,
                    h == pre.h,
                    1 <= w <= 65535,
                    1 <= h <= 65535,
                    only_opened(pre.squares@, pre.items@, self.squares@, self.items@),
                    lattice_ok(self.squares@, w as int, h as int),
                    boxes_on_empty(self.squares@, self.items@),
                    forall|j: int|
                        0 <= j < pre.players@.len() && spawn_ok(pre, pre.players@[j]) ==> spawn_ok(
                            *self,
                            #[trigger] self.players@[j],
                        ),
                    forall|j: int|
                        0 <= j < outcomes@.len() && (#[trigger] outcomes@[j]).0
                            ==> x_escape_witness(
                            self.squares@,
                            self.items@,
                            w as int,
                            h as int,
                            self.players@[j],
                        ),
                    forall|j: int|
                        0 <= j < outcomes@.len() && (#[trigger] outcomes@[j]).1
                            ==> y_escape_witness(
                            self.squares@,
                            self.items@,
                            w as int,
                            h as int,
                            self.players@[j],
                        ),
                    pl == self.players@[p_i as int],
                    spawn_cx == pl.spec_cell_x(),
                    spawn_cy == pl.spec_cell_y(),
                    different_x ==> x_escape_witness(
                        self.squares@,
                        self.items@,
                        w as int,
                        h as int,
                        pl,
                    ),
                    different_y ==> y_escape_witness(
                        self.squares@,
                        self.items@,
                        w as int,
                        h as int,
                        pl,
                    ),
                    1 <= safe@.len(),
                    safe_idx < safe@.len(),
                    forall|k: int|
                        0 <= k < safe@.len() ==> (#[trigger] safe@[k]).0 < w && safe@[k].1 < h,
                    forall|k: int|
                        0 <= k < destroyable@.len() ==> {
                            &&& (#[trigger] destroyable@[k]).0 < w
                            &&& destroyable@[k].1 < h
                            &&& self.squares@[spec_cell_index(
                                w as int,
                                destroyable@[k].0 as int,
                                destroyable@[k].1 as int,
                            )].sq_type != SquareType::Block
                        },
                    inc_x == 0,
                    inc_y == 0,
                    direction_tested <= 4,
                decreases budget,
            {
                budget -= 1;
                if direction_tested == 4 {
                    direction_tested = 0;
                    prefer_n = rng.coin();
                    prefer_w = rng.coin();
                    let _bound = safe.len();
                    safe_idx += 1;
                    if safe_idx >= safe.len() {
                        if destroyable.len() == 0 {
                            safe_idx -= 1;
                            break;
                        }
                        let ghost dest_before = destroyable@;
                        let new_safe = destroyable.pop().unwrap();
                        proof {
                            lemma_cell_index_in_range(
                                w as int,
                                h as int,
                                new_safe.0 as int,
                                new_safe.1 as int,
                            );
                        }
                        let _bound = self.items.len();
                        let lin: usize = new_safe.0 + new_safe.1 * w;
                        let ghost sq_before = self.squares@;
                        let ghost it_before = self.items@;
                        let slot = &self.items[lin];
                        let walkable_item = match slot {
                            Some(it) => it.walkable(&pl, &new_safe),
                            None => true,
                        };
                        safe.push(new_safe);
                        if !walkable_item {
                            self.items.set(lin, None);
                        }
                        let sq_now = self.squares[lin];
                        if !sq_now.sq_type.walkable(&pl, &new_safe) {
                            self.squares.set(lin, Square { sq_type: SquareType::Empty });
                        }
                        proof {
                            assert(only_opened(sq_before, it_before, self.squares@, self.items@));
                            lemma_only_opened_trans(
                                pre.squares@,
                                pre.items@,
                                sq_before,
                                it_before,
                                self.squares@,
                                self.items@,
                            );
                            assert forall|j: int|
                                0 <= j < pre.players@.len() && spawn_ok(
                                    pre,
                                    pre.players@[j],
                                ) implies spawn_ok(*self, #[trigger] self.players@[j]) by {
                                lemma_spawn_ok_more_open(
                                    sq_before,
                                    it_before,
                                    self.squares@,
                                    self.items@,
                                    w as int,
                                    h as int,
                                    self.players@[j],
                                );
                            }
                            // The promoted cell was never a pillar, so
                            // the lattice stands.
                            assert forall|cx: int, cy: int|
                                0 <= cx < w && 0 <= cy < h && cx % 2 == 1 && cy % 2 == 1 implies self.squares@[#[trigger] spec_cell_index(
                                w as int,
                                cx,
                                cy,
                            )].sq_type == SquareType::Block by {
                                lemma_cell_index_in_range(w as int, h as int, cx, cy);
                                if spec_cell_index(w as int, cx, cy) == lin {
                                    lemma_cell_index_injective(
                                        w as int,
                                        cx,
                                        cy,
                                        new_safe.0 as int,
                                        new_safe.1 as int,
                                    );
                                    assert(sq_before[lin as int].sq_type == SquareType::Block);
                                    assert(false);
                                }
                            }
                            assert(boxes_on_empty(self.squares@, self.items@));
                            // The promotion left the cell open for the
                            // player.
                            assert(cell_open_for(
                                self.squares@,
                                self.items@,
                                w as int,
                                h as int,
                                pl,
                                new_safe.0 as int,
                                new_safe.1 as int,
                            ));
                            if different_x {
                                let (cx, cy) = choose|cx: int, cy: int|
                                    cell_open_for(sq_before, it_before, w as int, h as int, pl, cx, cy)
                                        && cx != pl.spec_cell_x();
                                lemma_cell_open_more_open(
                                    sq_before,
                                    it_before,
                                    self.squares@,
                                    self.items@,
                                    w as int,
                                    h as int,
                                    pl,
                                    cx,
                                    cy,
                                );
                            }
                            if different_y {
                                let (cx, cy) = choose|cx: int, cy: int|
                                    cell_open_for(sq_before, it_before, w as int, h as int, pl, cx, cy)
                                        && cy != pl.spec_cell_y();
                                lemma_cell_open_more_open(
                                    sq_before,
                                    it_before,
                                    self.squares@,
                                    self.items@,
                                    w as int,
                                    h as int,
                                    pl,
                                    cx,
                                    cy,
                                );
                            }
                            assert forall|j: int|
                                0 <= j < outcomes@.len() && (#[trigger] outcomes@[j]).0
                                    implies x_escape_witness(
                                self.squares@,
                                self.items@,
                                w as int,
                                h as int,
                                self.players@[j],
                            ) by {
                                let plj = self.players@[j];
                                let (cx, cy) = choose|cx: int, cy: int|
                                    cell_open_for(sq_before, it_before, w as int, h as int, plj, cx, cy)
                                        && cx != plj.spec_cell_x();
                                lemma_cell_open_more_open(
                                    sq_before,
                                    it_before,
                                    self.squares@,
                                    self.items@,
                                    w as int,
                                    h as int,
                                    plj,
                                    cx,
                                    cy,
                                );
                            }
                            assert forall|j: int|
                                0 <= j < outcomes@.len() && (#[trigger] outcomes@[j]).1
                                    implies y_escape_witness(
                                self.squares@,
                                self.items@,
                                w as int,
                                h as int,
                                self.players@[j],
                            ) by {
                                let plj = self.players@[j];
                                let (cx, cy) = choose|cx: int, cy: int|
                                    cell_open_for(sq_before, it_before, w as int, h as int, plj, cx, cy)
                                        && cy != plj.spec_cell_y();
                                lemma_cell_open_more_open(
                                    sq_before,
                                    it_before,
                                    self.squares@,
                                    self.items@,
                                    w as int,
                                    h as int,
                                    plj,
                                    cx,
                                    cy,
                                );
                            }
                            // The rest of the backlog still holds no
                            // pillar after the promotion's mutations.
                            assert forall|k: int| 0 <= k < destroyable@.len() implies {
                                &&& (#[trigger] destroyable@[k]).0 < w
                                &&& destroyable@[k].1 < h
                                &&& self.squares@[spec_cell_index(
                                    w as int,
                                    destroyable@[k].0 as int,
                                    destroyable@[k].1 as int,
                                )].sq_type != SquareType::Block
                            } by {
                                assert(destroyable@[k] == dest_before[k]);
                                lemma_cell_index_in_range(
                                    w as int,
                                    h as int,
                                    destroyable@[k].0 as int,
                                    destroyable@[k].1 as int,
                                );
                            }
                        }
                        if new_safe.0 != spawn_cx {
                            different_x = true;
                            proof {
                                assert(new_safe.0 as int != pl.spec_cell_x());
                                assert(x_escape_witness(self.squares@, self.items@, w as int, h as int, pl));
                            }
                        }
                        if new_safe.1 != spawn_cy {
                            different_y = true;
                            proof {
                                assert(new_safe.1 as int != pl.spec_cell_y());
                                assert(y_escape_witness(self.squares@, self.items@, w as int, h as int, pl));
                            }
                        }
                    }
                }
                if check_x {
                    if prefer_w {
                        inc_x = inc_x - 1;
                    } else {
                        inc_x = inc_x + 1;
                    }
                } else {
                    if prefer_n {
                        inc_y = inc_y - 1;
                    } else {
                        inc_y = inc_y + 1;
                    }
                }
                let base = safe[safe_idx];
                let to_test_x: i64 = base.0 as i64 + inc_x;
                let to_test_y: i64 = base.1 as i64 + inc_y;
                if to_test_x < 0 || to_test_x >= w as i64 {
                    inc_x = 0;
                    check_x = !check_x;
                    direction_tested += 1;
                    prefer_w = !prefer_w;
                    continue;
                }
                if to_test_y < 0 || to_test_y >= h as i64 {
                    inc_y = 0;
                    check_x = !check_x;
                    direction_tested += 1;
                    prefer_n = !prefer_n;
                    continue;
                }
                let tx = to_test_x as usize;
                let ty = to_test_y as usize;
                if coords_member(&safe, tx, ty) {
                    if check_x {
                        inc_x = 0;
                        prefer_w = !prefer_w;
                    } else {
                        inc_y = 0;
                        prefer_n = !prefer_n;
                    }
                    check_x = !check_x;
                    direction_tested += 1;
                    continue;
                }
                proof {
                    lemma_cell_index_in_range(w as int, h as int, tx as int, ty as int);
                }
                let _bound = self.items.len();
                let lin: usize = tx + ty * w;
                let slot = &self.items[lin];
                let walkable_item = match slot {
                    Some(it) => it.walkable(&pl, &(tx, ty)),
                    None => true,
                };
                let sq = self.squares[lin];
                if sq.sq_type.walkable(&pl, &(tx, ty)) && walkable_item {
                    safe.push((tx, ty));
                    proof {
                        assert(cell_open_for(
                            self.squares@,
                            self.items@,
                            w as int,
                            h as int,
                            pl,
                            tx as int,
                            ty as int,
                        ));
                    }
                    if check_x {
                        if tx != spawn_cx {
                            different_x = true;
                            proof {
                                assert(tx as int != pl.spec_cell_x());
                                assert(x_escape_witness(self.squares@, self.items@, w as int, h as int, pl));
                            }
                        }
                    } else {
                        if ty != spawn_cy {
                            different_y = true;
                            proof {
                                assert(ty as int != pl.spec_cell_y());
                                assert(y_escape_witness(self.squares@, self.items@, w as int, h as int, pl));
                            }
                        }
                    }
                } else {
                    if !walkable_item || sq.sq_type != SquareType::Block {
                        proof {
                            // A pillar never enters the backlog: it holds
                            // no item, so only the square test could have
                            // admitted it, and that test excludes Block.
                            if sq.sq_type == SquareType::Block {
                                assert(self.items@[lin as int] is None);
                                assert(walkable_item);
                                assert(false);
                            }
                        }
                        destroyable.push((tx, ty));
                    }
                }

                if check_x {
                    inc_x = 0;
                    check_x = false;
                    direction_tested += 1;
                    prefer_w = !prefer_w;
                } else {
                    inc_y = 0;
                    check_x = true;
                    direction_tested += 1;
                    prefer_n = !prefer_n;
                }
            }
            outcomes.push((different_x, different_y));
            p_i += 1;
        }
        outcomes
    }
}

/// Whether the coordinate pair already stands in the list.
fn coords_member(v: &Vec<(usize, usize)>, tx: usize, ty: usize) -> (r: bool)
    ensures
        r == v@.contains((tx, ty)),
{
    let mut i: usize = 0;
    while i < v.len()
        invariant
            i <= v@.len(),
            forall|k: int| 0 <= k < i ==> #[trigger] v@[k] != (tx, ty),
        decreases v@.len() - i,
    {
        let e = v[i];
        if e.0 == tx && e.1 == ty {
            proof {
                assert(v@[i as int] == (tx, ty));
            }
            return true;
        }
        i += 1;
    }
    proof {
        assert(!v@.contains((tx, ty)));
    }
    false
}

} // verus!
