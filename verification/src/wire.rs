//! The executable encoder and decoder for envelopes, verified against the
//! codec specification.

use vstd::prelude::*;

use crate::bytes::{emit_bool, emit_u16, emit_u32, emit_u64};
use crate::codec::{
    bonus_fits, dec_bonus, dec_direction, dec_envelope, dec_items_n, dec_malus, dec_opt_item,
    dec_player, dec_players_n, dec_square_type, dec_squares_n, dec_world, direction_byte,
    enc_bonus, enc_envelope, enc_items, enc_malus, enc_opt_item, enc_player, enc_players,
    enc_square_type, enc_squares, enc_world, items_fit, lemma_enc_items_push,
    lemma_enc_players_push, lemma_enc_squares_push, malus_fits, opt_item_fits, world_fits,
    CommandKind, DecodeError, EnvelopeM, ItemM,
};
use crate::envelope::{opt_item_model, Envelope};
use crate::item::{BombItem, Bonus, DestructibleBox, InteractiveItem, Malus};
use crate::player::MapPlayer;
use crate::square::{Direction, Square, SquareType};
use crate::strings::{chars_eq, emit_chars, read_chars, read_string};
use crate::world::World;

verus! {

// ---------------------------------------------------------------------------
// Encoding
// ---------------------------------------------------------------------------

pub fn emit_direction(out: &mut Vec<u8>, d: Direction)
    ensures
        final(out)@ == old(out)@ + seq![direction_byte(d)],
{
    let b: u8 = match d {
        Direction::North => 0,
        Direction::South => 1,
        Direction::West => 2,
        Direction::East => 3,
    };
    out.push(b);
    proof {
        assert(out@ =~= old(out)@ + seq![direction_byte(d)]);
    }
}

pub fn emit_square_type(out: &mut Vec<u8>, t: SquareType)
    ensures
        final(out)@ == old(out)@ + enc_square_type(t),
{
    match t {
        SquareType::Water => out.push(0),
        SquareType::Empty => out.push(1),
        SquareType::Block => out.push(2),
        SquareType::Wall(d) => {
            out.push(3);
            emit_direction(out, d);
        },
    }
    proof {
        assert(out@ =~= old(out)@ + enc_square_type(t));
    }
}

pub fn emit_bonus(out: &mut Vec<u8>, b: &Bonus)
    requires
        bonus_fits(b.model()),
    ensures
        final(out)@ == old(out)@ + enc_bonus(b.model()),
{
    match b {
        Bonus::ImproveBombRadius => out.push(0),
        Bonus::PunchBombs => out.push(1),
        Bonus::ImproveSpeed => out.push(2),
        Bonus::RepelBombs => out.push(3),
        Bonus::MoreBombs => out.push(4),
        Bonus::Custom(s) => {
            out.push(5);
            emit_chars(out, s.as_str());
        },
    }
    proof {
        assert(out@ =~= old(out)@ + enc_bonus(b.model()));
    }
}

pub fn emit_malus(out: &mut Vec<u8>, m: &Malus)
    requires
        malus_fits(m.model()),
    ensures
        final(out)@ == old(out)@ + enc_malus(m.model()),
{
    match m {
        Malus::Slow => out.push(0),
        Malus::UltraFast => out.push(1),
        Malus::SpeedBomb => out.push(2),
        Malus::DropBombs => out.push(3),
        Malus::InvertedControls => out.push(4),
        Malus::Custom(s) => {
            out.push(5);
            emit_chars(out, s.as_str());
        },
    }
    proof {
        assert(out@ =~= old(out)@ + enc_malus(m.model()));
    }
}

pub fn emit_opt_item(out: &mut Vec<u8>, oi: &Option<InteractiveItem>)
    requires
        opt_item_fits(opt_item_model(*oi)),
    ensures
        final(out)@ == old(out)@ + enc_opt_item(opt_item_model(*oi)),
{
    match oi {
        None => out.push(0),
        Some(InteractiveItem::Bomb(..)) => out.push(1),
        Some(InteractiveItem::DestructibleBox(..)) => out.push(2),
        Some(InteractiveItem::Bonus(b)) => {
            out.push(3);
            emit_bonus(out, b);
        },
        Some(InteractiveItem::Malus(m)) => {
            out.push(4);
            emit_malus(out, m);
        },
    }
    proof {
        assert(out@ =~= old(out)@ + enc_opt_item(opt_item_model(*oi)));
    }
}

pub fn emit_player(out: &mut Vec<u8>, p: &MapPlayer)
    ensures
        final(out)@ == old(out)@ + enc_player(*p),
{
    emit_u32(out, p.x);
    emit_u32(out, p.y);
    emit_bool(out, p.dead);
    proof {
        assert(out@ =~= old(out)@ + enc_player(*p));
    }
}

/// Append the wire form of a whole world snapshot.
pub fn emit_world(out: &mut Vec<u8>, wd: &World)
    requires
        world_fits(wd.model()),
    ensures
        final(out)@ == old(out)@ + enc_world(wd.model()),
{
    emit_u16(out, wd.w as u16);
    emit_u16(out, wd.h as u16);

    let ghost base_sq = out@;
    let mut i: usize = 0;
    while i < wd.squares.len()
        invariant
            i <= wd.squares@.len(),
            out@ == base_sq + enc_squares(wd.squares@.subrange(0, i as int)),
        decreases wd.squares@.len() - i,
    {
        let q = wd.squares[i];
        emit_square_type(out, q.sq_type);
        i += 1;
        proof {
            assert(wd.squares@.subrange(0, i - 1).push(q) =~= wd.squares@.subrange(0, i as int));
            lemma_enc_squares_push(wd.squares@.subrange(0, i - 1), q);
            assert(base_sq + enc_squares(wd.squares@.subrange(0, i - 1)) + enc_square_type(q.sq_type)
                =~= base_sq + enc_squares(wd.squares@.subrange(0, i as int)));
        }
    }
    proof {
        assert(wd.squares@.subrange(0, wd.squares@.len() as int) =~= wd.squares@);
    }

    let ghost base_it = out@;
    let mut j: usize = 0;
    while j < wd.items.len()
        invariant
            j <= wd.items@.len(),
            out@ == base_it + enc_items(
                wd.items@.subrange(0, j as int).map_values(|oi: Option<InteractiveItem>| opt_item_model(oi)),
            ),
            items_fit(wd.items@.map_values(|oi: Option<InteractiveItem>| opt_item_model(oi))),
        decreases wd.items@.len() - j,
    {
        let oi = &wd.items[j];
        proof {
            assert(wd.items@.map_values(|x: Option<InteractiveItem>| opt_item_model(x))[j as int]
                == opt_item_model(wd.items@[j as int]));
        }
        emit_opt_item(out, oi);
        j += 1;
        proof {
            let f = |x: Option<InteractiveItem>| opt_item_model(x);
            assert(wd.items@.subrange(0, j - 1).map_values(f).push(opt_item_model(wd.items@[j - 1]))
                =~= wd.items@.subrange(0, j as int).map_values(f));
            lemma_enc_items_push(wd.items@.subrange(0, j - 1).map_values(f), opt_item_model(wd.items@[j - 1]));
            assert(base_it + enc_items(wd.items@.subrange(0, j - 1).map_values(f))
                + enc_opt_item(opt_item_model(wd.items@[j - 1]))
                =~= base_it + enc_items(wd.items@.subrange(0, j as int).map_values(f)));
        }
    }
    proof {
        let f = |x: Option<InteractiveItem>| opt_item_model(x);
        assert(wd.items@.subrange(0, wd.items@.len() as int) =~= wd.items@);
        assert(wd.items@.subrange(0, wd.items@.len() as int).map_values(f) =~= wd.items@.map_values(f));
    }

    emit_u16(out, wd.players.len() as u16);
    let ghost base_pl = out@;
    let mut k: usize = 0;
    while k < wd.players.len()
        invariant
            k <= wd.players@.len(),
            out@ == base_pl + enc_players(wd.players@.subrange(0, k as int)),
        decreases wd.players@.len() - k,
    {
        let p = wd.players[k];
        emit_player(out, &p);
        k += 1;
        proof {
            assert(wd.players@.subrange(0, k - 1).push(p) =~= wd.players@.subrange(0, k as int));
            lemma_enc_players_push(wd.players@.subrange(0, k - 1), p);
            assert(base_pl + enc_players(wd.players@.subrange(0, k - 1)) + enc_player(p)
                =~= base_pl + enc_players(wd.players@.subrange(0, k as int)));
        }
    }
    proof {
        assert(wd.players@.subrange(0, wd.players@.len() as int) =~= wd.players@);
        assert(out@ =~= old(out)@ + enc_world(wd.model()));
    }
}

/// Encode one envelope as a frame payload: its tag, then its fields.
pub fn encode_envelope(v: &Envelope) -> (r: Vec<u8>)
    requires
        v.fits(),
    ensures
        r@ == enc_envelope(v.model()),
{
    let mut out: Vec<u8> = Vec::new();
    match v {
        Envelope::Snapshot(w) => {
            proof {
                reveal_strlit("map");
            }
            emit_chars(&mut out, "map");
            emit_world(&mut out, w);
        },
        Envelope::PlayerMove { id, x, y } => {
            proof {
                reveal_strlit("player_move_diff");
            }
            emit_chars(&mut out, "player_move_diff");
            emit_u32(&mut out, *id as u32);
            emit_u32(&mut out, *x);
            emit_u32(&mut out, *y);
        },
        Envelope::PlayerPutBomb { id, x, y } => {
            proof {
                reveal_strlit("player_put_bomb_diff");
            }
            emit_chars(&mut out, "player_put_bomb_diff");
            emit_u32(&mut out, *id as u32);
            emit_u16(&mut out, *x);
            emit_u16(&mut out, *y);
        },
        Envelope::PlayerDie { id } => {
            proof {
                reveal_strlit("player_die");
            }
            emit_chars(&mut out, "player_die");
            emit_u64(&mut out, *id);
        },
        Envelope::BombExplode { x, y } => {
            proof {
                reveal_strlit("bomb_explode");
            }
            emit_chars(&mut out, "bomb_explode");
            emit_u64(&mut out, *x);
            emit_u64(&mut out, *y);
        },
        Envelope::CreateItem { x, y, item } => {
            proof {
                reveal_strlit("create_item");
            }
            emit_chars(&mut out, "create_item");
            emit_u64(&mut out, *x);
            emit_u64(&mut out, *y);
            emit_opt_item(&mut out, item);
        },
        Envelope::DestroyItem { x, y } => {
            proof {
                reveal_strlit("destroy_item");
            }
            emit_chars(&mut out, "destroy_item");
            emit_u64(&mut out, *x);
            emit_u64(&mut out, *y);
        },
        Envelope::UpdateSquare { x, y, square } => {
            proof {
                reveal_strlit("update_square");
            }
            emit_chars(&mut out, "update_square");
            emit_u64(&mut out, *x);
            emit_u64(&mut out, *y);
            emit_square_type(&mut out, *square);
        },
        Envelope::PlayerIdentity { id } => {
            proof {
                reveal_strlit("player_identity");
            }
            emit_chars(&mut out, "player_identity");
            emit_u64(&mut out, *id);
        },
        Envelope::Joined { room, success } => {
            proof {
                reveal_strlit("joined");
            }
            emit_chars(&mut out, "joined");
            emit_u64(&mut out, *room);
            emit_bool(&mut out, *success);
        },
        Envelope::Command(k) => match k {
            CommandKind::Create => {
                proof {
                    reveal_strlit("create");
                }
                emit_chars(&mut out, "create");
            },
            CommandKind::Leave => {
                proof {
                    reveal_strlit("leave");
                }
                emit_chars(&mut out, "leave");
            },
            CommandKind::Launch => {
                proof {
                    reveal_strlit("launch");
                }
                emit_chars(&mut out, "launch");
            },
            CommandKind::Bomb => {
                proof {
                    reveal_strlit("bomb");
                }
                emit_chars(&mut out, "bomb");
            },
        },
        Envelope::Join { room } => {
            proof {
                reveal_strlit("join");
            }
            emit_chars(&mut out, "join");
            emit_u64(&mut out, *room);
        },
        Envelope::Move(d) => {
            proof {
                reveal_strlit("move");
            }
            emit_chars(&mut out, "move");
            emit_direction(&mut out, *d);
        },
        Envelope::PlayerInfo { name } => {
            proof {
                reveal_strlit("player");
            }
            emit_chars(&mut out, "player");
            emit_chars(&mut out, name.as_str());
        },
    }
    proof {
        assert(out@ =~= enc_envelope(v.model()));
    }
    out
}

// ---------------------------------------------------------------------------
// Decoding
// ---------------------------------------------------------------------------

use crate::bytes::{read_bool, read_u16, read_u32, read_u64, read_u8};

pub fn read_direction(buf: &[u8], pos: &mut usize) -> (r: Option<Direction>)
    requires
        *old(pos) <= buf@.len(),
    ensures
        *final(pos) <= buf@.len(),
        match r {
            Some(d) => dec_direction(buf@.skip(*old(pos) as int)) == Some((d, buf@.skip(*final(pos) as int))),
            None => dec_direction(buf@.skip(*old(pos) as int)) is None,
        },
{
    match read_u8(buf, pos) {
        Some(t) => {
            if t == 0 {
                Some(Direction::North)
            } else if t == 1 {
                Some(Direction::South)
            } else if t == 2 {
                Some(Direction::West)
            } else if t == 3 {
                Some(Direction::East)
            } else {
                None
            }
        },
        None => None,
    }
}

pub fn read_square_type(buf: &[u8], pos: &mut usize) -> (r: Option<SquareType>)
    requires
        *old(pos) <= buf@.len(),
    ensures
        *final(pos) <= buf@.len(),
        match r {
            Some(t) => dec_square_type(buf@.skip(*old(pos) as int)) == Some((t, buf@.skip(*final(pos) as int))),
            None => dec_square_type(buf@.skip(*old(pos) as int)) is None,
        },
{
    match read_u8(buf, pos) {
        Some(t) => {
            if t == 0 {
                Some(SquareType::Water)
            } else if t == 1 {
                Some(SquareType::Empty)
            } else if t == 2 {
                Some(SquareType::Block)
            } else if t == 3 {
                match read_direction(buf, pos) {
                    Some(d) => Some(SquareType::Wall(d)),
                    None => None,
                }
            } else {
                None
            }
        },
        None => None,
    }
}

pub fn read_bonus(buf: &[u8], pos: &mut usize) -> (r: Option<Bonus>)
    requires
        *old(pos) <= buf@.len(),
    ensures
        *final(pos) <= buf@.len(),
        match r {
            Some(b) => dec_bonus(buf@.skip(*old(pos) as int)) == Some((b.model(), buf@.skip(*final(pos) as int))),
            None => dec_bonus(buf@.skip(*old(pos) as int)) is None,
        },
{
    match read_u8(buf, pos) {
        Some(t) => {
            if t == 0 {
                Some(Bonus::ImproveBombRadius)
            } else if t == 1 {
                Some(Bonus::PunchBombs)
            } else if t == 2 {
                Some(Bonus::ImproveSpeed)
            } else if t == 3 {
                Some(Bonus::RepelBombs)
            } else if t == 4 {
                Some(Bonus::MoreBombs)
            } else if t == 5 {
                match read_string(buf, pos) {
                    Some(s) => Some(Bonus::Custom(s)),
                    None => None,
                }
            } else {
                None
            }
        },
        None => None,
    }
}

pub fn read_malus(buf: &[u8], pos: &mut usize) -> (r: Option<Malus>)
    requires
        *old(pos) <= buf@.len(),
    ensures
        *final(pos) <= buf@.len(),
        match r {
            Some(m) => dec_malus(buf@.skip(*old(pos) as int)) == Some((m.model(), buf@.skip(*final(pos) as int))),
            None => dec_malus(buf@.skip(*old(pos) as int)) is None,
        },
{
    match read_u8(buf, pos) {
        Some(t) => {
            if t == 0 {
                Some(Malus::Slow)
            } else if t == 1 {
                Some(Malus::UltraFast)
            } else if t == 2 {
                Some(Malus::SpeedBomb)
            } else if t == 3 {
                Some(Malus::DropBombs)
            } else if t == 4 {
                Some(Malus::InvertedControls)
            } else if t == 5 {
                match read_string(buf, pos) {
                    Some(s) => Some(Malus::Custom(s)),
                    None => None,
                }
            } else {
                None
            }
        },
        None => None,
    }
}

pub fn read_opt_item(buf: &[u8], pos: &mut usize) -> (r: Option<Option<InteractiveItem>>)
    requires
        *old(pos) <= buf@.len(),
    ensures
        *final(pos) <= buf@.len(),
        match r {
            Some(oi) => dec_opt_item(buf@.skip(*old(pos) as int)) == Some((
                opt_item_model(oi),
                buf@.skip(*final(pos) as int),
            )),
            None => dec_opt_item(buf@.skip(*old(pos) as int)) is None,
        },
{
    match read_u8(buf, pos) {
        Some(t) => {
            if t == 0 {
                Some(None)
            } else if t == 1 {
                Some(Some(InteractiveItem::Bomb(BombItem)))
            } else if t == 2 {
                Some(Some(InteractiveItem::DestructibleBox(DestructibleBox)))
            } else if t == 3 {
                match read_bonus(buf, pos) {
                    Some(b) => Some(Some(InteractiveItem::Bonus(b))),
                    None => None,
                }
            } else if t == 4 {
                match read_malus(buf, pos) {
                    Some(m) => Some(Some(InteractiveItem::Malus(m))),
                    None => None,
                }
            } else {
                None
            }
        },
        None => None,
    }
}

pub fn read_player(buf: &[u8], pos: &mut usize) -> (r: Option<MapPlayer>)
    requires
        *old(pos) <= buf@.len(),
    ensures
        *final(pos) <= buf@.len(),
        match r {
            Some(p) => dec_player(buf@.skip(*old(pos) as int)) == Some((p, buf@.skip(*final(pos) as int))),
            None => dec_player(buf@.skip(*old(pos) as int)) is None,
        },
{
    let x = match read_u32(buf, pos) {
        Some(x) => x,
        None => {
            return None;
        },
    };
    let y = match read_u32(buf, pos) {
        Some(y) => y,
        None => {
            return None;
        },
    };
    let dead = match read_bool(buf, pos) {
        Some(d) => d,
        None => {
            return None;
        },
    };
    Some(MapPlayer { x, y, dead })
}

/// Read a whole world snapshot; the decoded world always satisfies the
/// grid invariant, its two per-cell arrays having exactly `w * h` slots.
#[verifier::loop_isolation(false)]
#[verifier::rlimit(100)]
#[verifier::spinoff_prover]
pub fn read_world(buf: &[u8], pos: &mut usize) -> (r: Option<World>)
    requires
        *old(pos) <= buf@.len(),
    ensures
        *final(pos) <= buf@.len(),
        match r {
            Some(wd) => {
                &&& dec_world(buf@.skip(*old(pos) as int)) == Some((wd.model(), buf@.skip(*final(pos) as int)))
                &&& wd.wf()
                &&& wd.w <= 65535
                &&& wd.h <= 65535
            },
            None => dec_world(buf@.skip(*old(pos) as int)) is None,
        },
{
    let w16 = match read_u16(buf, pos) {
        Some(w) => w,
        None => {
            return None;
        },
    };
    let h16 = match read_u16(buf, pos) {
        Some(h) => h,
        None => {
            return None;
        },
    };
    proof {
        assert(w16 as int * h16 as int <= 0xFFFE0001) by (nonlinear_arith)
            requires
                w16 <= 65535,
                h16 <= 65535,
        ;
    }
    let n: usize = (w16 as usize) * (h16 as usize);
    let ghost nn = w16 as int * h16 as int;

    let ghost rest2 = buf@.skip(*pos as int);
    let mut squares: Vec<Square> = Vec::new();
    let mut i: usize = 0;
    while i < n
        invariant
            i <= n,
            n == nn,
            *pos <= buf@.len(),
            squares@.len() == i,
            match dec_squares_n(nn - i, buf@.skip(*pos as int)) {
                Some(t) => dec_squares_n(nn, rest2) == Some((squares@ + t.0, t.1)),
                None => dec_squares_n(nn, rest2) is None,
            },
        decreases n - i,
    {
        let ghost p_here = *pos;
        let t = match read_square_type(buf, pos) {
            Some(t) => t,
            None => {
                proof {
                    assert(dec_squares_n(nn - i, buf@.skip(p_here as int)) is None);
                }
                return None;
            },
        };
        let ghost prev = squares@;
        squares.push(Square { sq_type: t });
        i += 1;
        proof {
            if dec_squares_n(nn - i, buf@.skip(*pos as int)) is Some {
                let tl = dec_squares_n(nn - i, buf@.skip(*pos as int))->Some_0;
                assert(prev + (seq![Square { sq_type: t }] + tl.0) =~= squares@ + tl.0);
            }
        }
    }
    proof {
        assert(dec_squares_n(0, buf@.skip(*pos as int)) == Some((Seq::<Square>::empty(), buf@.skip(*pos as int))));
        assert(squares@ + Seq::<Square>::empty() =~= squares@);
        assert(dec_squares_n(nn, rest2) == Some((squares@, buf@.skip(*pos as int))));
    }

    let ghost rest3 = buf@.skip(*pos as int);
    let mut items: Vec<Option<InteractiveItem>> = Vec::new();
    let mut j: usize = 0;
    while j < n
        invariant
            j <= n,
            n == nn,
            *pos <= buf@.len(),
            items@.len() == j,
            match dec_items_n(nn - j, buf@.skip(*pos as int)) {
                Some(t) => dec_items_n(nn, rest3) == Some((
                    items@.map_values(|oi: Option<InteractiveItem>| opt_item_model(oi)) + t.0,
                    t.1,
                )),
                None => dec_items_n(nn, rest3) is None,
            },
        decreases n - j,
    {
        let ghost p_here = *pos;
        let oi = match read_opt_item(buf, pos) {
            Some(oi) => oi,
            None => {
                proof {
                    assert(dec_items_n(nn - j, buf@.skip(p_here as int)) is None);
                }
                return None;
            },
        };
        let ghost prev = items@;
        items.push(oi);
        j += 1;
        proof {
            let f = |x: Option<InteractiveItem>| opt_item_model(x);
            assert(items@.map_values(f) =~= prev.map_values(f).push(opt_item_model(oi)));
            if dec_items_n(nn - j, buf@.skip(*pos as int)) is Some {
                let tl = dec_items_n(nn - j, buf@.skip(*pos as int))->Some_0;
                assert(prev.map_values(f) + (seq![opt_item_model(oi)] + tl.0) =~= items@.map_values(f) + tl.0);
            }
        }
    }
    proof {
        let f = |x: Option<InteractiveItem>| opt_item_model(x);
        assert(dec_items_n(0, buf@.skip(*pos as int)) == Some((Seq::<Option<ItemM>>::empty(), buf@.skip(*pos as int))));
        assert(items@.map_values(f) + Seq::<Option<ItemM>>::empty() =~= items@.map_values(f));
        assert(dec_items_n(nn, rest3) == Some((items@.map_values(f), buf@.skip(*pos as int))));
    }

    let np = match read_u16(buf, pos) {
        Some(np) => np,
        None => {
            return None;
        },
    };
    let ghost rest5 = buf@.skip(*pos as int);
    let mut players: Vec<MapPlayer> = Vec::new();
    let mut k: usize = 0;
    while k < np as usize
        invariant
            k <= np,
            *pos <= buf@.len(),
            players@.len() == k,
            match dec_players_n(np - k, buf@.skip(*pos as int)) {
                Some(t) => dec_players_n(np as int, rest5) == Some((players@ + t.0, t.1)),
                None => dec_players_n(np as int, rest5) is None,
            },
        decreases np - k,
    {
        let ghost p_here = *pos;
        let p = match read_player(buf, pos) {
            Some(p) => p,
            None => {
                proof {
                    assert(dec_players_n(np - k, buf@.skip(p_here as int)) is None);
                }
                return None;
            },
        };
        let ghost prev = players@;
        players.push(p);
        k += 1;
        proof {
            if dec_players_n(np - k, buf@.skip(*pos as int)) is Some {
                let tl = dec_players_n(np - k, buf@.skip(*pos as int))->Some_0;
                assert(prev + (seq![p] + tl.0) =~= players@ + tl.0);
            }
        }
    }
    proof {
        assert(dec_players_n(0, buf@.skip(*pos as int)) == Some((Seq::<MapPlayer>::empty(), buf@.skip(*pos as int))));
        assert(players@ + Seq::<MapPlayer>::empty() =~= players@);
        assert(dec_players_n(np as int, rest5) == Some((players@, buf@.skip(*pos as int))));
    }

    let wd = World { w: w16 as usize, h: h16 as usize, squares, players, items };
    proof {
        assert(wd.w * wd.h == nn) by (nonlinear_arith)
            requires
                wd.w == w16 as int,
                wd.h == h16 as int,
                nn == w16 as int * h16 as int,
        ;
        assert(wd.wf());
    }
    Some(wd)
}

/// Decode one frame payload into an envelope: the inverse of
/// [`encode_envelope`] on every well-formed wire image, reporting an
/// unknown discriminant or structural damage otherwise. A decoded world
/// snapshot always carries the grid invariant.
#[verifier::rlimit(100)]
#[verifier::spinoff_prover]
pub fn decode_envelope(buf: &[u8]) -> (r: Result<Envelope, DecodeError>)
    ensures
        match r {
            Ok(v) => dec_envelope(buf@) == Ok::<EnvelopeM, DecodeError>(v.model()),
            Err(e) => dec_envelope(buf@) == Err::<EnvelopeM, DecodeError>(e),
        },
        r matches Ok(Envelope::Snapshot(w)) ==> w.wf() && w.w <= 65535 && w.h <= 65535,
{
    let mut pos: usize = 0;
    proof {
        assert(buf@.skip(0) =~= buf@);
    }
    let tag = match read_chars(buf, &mut pos) {
        Some(t) => t,
        None => {
            return Err(DecodeError::Malformed);
        },
    };
    if chars_eq(&tag, "map") {
        let wd = match read_world(buf, &mut pos) {
            Some(w) => w,
            None => {
                return Err(DecodeError::Malformed);
            },
        };
        if pos == buf.len() {
            proof {
                assert(buf@.skip(pos as int) =~= Seq::<u8>::empty());
            }
            Ok(Envelope::Snapshot(wd))
        } else {
            proof {
                assert(buf@.skip(pos as int).len() > 0);
            }
            Err(DecodeError::Malformed)
        }
    } else if chars_eq(&tag, "player_move_diff") {
        let id = match read_u32(buf, &mut pos) {
            Some(u) => u as i32,
            None => {
                return Err(DecodeError::Malformed);
            },
        };
        let x = match read_u32(buf, &mut pos) {
            Some(x) => x,
            None => {
                return Err(DecodeError::Malformed);
            },
        };
        let y = match read_u32(buf, &mut pos) {
            Some(y) => y,
            None => {
                return Err(DecodeError::Malformed);
            },
        };
        if pos == buf.len() {
            proof {
                assert(buf@.skip(pos as int) =~= Seq::<u8>::empty());
            }
            Ok(Envelope::PlayerMove { id, x, y })
        } else {
            proof {
                assert(buf@.skip(pos as int).len() > 0);
            }
            Err(DecodeError::Malformed)
        }
    } else if chars_eq(&tag, "player_put_bomb_diff") {
        let id = match read_u32(buf, &mut pos) {
            Some(u) => u as i32,
            None => {
                return Err(DecodeError::Malformed);
            },
        };
        let x = match read_u16(buf, &mut pos) {
            Some(x) => x,
            None => {
                return Err(DecodeError::Malformed);
            },
        };
        let y = match read_u16(buf, &mut pos) {
            Some(y) => y,
            None => {
                return Err(DecodeError::Malformed);
            },
        };
        if pos == buf.len() {
            proof {
                assert(buf@.skip(pos as int) =~= Seq::<u8>::empty());
            }
            Ok(Envelope::PlayerPutBomb { id, x, y })
        } else {
            proof {
                assert(buf@.skip(pos as int).len() > 0);
            }
            Err(DecodeError::Malformed)
        }
    } else if chars_eq(&tag, "player_die") {
        let id = match read_u64(buf, &mut pos) {
            Some(id) => id,
            None => {
                return Err(DecodeError::Malformed);
            },
        };
        if pos == buf.len() {
            proof {
                assert(buf@.skip(pos as int) =~= Seq::<u8>::empty());
            }
            Ok(Envelope::PlayerDie { id })
        } else {
            proof {
                assert(buf@.skip(pos as int).len() > 0);
            }
            Err(DecodeError::Malformed)
        }
    } else if chars_eq(&tag, "bomb_explode") {
        let x = match read_u64(buf, &mut pos) {
            Some(x) => x,
            None => {
                return Err(DecodeError::Malformed);
            },
        };
        let y = match read_u64(buf, &mut pos) {
            Some(y) => y,
            None => {
                return Err(DecodeError::Malformed);
            },
        };
        if pos == buf.len() {
            proof {
                assert(buf@.skip(pos as int) =~= Seq::<u8>::empty());
            }
            Ok(Envelope::BombExplode { x, y })
        } else {
            proof {
                assert(buf@.skip(pos as int).len() > 0);
            }
            Err(DecodeError::Malformed)
        }
    } else if chars_eq(&tag, "destroy_item") {
        let x = match read_u64(buf, &mut pos) {
            Some(x) => x,
            None => {
                return Err(DecodeError::Malformed);
            },
        };
        let y = match read_u64(buf, &mut pos) {
            Some(y) => y,
            None => {
                return Err(DecodeError::Malformed);
            },
        };
        if pos == buf.len() {
            proof {
                assert(buf@.skip(pos as int) =~= Seq::<u8>::empty());
            }
            Ok(Envelope::DestroyItem { x, y })
        } else {
            proof {
                assert(buf@.skip(pos as int).len() > 0);
            }
            Err(DecodeError::Malformed)
        }
    } else if chars_eq(&tag, "create_item") {
        let x = match read_u64(buf, &mut pos) {
            Some(x) => x,
            None => {
                return Err(DecodeError::Malformed);
            },
        };
        let y = match read_u64(buf, &mut pos) {
            Some(y) => y,
            None => {
                return Err(DecodeError::Malformed);
            },
        };
        let item = match read_opt_item(buf, &mut pos) {
            Some(oi) => oi,
            None => {
                return Err(DecodeError::Malformed);
            },
        };
        if pos == buf.len() {
            proof {
                assert(buf@.skip(pos as int) =~= Seq::<u8>::empty());
            }
            Ok(Envelope::CreateItem { x, y, item })
        } else {
            proof {
                assert(buf@.skip(pos as int).len() > 0);
            }
            Err(DecodeError::Malformed)
        }
    } else if chars_eq(&tag, "player_identity") {
        let id = match read_u64(buf, &mut pos) {
            Some(id) => id,
            None => {
                return Err(DecodeError::Malformed);
            },
        };
        if pos == buf.len() {
            proof {
                assert(buf@.skip(pos as int) =~= Seq::<u8>::empty());
            }
            Ok(Envelope::PlayerIdentity { id })
        } else {
            proof {
                assert(buf@.skip(pos as int).len() > 0);
            }
            Err(DecodeError::Malformed)
        }
    } else if chars_eq(&tag, "update_square") {
        let x = match read_u64(buf, &mut pos) {
            Some(x) => x,
            None => {
                return Err(DecodeError::Malformed);
            },
        };
        let y = match read_u64(buf, &mut pos) {
            Some(y) => y,
            None => {
                return Err(DecodeError::Malformed);
            },
        };
        let square = match read_square_type(buf, &mut pos) {
            Some(t) => t,
            None => {
                return Err(DecodeError::Malformed);
            },
        };
        if pos == buf.len() {
            proof {
                assert(buf@.skip(pos as int) =~= Seq::<u8>::empty());
            }
            Ok(Envelope::UpdateSquare { x, y, square })
        } else {
            proof {
                assert(buf@.skip(pos as int).len() > 0);
            }
            Err(DecodeError::Malformed)
        }
    } else if chars_eq(&tag, "joined") {
        let room = match read_u64(buf, &mut pos) {
            Some(room) => room,
            None => {
                return Err(DecodeError::Malformed);
            },
        };
        let success = match read_bool(buf, &mut pos) {
            Some(s) => s,
            None => {
                return Err(DecodeError::Malformed);
            },
        };
        if pos == buf.len() {
            proof {
                assert(buf@.skip(pos as int) =~= Seq::<u8>::empty());
            }
            Ok(Envelope::Joined { room, success })
        } else {
            proof {
                assert(buf@.skip(pos as int).len() > 0);
            }
            Err(DecodeError::Malformed)
        }
    } else if chars_eq(&tag, "create") {
        if pos == buf.len() {
            proof {
                assert(buf@.skip(pos as int) =~= Seq::<u8>::empty());
            }
            Ok(Envelope::Command(CommandKind::Create))
        } else {
            proof {
                assert(buf@.skip(pos as int).len() > 0);
            }
            Err(DecodeError::Malformed)
        }
    } else if chars_eq(&tag, "leave") {
        if pos == buf.len() {
            proof {
                assert(buf@.skip(pos as int) =~= Seq::<u8>::empty());
            }
            Ok(Envelope::Command(CommandKind::Leave))
        } else {
            proof {
                assert(buf@.skip(pos as int).len() > 0);
            }
            Err(DecodeError::Malformed)
        }
    } else if chars_eq(&tag, "launch") {
        if pos == buf.len() {
            proof {
                assert(buf@.skip(pos as int) =~= Seq::<u8>::empty());
            }
            Ok(Envelope::Command(CommandKind::Launch))
        } else {
            proof {
                assert(buf@.skip(pos as int).len() > 0);
            }
            Err(DecodeError::Malformed)
        }
    } else if chars_eq(&tag, "bomb") {
        if pos == buf.len() {
            proof {
                assert(buf@.skip(pos as int) =~= Seq::<u8>::empty());
            }
            Ok(Envelope::Command(CommandKind::Bomb))
        } else {
            proof {
                assert(buf@.skip(pos as int).len() > 0);
            }
            Err(DecodeError::Malformed)
        }
    } else if chars_eq(&tag, "join") {
        let room = match read_u64(buf, &mut pos) {
            Some(room) => room,
            None => {
                return Err(DecodeError::Malformed);
            },
        };
        if pos == buf.len() {
            proof {
                assert(buf@.skip(pos as int) =~= Seq::<u8>::empty());
            }
            Ok(Envelope::Join { room })
        } else {
            proof {
                assert(buf@.skip(pos as int).len() > 0);
            }
            Err(DecodeError::Malformed)
        }
    } else if chars_eq(&tag, "move") {
        let d = match read_direction(buf, &mut pos) {
            Some(d) => d,
            None => {
                return Err(DecodeError::Malformed);
            },
        };
        if pos == buf.len() {
            proof {
                assert(buf@.skip(pos as int) =~= Seq::<u8>::empty());
            }
            Ok(Envelope::Move(d))
        } else {
            proof {
                assert(buf@.skip(pos as int).len() > 0);
            }
            Err(DecodeError::Malformed)
        }
    } else if chars_eq(&tag, "player") {
        let name = match read_string(buf, &mut pos) {
            Some(s) => s,
            None => {
                return Err(DecodeError::Malformed);
            },
        };
        if pos == buf.len() {
            proof {
                assert(buf@.skip(pos as int) =~= Seq::<u8>::empty());
            }
            Ok(Envelope::PlayerInfo { name })
        } else {
            proof {
                assert(buf@.skip(pos as int).len() > 0);
            }
            Err(DecodeError::Malformed)
        }
    } else {
        Err(DecodeError::UnknownTag)
    }
}

} // verus!
