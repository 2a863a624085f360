//! The message envelope catalogue and its binary encoding, specified over
//! mathematical models of the message types.
//!
//! Every envelope starts with its string discriminant (the message type
//! tag), followed by the variant's fields. The specification works on
//! models: plain datatypes whose sequences stand for the vectors and
//! strings of the executable types, so that contracts and the round-trip
//! law are stated purely at the mathematical level.

use vstd::prelude::*;
use vstd::utf8::is_scalar;

use crate::bytes::{
    chars_fit, dec_bool, dec_chars, dec_u16, dec_u32, dec_u64, dec_u8, enc_bool, enc_chars,
    enc_u16, enc_u32, enc_u64, enc_u8, lemma_dec_enc_bool, lemma_dec_enc_chars,
    lemma_dec_enc_u16, lemma_dec_enc_u32, lemma_dec_enc_u64, lemma_dec_enc_u8,
};
use crate::player::MapPlayer;
use crate::square::{Direction, Square, SquareType};

verus! {

// ---------------------------------------------------------------------------
// Models
// ---------------------------------------------------------------------------

/// Model of a [`crate::item::Bonus`]: the custom variant carries the
/// characters of its label.
pub enum BonusM {
    ImproveBombRadius,
    PunchBombs,
    ImproveSpeed,
    RepelBombs,
    MoreBombs,
    Custom(Seq<char>),
}

/// Model of a [`crate::item::Malus`].
pub enum MalusM {
    Slow,
    UltraFast,
    SpeedBomb,
    DropBombs,
    InvertedControls,
    Custom(Seq<char>),
}

/// Model of an [`crate::item::InteractiveItem`].
pub enum ItemM {
    Bomb,
    Bonus(BonusM),
    Malus(MalusM),
    DestructibleBox,
}

/// Model of a [`crate::world::World`].
pub struct WorldM {
    pub w: usize,
    pub h: usize,
    pub squares: Seq<Square>,
    pub players: Seq<MapPlayer>,
    pub items: Seq<Option<ItemM>>,
}

/// The one-shot commands a client can send.
#[derive(Clone, Copy, Debug, PartialEq, Eq, Structural)]
pub enum CommandKind {
    Create,
    Leave,
    Launch,
    Bomb,
}

/// Model of an [`crate::envelope::Envelope`]: one constructor per message
/// of the catalogue.
pub enum EnvelopeM {
    Snapshot(WorldM),
    PlayerMove { id: i32, x: u32, y: u32 },
    PlayerPutBomb { id: i32, x: u16, y: u16 },
    PlayerDie { id: u64 },
    BombExplode { x: u64, y: u64 },
    CreateItem { x: u64, y: u64, item: Option<ItemM> },
    DestroyItem { x: u64, y: u64 },
    UpdateSquare { x: u64, y: u64, square: SquareType },
    PlayerIdentity { id: u64 },
    Joined { room: u64, success: bool },
    Command(CommandKind),
    Join { room: u64 },
    Move(Direction),
    PlayerInfo { name: Seq<char> },
}

/// Why a frame failed to decode: a discriminant outside the catalogue is
/// reported apart from structural damage, because the first is dropped
/// silently while the second is worth logging.
#[derive(Clone, Copy, Debug, PartialEq, Eq, Structural)]
pub enum DecodeError {
    UnknownTag,
    Malformed,
}

// ---------------------------------------------------------------------------
// Wire-representability: what the 2-byte counts of the encoding can carry
// ---------------------------------------------------------------------------

pub open spec fn bonus_fits(b: BonusM) -> bool {
    match b {
        BonusM::Custom(cs) => chars_fit(cs),
        _ => true,
    }
}

pub open spec fn malus_fits(m: MalusM) -> bool {
    match m {
        MalusM::Custom(cs) => chars_fit(cs),
        _ => true,
    }
}

pub open spec fn opt_item_fits(oi: Option<ItemM>) -> bool {
    match oi {
        Some(ItemM::Bonus(b)) => bonus_fits(b),
        Some(ItemM::Malus(m)) => malus_fits(m),
        _ => true,
    }
}

pub open spec fn items_fit(items: Seq<Option<ItemM>>) -> bool {
    forall|i: int| 0 <= i < items.len() ==> opt_item_fits(#[trigger] items[i])
}

pub open spec fn world_fits(m: WorldM) -> bool {
    &&& m.w <= 65535
    &&& m.h <= 65535
    &&& m.squares.len() == m.w * m.h
    &&& m.items.len() == m.w * m.h
    &&& m.players.len() <= 65535
    &&& items_fit(m.items)
}

pub open spec fn envelope_fits(m: EnvelopeM) -> bool {
    match m {
        EnvelopeM::Snapshot(w) => world_fits(w),
        EnvelopeM::CreateItem { item, .. } => opt_item_fits(item),
        EnvelopeM::PlayerInfo { name } => chars_fit(name),
        _ => true,
    }
}

// ---------------------------------------------------------------------------
// Encoding
// ---------------------------------------------------------------------------

pub open spec fn direction_byte(d: Direction) -> u8 {
    match d {
        Direction::North => 0,
        Direction::South => 1,
        Direction::West => 2,
        Direction::East => 3,
    }
}

pub open spec fn enc_square_type(t: SquareType) -> Seq<u8> {
    match t {
        SquareType::Water => seq![0u8],
        SquareType::Empty => seq![1u8],
        SquareType::Block => seq![2u8],
        SquareType::Wall(d) => seq![3u8, direction_byte(d)],
    }
}

pub open spec fn enc_squares(qs: Seq<Square>) -> Seq<u8>
    decreases qs.len(),
{
    if qs.len() == 0 {
        Seq::empty()
    } else {
        enc_square_type(qs[0].sq_type) + enc_squares(qs.drop_first())
    }
}

pub open spec fn enc_bonus(b: BonusM) -> Seq<u8> {
    match b {
        BonusM::ImproveBombRadius => seq![0u8],
        BonusM::PunchBombs => seq![1u8],
        BonusM::ImproveSpeed => seq![2u8],
        BonusM::RepelBombs => seq![3u8],
        BonusM::MoreBombs => seq![4u8],
        BonusM::Custom(cs) => seq![5u8] + enc_chars(cs),
    }
}

pub open spec fn enc_malus(m: MalusM) -> Seq<u8> {
    match m {
        MalusM::Slow => seq![0u8],
        MalusM::UltraFast => seq![1u8],
        MalusM::SpeedBomb => seq![2u8],
        MalusM::DropBombs => seq![3u8],
        MalusM::InvertedControls => seq![4u8],
        MalusM::Custom(cs) => seq![5u8] + enc_chars(cs),
    }
}

pub open spec fn enc_opt_item(oi: Option<ItemM>) -> Seq<u8> {
    match oi {
        None => seq![0u8],
        Some(ItemM::Bomb) => seq![1u8],
        Some(ItemM::DestructibleBox) => seq![2u8],
        Some(ItemM::Bonus(b)) => seq![3u8] + enc_bonus(b),
        Some(ItemM::Malus(m)) => seq![4u8] + enc_malus(m),
    }
}

pub open spec fn enc_items(items: Seq<Option<ItemM>>) -> Seq<u8>
    decreases items.len(),
{
    if items.len() == 0 {
        Seq::empty()
    } else {
        enc_opt_item(items[0]) + enc_items(items.drop_first())
    }
}

pub open spec fn enc_player(p: MapPlayer) -> Seq<u8> {
    enc_u32(p.x) + enc_u32(p.y) + enc_bool(p.dead)
}

pub open spec fn enc_players(ps: Seq<MapPlayer>) -> Seq<u8>
    decreases ps.len(),
{
    if ps.len() == 0 {
        Seq::empty()
    } else {
        enc_player(ps[0]) + enc_players(ps.drop_first())
    }
}

pub open spec fn enc_world(m: WorldM) -> Seq<u8> {
    enc_u16(m.w as u16) + enc_u16(m.h as u16) + enc_squares(m.squares) + enc_items(m.items)
        + enc_u16(m.players.len() as u16) + enc_players(m.players)
}

pub open spec fn enc_i32(x: i32) -> Seq<u8> {
    enc_u32(x as u32)
}

/// The string discriminant each envelope goes out under.
pub open spec fn spec_tag(m: EnvelopeM) -> Seq<char> {
    match m {
        EnvelopeM::Snapshot(..) => "map"@,
        EnvelopeM::PlayerMove { .. } => "player_move_diff"@,
        EnvelopeM::PlayerPutBomb { .. } => "player_put_bomb_diff"@,
        EnvelopeM::PlayerDie { .. } => "player_die"@,
        EnvelopeM::BombExplode { .. } => "bomb_explode"@,
        EnvelopeM::CreateItem { .. } => "create_item"@,
        EnvelopeM::DestroyItem { .. } => "destroy_item"@,
        EnvelopeM::UpdateSquare { .. } => "update_square"@,
        EnvelopeM::PlayerIdentity { .. } => "player_identity"@,
        EnvelopeM::Joined { .. } => "joined"@,
        EnvelopeM::Command(CommandKind::Create) => "create"@,
        EnvelopeM::Command(CommandKind::Leave) => "leave"@,
        EnvelopeM::Command(CommandKind::Launch) => "launch"@,
        EnvelopeM::Command(CommandKind::Bomb) => "bomb"@,
        EnvelopeM::Join { .. } => "join"@,
        EnvelopeM::Move(..) => "move"@,
        EnvelopeM::PlayerInfo { .. } => "player"@,
    }
}

/// The variant's fields, after the tag.
pub open spec fn enc_body(m: EnvelopeM) -> Seq<u8> {
    match m {
        EnvelopeM::Snapshot(w) => enc_world(w),
        EnvelopeM::PlayerMove { id, x, y } => enc_i32(id) + enc_u32(x) + enc_u32(y),
        EnvelopeM::PlayerPutBomb { id, x, y } => enc_i32(id) + enc_u16(x) + enc_u16(y),
        EnvelopeM::PlayerDie { id } => enc_u64(id),
        EnvelopeM::BombExplode { x, y } => enc_u64(x) + enc_u64(y),
        EnvelopeM::CreateItem { x, y, item } => enc_u64(x) + enc_u64(y) + enc_opt_item(item),
        EnvelopeM::DestroyItem { x, y } => enc_u64(x) + enc_u64(y),
        EnvelopeM::UpdateSquare { x, y, square } => enc_u64(x) + enc_u64(y) + enc_square_type(square),
        EnvelopeM::PlayerIdentity { id } => enc_u64(id),
        EnvelopeM::Joined { room, success } => enc_u64(room) + enc_bool(success),
        EnvelopeM::Command(..) => Seq::empty(),
        EnvelopeM::Join { room } => enc_u64(room),
        EnvelopeM::Move(d) => seq![direction_byte(d)],
        EnvelopeM::PlayerInfo { name } => enc_chars(name),
    }
}

/// The full payload of an envelope: its tag, then its fields.
pub open spec fn enc_envelope(m: EnvelopeM) -> Seq<u8> {
    enc_chars(spec_tag(m)) + enc_body(m)
}

// ---------------------------------------------------------------------------
// Decoding
// ---------------------------------------------------------------------------

pub open spec fn dec_direction(b: Seq<u8>) -> Option<(Direction, Seq<u8>)> {
    match dec_u8(b) {
        Some((t, r)) => if t == 0 {
            Some((Direction::North, r))
        } else if t == 1 {
            Some((Direction::South, r))
        } else if t == 2 {
            Some((Direction::West, r))
        } else if t == 3 {
            Some((Direction::East, r))
        } else {
            None
        },
        None => None,
    }
}

pub open spec fn dec_square_type(b: Seq<u8>) -> Option<(SquareType, Seq<u8>)> {
    match dec_u8(b) {
        Some((t, r)) => if t == 0 {
            Some((SquareType::Water, r))
        } else if t == 1 {
            Some((SquareType::Empty, r))
        } else if t == 2 {
            Some((SquareType::Block, r))
        } else if t == 3 {
            match dec_direction(r) {
                Some((d, r2)) => Some((SquareType::Wall(d), r2)),
                None => None,
            }
        } else {
            None
        },
        None => None,
    }
}

pub open spec fn dec_squares_n(n: int, b: Seq<u8>) -> Option<(Seq<Square>, Seq<u8>)>
    decreases n,
{
    if n <= 0 {
        Some((Seq::empty(), b))
    } else {
        match dec_square_type(b) {
            Some((t, r1)) => match dec_squares_n(n - 1, r1) {
                Some((qs, r2)) => Some((seq![Square { sq_type: t }] + qs, r2)),
                None => None,
            },
            None => None,
        }
    }
}

pub open spec fn dec_bonus(b: Seq<u8>) -> Option<(BonusM, Seq<u8>)> {
    match dec_u8(b) {
        Some((t, r)) => if t == 0 {
            Some((BonusM::ImproveBombRadius, r))
        } else if t == 1 {
            Some((BonusM::PunchBombs, r))
        } else if t == 2 {
            Some((BonusM::ImproveSpeed, r))
        } else if t == 3 {
            Some((BonusM::RepelBombs, r))
        } else if t == 4 {
            Some((BonusM::MoreBombs, r))
        } else if t == 5 {
            match dec_chars(r) {
                Some((cs, r2)) => Some((BonusM::Custom(cs), r2)),
                None => None,
            }
        } else {
            None
        },
        None => None,
    }
}

pub open spec fn dec_malus(b: Seq<u8>) -> Option<(MalusM, Seq<u8>)> {
    match dec_u8(b) {
        Some((t, r)) => if t == 0 {
            Some((MalusM::Slow, r))
        } else if t == 1 {
            Some((MalusM::UltraFast, r))
        } else if t == 2 {
            Some((MalusM::SpeedBomb, r))
        } else if t == 3 {
            Some((MalusM::DropBombs, r))
        } else if t == 4 {
            Some((MalusM::InvertedControls, r))
        } else if t == 5 {
            match dec_chars(r) {
                Some((cs, r2)) => Some((MalusM::Custom(cs), r2)),
                None => None,
            }
        } else {
            None
        },
        None => None,
    }
}

pub open spec fn dec_opt_item(b: Seq<u8>) -> Option<(Option<ItemM>, Seq<u8>)> {
    match dec_u8(b) {
        Some((t, r)) => if t == 0 {
            Some((None, r))
        } else if t == 1 {
            Some((Some(ItemM::Bomb), r))
        } else if t == 2 {
            Some((Some(ItemM::DestructibleBox), r))
        } else if t == 3 {
            match dec_bonus(r) {
                Some((bm, r2)) => Some((Some(ItemM::Bonus(bm)), r2)),
                None => None,
            }
        } else if t == 4 {
            match dec_malus(r) {
                Some((mm, r2)) => Some((Some(ItemM::Malus(mm)), r2)),
                None => None,
            }
        } else {
            None
        },
        None => None,
    }
}

pub open spec fn dec_items_n(n: int, b: Seq<u8>) -> Option<(Seq<Option<ItemM>>, Seq<u8>)>
    decreases n,
{
    if n <= 0 {
        Some((Seq::empty(), b))
    } else {
        match dec_opt_item(b) {
            Some((oi, r1)) => match dec_items_n(n - 1, r1) {
                Some((items, r2)) => Some((seq![oi] + items, r2)),
                None => None,
            },
            None => None,
        }
    }
}

pub open spec fn dec_player(b: Seq<u8>) -> Option<(MapPlayer, Seq<u8>)> {
    match dec_u32(b) {
        Some((x, r1)) => match dec_u32(r1) {
            Some((y, r2)) => match dec_bool(r2) {
                Some((dead, r3)) => Some((MapPlayer { x, y, dead }, r3)),
                None => None,
            },
            None => None,
        },
        None => None,
    }
}

pub open spec fn dec_players_n(n: int, b: Seq<u8>) -> Option<(Seq<MapPlayer>, Seq<u8>)>
    decreases n,
{
    if n <= 0 {
        Some((Seq::empty(), b))
    } else {
        match dec_player(b) {
            Some((p, r1)) => match dec_players_n(n - 1, r1) {
                Some((ps, r2)) => Some((seq![p] + ps, r2)),
                None => None,
            },
            None => None,
        }
    }
}

pub open spec fn dec_world(b: Seq<u8>) -> Option<(WorldM, Seq<u8>)> {
    match dec_u16(b) {
        Some((w, r1)) => match dec_u16(r1) {
            Some((h, r2)) => match dec_squares_n(w * h, r2) {
                Some((squares, r3)) => match dec_items_n(w * h, r3) {
                    Some((items, r4)) => match dec_u16(r4) {
                        Some((np, r5)) => match dec_players_n(np as int, r5) {
                            Some((players, r6)) => Some((
                                WorldM {
                                    w: w as usize,
                                    h: h as usize,
                                    squares,
                                    players,
                                    items,
                                },
                                r6,
                            )),
                            None => None,
                        },
                        None => None,
                    },
                    None => None,
                },
                None => None,
            },
            None => None,
        },
        None => None,
    }
}

pub open spec fn dec_i32(b: Seq<u8>) -> Option<(i32, Seq<u8>)> {
    match dec_u32(b) {
        Some((u, r)) => Some((u as i32, r)),
        None => None,
    }
}

/// Decode a whole frame payload into an envelope. The tag selects the
/// variant; the fields must parse and fill the payload exactly. A tag
/// outside the catalogue is `UnknownTag`; anything else that fails is
/// `Malformed`.
pub open spec fn dec_envelope(b: Seq<u8>) -> Result<EnvelopeM, DecodeError> {
    match dec_chars(b) {
        None => Err(DecodeError::Malformed),
        Some((tag, r)) => if tag == "map"@ {
            match dec_world(r) {
                Some((w, r2)) => if r2.len() == 0 {
                    Ok(EnvelopeM::Snapshot(w))
                } else {
                    Err(DecodeError::Malformed)
                },
                None => Err(DecodeError::Malformed),
            }
        } else if tag == "player_move_diff"@ {
            match dec_i32(r) {
                Some((id, r1)) => match dec_u32(r1) {
                    Some((x, r2)) => match dec_u32(r2) {
                        Some((y, r3)) => if r3.len() == 0 {
                            Ok(EnvelopeM::PlayerMove { id, x, y })
                        } else {
                            Err(DecodeError::Malformed)
                        },
                        None => Err(DecodeError::Malformed),
                    },
                    None => Err(DecodeError::Malformed),
                },
                None => Err(DecodeError::Malformed),
            }
        } else if tag == "player_put_bomb_diff"@ {
            match dec_i32(r) {
                Some((id, r1)) => match dec_u16(r1) {
                    Some((x, r2)) => match dec_u16(r2) {
                        Some((y, r3)) => if r3.len() == 0 {
                            Ok(EnvelopeM::PlayerPutBomb { id, x, y })
                        } else {
                            Err(DecodeError::Malformed)
                        },
                        None => Err(DecodeError::Malformed),
                    },
                    None => Err(DecodeError::Malformed),
                },
                None => Err(DecodeError::Malformed),
            }
        } else if tag == "player_die"@ {
            match dec_u64(r) {
                Some((id, r1)) => if r1.len() == 0 {
                    Ok(EnvelopeM::PlayerDie { id })
                } else {
                    Err(DecodeError::Malformed)
                },
                None => Err(DecodeError::Malformed),
            }
        } else if tag == "bomb_explode"@ {
            match dec_u64(r) {
                Some((x, r1)) => match dec_u64(r1) {
                    Some((y, r2)) => if r2.len() == 0 {
                        Ok(EnvelopeM::BombExplode { x, y })
                    } else {
                        Err(DecodeError::Malformed)
                    },
                    None => Err(DecodeError::Malformed),
                },
                None => Err(DecodeError::Malformed),
            }
        } else if tag == "destroy_item"@ {
            match dec_u64(r) {
                Some((x, r1)) => match dec_u64(r1) {
                    Some((y, r2)) => if r2.len() == 0 {
                        Ok(EnvelopeM::DestroyItem { x, y })
                    } else {
                        Err(DecodeError::Malformed)
                    },
                    None => Err(DecodeError::Malformed),
                },
                None => Err(DecodeError::Malformed),
            }
        } else if tag == "create_item"@ {
            match dec_u64(r) {
                Some((x, r1)) => match dec_u64(r1) {
                    Some((y, r2)) => match dec_opt_item(r2) {
                        Some((item, r3)) => if r3.len() == 0 {
                            Ok(EnvelopeM::CreateItem { x, y, item })
                        } else {
                            Err(DecodeError::Malformed)
                        },
                        None => Err(DecodeError::Malformed),
                    },
                    None => Err(DecodeError::Malformed),
                },
                None => Err(DecodeError::Malformed),
            }
        } else if tag == "player_identity"@ {
            match dec_u64(r) {
                Some((id, r1)) => if r1.len() == 0 {
                    Ok(EnvelopeM::PlayerIdentity { id })
                } else {
                    Err(DecodeError::Malformed)
                },
                None => Err(DecodeError::Malformed),
            }
        } else if tag == "update_square"@ {
            match dec_u64(r) {
                Some((x, r1)) => match dec_u64(r1) {
                    Some((y, r2)) => match dec_square_type(r2) {
                        Some((square, r3)) => if r3.len() == 0 {
                            Ok(EnvelopeM::UpdateSquare { x, y, square })
                        } else {
                            Err(DecodeError::Malformed)
                        },
                        None => Err(DecodeError::Malformed),
                    },
                    None => Err(DecodeError::Malformed),
                },
                None => Err(DecodeError::Malformed),
            }
        } else if tag == "joined"@ {
            match dec_u64(r) {
                Some((room, r1)) => match dec_bool(r1) {
                    Some((success, r2)) => if r2.len() == 0 {
                        Ok(EnvelopeM::Joined { room, success })
                    } else {
                        Err(DecodeError::Malformed)
                    },
                    None => Err(DecodeError::Malformed),
                },
                None => Err(DecodeError::Malformed),
            }
        } else if tag == "create"@ {
            if r.len() == 0 {
                Ok(EnvelopeM::Command(CommandKind::Create))
            } else {
                Err(DecodeError::Malformed)
            }
        } else if tag == "leave"@ {
            if r.len() == 0 {
                Ok(EnvelopeM::Command(CommandKind::Leave))
            } else {
                Err(DecodeError::Malformed)
            }
        } else if tag == "launch"@ {
            if r.len() == 0 {
                Ok(EnvelopeM::Command(CommandKind::Launch))
            } else {
                Err(DecodeError::Malformed)
            }
        } else if tag == "bomb"@ {
            if r.len() == 0 {
                Ok(EnvelopeM::Command(CommandKind::Bomb))
            } else {
                Err(DecodeError::Malformed)
            }
        } else if tag == "join"@ {
            match dec_u64(r) {
                Some((room, r1)) => if r1.len() == 0 {
                    Ok(EnvelopeM::Join { room })
                } else {
                    Err(DecodeError::Malformed)
                },
                None => Err(DecodeError::Malformed),
            }
        } else if tag == "move"@ {
            match dec_direction(r) {
                Some((d, r1)) => if r1.len() == 0 {
                    Ok(EnvelopeM::Move(d))
                } else {
                    Err(DecodeError::Malformed)
                },
                None => Err(DecodeError::Malformed),
            }
        } else if tag == "player"@ {
            match dec_chars(r) {
                Some((name, r1)) => if r1.len() == 0 {
                    Ok(EnvelopeM::PlayerInfo { name })
                } else {
                    Err(DecodeError::Malformed)
                },
                None => Err(DecodeError::Malformed),
            }
        } else {
            Err(DecodeError::UnknownTag)
        },
    }
}

// ---------------------------------------------------------------------------
// Round trips
// ---------------------------------------------------------------------------

/// `enc_squares` grows one square at a time at the back.
pub proof fn lemma_enc_squares_push(qs: Seq<Square>, q: Square)
    ensures
        enc_squares(qs.push(q)) == enc_squares(qs) + enc_square_type(q.sq_type),
    decreases qs.len(),
{
    let snoc = qs.push(q);
    assert(enc_squares(snoc) == enc_square_type(snoc[0].sq_type) + enc_squares(snoc.drop_first()));
    if qs.len() == 0 {
        assert(snoc.drop_first() =~= Seq::<Square>::empty());
        assert(enc_squares(snoc) =~= enc_squares(qs) + enc_square_type(q.sq_type));
    } else {
        assert(snoc[0] == qs[0]);
        assert(snoc.drop_first() =~= qs.drop_first().push(q));
        lemma_enc_squares_push(qs.drop_first(), q);
        assert(enc_squares(qs) == enc_square_type(qs[0].sq_type) + enc_squares(qs.drop_first()));
        assert(enc_squares(snoc) =~= enc_squares(qs) + enc_square_type(q.sq_type));
    }
}

/// `enc_items` grows one slot at a time at the back.
pub proof fn lemma_enc_items_push(items: Seq<Option<ItemM>>, oi: Option<ItemM>)
    ensures
        enc_items(items.push(oi)) == enc_items(items) + enc_opt_item(oi),
    decreases items.len(),
{
    let snoc = items.push(oi);
    assert(enc_items(snoc) == enc_opt_item(snoc[0]) + enc_items(snoc.drop_first()));
    if items.len() == 0 {
        assert(snoc.drop_first() =~= Seq::<Option<ItemM>>::empty());
        assert(enc_items(snoc) =~= enc_items(items) + enc_opt_item(oi));
    } else {
        assert(snoc[0] == items[0]);
        assert(snoc.drop_first() =~= items.drop_first().push(oi));
        lemma_enc_items_push(items.drop_first(), oi);
        assert(enc_items(items) == enc_opt_item(items[0]) + enc_items(items.drop_first()));
        assert(enc_items(snoc) =~= enc_items(items) + enc_opt_item(oi));
    }
}

/// `enc_players` grows one player at a time at the back.
pub proof fn lemma_enc_players_push(ps: Seq<MapPlayer>, p: MapPlayer)
    ensures
        enc_players(ps.push(p)) == enc_players(ps) + enc_player(p),
    decreases ps.len(),
{
    let snoc = ps.push(p);
    assert(enc_players(snoc) == enc_player(snoc[0]) + enc_players(snoc.drop_first()));
    if ps.len() == 0 {
        assert(snoc.drop_first() =~= Seq::<MapPlayer>::empty());
        assert(enc_players(snoc) =~= enc_players(ps) + enc_player(p));
    } else {
        assert(snoc[0] == ps[0]);
        assert(snoc.drop_first() =~= ps.drop_first().push(p));
        lemma_enc_players_push(ps.drop_first(), p);
        assert(enc_players(ps) == enc_player(ps[0]) + enc_players(ps.drop_first()));
        assert(enc_players(snoc) =~= enc_players(ps) + enc_player(p));
    }
}

pub proof fn lemma_dec_byte(t: u8, rest: Seq<u8>)
    ensures
        dec_u8(seq![t] + rest) == Some((t, rest)),
{
    lemma_dec_enc_u8(t, rest);
    assert(seq![t] + rest =~= enc_u8(t) + rest);
}

pub proof fn lemma_dec_enc_direction(d: Direction, rest: Seq<u8>)
    ensures
        dec_direction(seq![direction_byte(d)] + rest) == Some((d, rest)),
{
    lemma_dec_byte(direction_byte(d), rest);
}

pub proof fn lemma_dec_enc_square_type(t: SquareType, rest: Seq<u8>)
    ensures
        dec_square_type(enc_square_type(t) + rest) == Some((t, rest)),
{
    match t {
        SquareType::Water => lemma_dec_byte(0, rest),
        SquareType::Empty => lemma_dec_byte(1, rest),
        SquareType::Block => lemma_dec_byte(2, rest),
        SquareType::Wall(d) => {
            assert(enc_square_type(t) + rest =~= seq![3u8] + (seq![direction_byte(d)] + rest));
            lemma_dec_byte(3, seq![direction_byte(d)] + rest);
            lemma_dec_enc_direction(d, rest);
        },
    }
}

pub proof fn lemma_dec_enc_squares(qs: Seq<Square>, rest: Seq<u8>)
    ensures
        dec_squares_n(qs.len() as int, enc_squares(qs) + rest) == Some((qs, rest)),
    decreases qs.len(),
{
    if qs.len() == 0 {
        assert(enc_squares(qs) + rest =~= rest);
    } else {
        let tail = qs.drop_first();
        assert(enc_squares(qs) + rest =~= enc_square_type(qs[0].sq_type) + (enc_squares(tail) + rest));
        lemma_dec_enc_square_type(qs[0].sq_type, enc_squares(tail) + rest);
        lemma_dec_enc_squares(tail, rest);
        assert(seq![Square { sq_type: qs[0].sq_type }] + tail =~= qs);
    }
}

pub proof fn lemma_dec_enc_bonus(b: BonusM, rest: Seq<u8>)
    requires
        bonus_fits(b),
    ensures
        dec_bonus(enc_bonus(b) + rest) == Some((b, rest)),
{
    match b {
        BonusM::ImproveBombRadius => lemma_dec_byte(0, rest),
        BonusM::PunchBombs => lemma_dec_byte(1, rest),
        BonusM::ImproveSpeed => lemma_dec_byte(2, rest),
        BonusM::RepelBombs => lemma_dec_byte(3, rest),
        BonusM::MoreBombs => lemma_dec_byte(4, rest),
        BonusM::Custom(cs) => {
            assert(enc_bonus(b) + rest =~= seq![5u8] + (enc_chars(cs) + rest));
            lemma_dec_byte(5, enc_chars(cs) + rest);
            lemma_dec_enc_chars(cs, rest);
        },
    }
}

pub proof fn lemma_dec_enc_malus(m: MalusM, rest: Seq<u8>)
    requires
        malus_fits(m),
    ensures
        dec_malus(enc_malus(m) + rest) == Some((m, rest)),
{
    match m {
        MalusM::Slow => lemma_dec_byte(0, rest),
        MalusM::UltraFast => lemma_dec_byte(1, rest),
        MalusM::SpeedBomb => lemma_dec_byte(2, rest),
        MalusM::DropBombs => lemma_dec_byte(3, rest),
        MalusM::InvertedControls => lemma_dec_byte(4, rest),
        MalusM::Custom(cs) => {
            assert(enc_malus(m) + rest =~= seq![5u8] + (enc_chars(cs) + rest));
            lemma_dec_byte(5, enc_chars(cs) + rest);
            lemma_dec_enc_chars(cs, rest);
        },
    }
}

pub proof fn lemma_dec_enc_opt_item(oi: Option<ItemM>, rest: Seq<u8>)
    requires
        opt_item_fits(oi),
    ensures
        dec_opt_item(enc_opt_item(oi) + rest) == Some((oi, rest)),
{
    match oi {
        None => lemma_dec_byte(0, rest),
        Some(ItemM::Bomb) => lemma_dec_byte(1, rest),
        Some(ItemM::DestructibleBox) => lemma_dec_byte(2, rest),
        Some(ItemM::Bonus(b)) => {
            assert(enc_opt_item(oi) + rest =~= seq![3u8] + (enc_bonus(b) + rest));
            lemma_dec_byte(3, enc_bonus(b) + rest);
            lemma_dec_enc_bonus(b, rest);
        },
        Some(ItemM::Malus(m)) => {
            assert(enc_opt_item(oi) + rest =~= seq![4u8] + (enc_malus(m) + rest));
            lemma_dec_byte(4, enc_malus(m) + rest);
            lemma_dec_enc_malus(m, rest);
        },
    }
}

pub proof fn lemma_dec_enc_items(items: Seq<Option<ItemM>>, rest: Seq<u8>)
    requires
        items_fit(items),
    ensures
        dec_items_n(items.len() as int, enc_items(items) + rest) == Some((items, rest)),
    decreases items.len(),
{
    if items.len() == 0 {
        assert(enc_items(items) + rest =~= rest);
    } else {
        let tail = items.drop_first();
        assert(enc_items(items) + rest =~= enc_opt_item(items[0]) + (enc_items(tail) + rest));
        assert(opt_item_fits(items[0]));
        lemma_dec_enc_opt_item(items[0], enc_items(tail) + rest);
        assert(items_fit(tail)) by {
            assert(forall|i: int| 0 <= i < tail.len() ==> tail[i] == items[i + 1]);
        }
        lemma_dec_enc_items(tail, rest);
        assert(seq![items[0]] + tail =~= items);
    }
}

pub proof fn lemma_dec_enc_player(p: MapPlayer, rest: Seq<u8>)
    ensures
        dec_player(enc_player(p) + rest) == Some((p, rest)),
{
    assert(enc_player(p) + rest =~= enc_u32(p.x) + (enc_u32(p.y) + (enc_bool(p.dead) + rest)));
    lemma_dec_enc_u32(p.x, enc_u32(p.y) + (enc_bool(p.dead) + rest));
    lemma_dec_enc_u32(p.y, enc_bool(p.dead) + rest);
    lemma_dec_enc_bool(p.dead, rest);
}

pub proof fn lemma_dec_enc_players(ps: Seq<MapPlayer>, rest: Seq<u8>)
    ensures
        dec_players_n(ps.len() as int, enc_players(ps) + rest) == Some((ps, rest)),
    decreases ps.len(),
{
    if ps.len() == 0 {
        assert(enc_players(ps) + rest =~= rest);
    } else {
        let tail = ps.drop_first();
        assert(enc_players(ps) + rest =~= enc_player(ps[0]) + (enc_players(tail) + rest));
        lemma_dec_enc_player(ps[0], enc_players(tail) + rest);
        lemma_dec_enc_players(tail, rest);
        assert(seq![ps[0]] + tail =~= ps);
    }
}

pub proof fn lemma_dec_enc_world(m: WorldM, rest: Seq<u8>)
    requires
        world_fits(m),
    ensures
        dec_world(enc_world(m) + rest) == Some((m, rest)),
{
    let w16 = m.w as u16;
    let h16 = m.h as u16;
    let np = m.players.len() as u16;
    let r5 = enc_players(m.players) + rest;
    let r4 = enc_u16(np) + r5;
    let r3 = enc_items(m.items) + r4;
    let r2 = enc_squares(m.squares) + r3;
    let r1 = enc_u16(h16) + r2;
    assert(enc_world(m) + rest =~= enc_u16(w16) + r1);
    lemma_dec_enc_u16(w16, r1);
    lemma_dec_enc_u16(h16, r2);
    assert(w16 * h16 == m.w * m.h) by (nonlinear_arith)
        requires
            w16 == m.w,
            h16 == m.h,
    ;
    lemma_dec_enc_squares(m.squares, r3);
    lemma_dec_enc_items(m.items, r4);
    lemma_dec_enc_u16(np, r5);
    lemma_dec_enc_players(m.players, rest);
    assert(dec_world(enc_world(m) + rest) == Some((
        WorldM { w: w16 as usize, h: h16 as usize, squares: m.squares, players: m.players, items: m.items },
        rest,
    )));
}

pub proof fn lemma_dec_enc_i32(x: i32, rest: Seq<u8>)
    ensures
        dec_i32(enc_i32(x) + rest) == Some((x, rest)),
{
    lemma_dec_enc_u32(x as u32, rest);
    assert((x as u32) as i32 == x) by (bit_vector);
}

/// Round trip: decoding the encoding of any envelope of the catalogue
/// yields that envelope back, whenever its strings and grid fit the wire's
/// 2-byte counts.
#[verifier::rlimit(100)]
#[verifier::spinoff_prover]
proof fn lemma_rt_snapshot(m: EnvelopeM)
    requires
        m matches EnvelopeM::Snapshot(w),
        envelope_fits(m),
    ensures
        dec_envelope(enc_envelope(m)) == Ok::<EnvelopeM, DecodeError>(m),
{
    reveal_strlit("map");
    reveal_strlit("player_move_diff");
    reveal_strlit("player_put_bomb_diff");
    reveal_strlit("player_die");
    reveal_strlit("bomb_explode");
    reveal_strlit("destroy_item");
    reveal_strlit("create_item");
    reveal_strlit("player_identity");
    reveal_strlit("update_square");
    reveal_strlit("joined");
    reveal_strlit("create");
    reveal_strlit("leave");
    reveal_strlit("launch");
    reveal_strlit("bomb");
    reveal_strlit("join");
    reveal_strlit("move");
    reveal_strlit("player");
    let tag = spec_tag(m);
    let body = enc_body(m);
    assert(chars_fit(tag));
    lemma_dec_enc_chars(tag, body);
    assert(dec_chars(enc_envelope(m)) == Some((tag, body)));
    let e = Seq::<u8>::empty();
    match m {
        EnvelopeM::Snapshot(w) => {
            lemma_dec_enc_world(w, e);
            assert(enc_world(w) + e =~= enc_world(w));
        },
        _ => {},
    }
}

#[verifier::rlimit(100)]
#[verifier::spinoff_prover]
proof fn lemma_rt_player_move(m: EnvelopeM)
    requires
        m matches EnvelopeM::PlayerMove { id, x, y },
        envelope_fits(m),
    ensures
        dec_envelope(enc_envelope(m)) == Ok::<EnvelopeM, DecodeError>(m),
{
    reveal_strlit("map");
    reveal_strlit("player_move_diff");
    reveal_strlit("player_put_bomb_diff");
    reveal_strlit("player_die");
    reveal_strlit("bomb_explode");
    reveal_strlit("destroy_item");
    reveal_strlit("create_item");
    reveal_strlit("player_identity");
    reveal_strlit("update_square");
    reveal_strlit("joined");
    reveal_strlit("create");
    reveal_strlit("leave");
    reveal_strlit("launch");
    reveal_strlit("bomb");
    reveal_strlit("join");
    reveal_strlit("move");
    reveal_strlit("player");
    let tag = spec_tag(m);
    let body = enc_body(m);
    assert(chars_fit(tag));
    lemma_dec_enc_chars(tag, body);
    assert(dec_chars(enc_envelope(m)) == Some((tag, body)));
    let e = Seq::<u8>::empty();
    match m {
        EnvelopeM::PlayerMove { id, x, y } => {
            assert(body =~= enc_i32(id) + (enc_u32(x) + enc_u32(y)));
            lemma_dec_enc_i32(id, enc_u32(x) + enc_u32(y));
            lemma_dec_enc_u32(x, enc_u32(y));
            lemma_dec_enc_u32(y, e);
            assert(enc_u32(y) + e =~= enc_u32(y));
        },
        _ => {},
    }
}

#[verifier::rlimit(100)]
#[verifier::spinoff_prover]
proof fn lemma_rt_player_put_bomb(m: EnvelopeM)
    requires
        m matches EnvelopeM::PlayerPutBomb { id, x, y },
        envelope_fits(m),
    ensures
        dec_envelope(enc_envelope(m)) == Ok::<EnvelopeM, DecodeError>(m),
{
    reveal_strlit("map");
    reveal_strlit("player_move_diff");
    reveal_strlit("player_put_bomb_diff");
    reveal_strlit("player_die");
    reveal_strlit("bomb_explode");
    reveal_strlit("destroy_item");
    reveal_strlit("create_item");
    reveal_strlit("player_identity");
    reveal_strlit("update_square");
    reveal_strlit("joined");
    reveal_strlit("create");
    reveal_strlit("leave");
    reveal_strlit("launch");
    reveal_strlit("bomb");
    reveal_strlit("join");
    reveal_strlit("move");
    reveal_strlit("player");
    let tag = spec_tag(m);
    let body = enc_body(m);
    assert(chars_fit(tag));
    lemma_dec_enc_chars(tag, body);
    assert(dec_chars(enc_envelope(m)) == Some((tag, body)));
    let e = Seq::<u8>::empty();
    match m {
        EnvelopeM::PlayerPutBomb { id, x, y } => {
            assert(body =~= enc_i32(id) + (enc_u16(x) + enc_u16(y)));
            lemma_dec_enc_i32(id, enc_u16(x) + enc_u16(y));
            lemma_dec_enc_u16(x, enc_u16(y));
            lemma_dec_enc_u16(y, e);
            assert(enc_u16(y) + e =~= enc_u16(y));
        },
        _ => {},
    }
}

#[verifier::rlimit(100)]
#[verifier::spinoff_prover]
proof fn lemma_rt_player_die(m: EnvelopeM)
    requires
        m matches EnvelopeM::PlayerDie { id },
        envelope_fits(m),
    ensures
        dec_envelope(enc_envelope(m)) == Ok::<EnvelopeM, DecodeError>(m),
{
    reveal_strlit("map");
    reveal_strlit("player_move_diff");
    reveal_strlit("player_put_bomb_diff");
    reveal_strlit("player_die");
    reveal_strlit("bomb_explode");
    reveal_strlit("destroy_item");
    reveal_strlit("create_item");
    reveal_strlit("player_identity");
    reveal_strlit("update_square");
    reveal_strlit("joined");
    reveal_strlit("create");
    reveal_strlit("leave");
    reveal_strlit("launch");
    reveal_strlit("bomb");
    reveal_strlit("join");
    reveal_strlit("move");
    reveal_strlit("player");
    let tag = spec_tag(m);
    let body = enc_body(m);
    assert(chars_fit(tag));
    lemma_dec_enc_chars(tag, body);
    assert(dec_chars(enc_envelope(m)) == Some((tag, body)));
    let e = Seq::<u8>::empty();
    match m {
        EnvelopeM::PlayerDie { id } => {
            lemma_dec_enc_u64(id, e);
            assert(enc_u64(id) + e =~= enc_u64(id));
        },
        _ => {},
    }
}

#[verifier::rlimit(100)]
#[verifier::spinoff_prover]
proof fn lemma_rt_bomb_explode(m: EnvelopeM)
    requires
        m matches EnvelopeM::BombExplode { x, y },
        envelope_fits(m),
    ensures
        dec_envelope(enc_envelope(m)) == Ok::<EnvelopeM, DecodeError>(m),
{
    reveal_strlit("map");
    reveal_strlit("player_move_diff");
    reveal_strlit("player_put_bomb_diff");
    reveal_strlit("player_die");
    reveal_strlit("bomb_explode");
    reveal_strlit("destroy_item");
    reveal_strlit("create_item");
    reveal_strlit("player_identity");
    reveal_strlit("update_square");
    reveal_strlit("joined");
    reveal_strlit("create");
    reveal_strlit("leave");
    reveal_strlit("launch");
    reveal_strlit("bomb");
    reveal_strlit("join");
    reveal_strlit("move");
    reveal_strlit("player");
    let tag = spec_tag(m);
    let body = enc_body(m);
    assert(chars_fit(tag));
    lemma_dec_enc_chars(tag, body);
    assert(dec_chars(enc_envelope(m)) == Some((tag, body)));
    let e = Seq::<u8>::empty();
    match m {
        EnvelopeM::BombExplode { x, y } => {
            assert(body =~= enc_u64(x) + enc_u64(y));
            lemma_dec_enc_u64(x, enc_u64(y));
            lemma_dec_enc_u64(y, e);
            assert(enc_u64(y) + e =~= enc_u64(y));
        },
        _ => {},
    }
}

#[verifier::rlimit(100)]
#[verifier::spinoff_prover]
proof fn lemma_rt_create_item(m: EnvelopeM)
    requires
        m matches EnvelopeM::CreateItem { x, y, item },
        envelope_fits(m),
    ensures
        dec_envelope(enc_envelope(m)) == Ok::<EnvelopeM, DecodeError>(m),
{
    reveal_strlit("map");
    reveal_strlit("player_move_diff");
    reveal_strlit("player_put_bomb_diff");
    reveal_strlit("player_die");
    reveal_strlit("bomb_explode");
    reveal_strlit("destroy_item");
    reveal_strlit("create_item");
    reveal_strlit("player_identity");
    reveal_strlit("update_square");
    reveal_strlit("joined");
    reveal_strlit("create");
    reveal_strlit("leave");
    reveal_strlit("launch");
    reveal_strlit("bomb");
    reveal_strlit("join");
    reveal_strlit("move");
    reveal_strlit("player");
    let tag = spec_tag(m);
    let body = enc_body(m);
    assert(chars_fit(tag));
    lemma_dec_enc_chars(tag, body);
    assert(dec_chars(enc_envelope(m)) == Some((tag, body)));
    let e = Seq::<u8>::empty();
    match m {
        EnvelopeM::CreateItem { x, y, item } => {
            assert(body =~= enc_u64(x) + (enc_u64(y) + enc_opt_item(item)));
            lemma_dec_enc_u64(x, enc_u64(y) + enc_opt_item(item));
            lemma_dec_enc_u64(y, enc_opt_item(item));
            lemma_dec_enc_opt_item(item, e);
            assert(enc_opt_item(item) + e =~= enc_opt_item(item));
        },
        _ => {},
    }
}

#[verifier::rlimit(100)]
#[verifier::spinoff_prover]
proof fn lemma_rt_destroy_item(m: EnvelopeM)
    requires
        m matches EnvelopeM::DestroyItem { x, y },
        envelope_fits(m),
    ensures
        dec_envelope(enc_envelope(m)) == Ok::<EnvelopeM, DecodeError>(m),
{
    reveal_strlit("map");
    reveal_strlit("player_move_diff");
    reveal_strlit("player_put_bomb_diff");
    reveal_strlit("player_die");
    reveal_strlit("bomb_explode");
    reveal_strlit("destroy_item");
    reveal_strlit("create_item");
    reveal_strlit("player_identity");
    reveal_strlit("update_square");
    reveal_strlit("joined");
    reveal_strlit("create");
    reveal_strlit("leave");
    reveal_strlit("launch");
    reveal_strlit("bomb");
    reveal_strlit("join");
    reveal_strlit("move");
    reveal_strlit("player");
    let tag = spec_tag(m);
    let body = enc_body(m);
    assert(chars_fit(tag));
    lemma_dec_enc_chars(tag, body);
    assert(dec_chars(enc_envelope(m)) == Some((tag, body)));
    let e = Seq::<u8>::empty();
    match m {
        EnvelopeM::DestroyItem { x, y } => {
            assert(body =~= enc_u64(x) + enc_u64(y));
            lemma_dec_enc_u64(x, enc_u64(y));
            lemma_dec_enc_u64(y, e);
            assert(enc_u64(y) + e =~= enc_u64(y));
        },
        _ => {},
    }
}

#[verifier::rlimit(100)]
#[verifier::spinoff_prover]
proof fn lemma_rt_update_square(m: EnvelopeM)
    requires
        m matches EnvelopeM::UpdateSquare { x, y, square },
        envelope_fits(m),
    ensures
        dec_envelope(enc_envelope(m)) == Ok::<EnvelopeM, DecodeError>(m),
{
    reveal_strlit("map");
    reveal_strlit("player_move_diff");
    reveal_strlit("player_put_bomb_diff");
    reveal_strlit("player_die");
    reveal_strlit("bomb_explode");
    reveal_strlit("destroy_item");
    reveal_strlit("create_item");
    reveal_strlit("player_identity");
    reveal_strlit("update_square");
    reveal_strlit("joined");
    reveal_strlit("create");
    reveal_strlit("leave");
    reveal_strlit("launch");
    reveal_strlit("bomb");
    reveal_strlit("join");
    reveal_strlit("move");
    reveal_strlit("player");
    let tag = spec_tag(m);
    let body = enc_body(m);
    assert(chars_fit(tag));
    lemma_dec_enc_chars(tag, body);
    assert(dec_chars(enc_envelope(m)) == Some((tag, body)));
    let e = Seq::<u8>::empty();
    match m {
        EnvelopeM::UpdateSquare { x, y, square } => {
            assert(tag.len() == 13);
            assert(tag != "map"@ && tag != "player_move_diff"@ && tag != "player_put_bomb_diff"@);
            assert(tag != "player_die"@ && tag != "bomb_explode"@ && tag != "destroy_item"@);
            assert(tag != "create_item"@ && tag != "player_identity"@);
            assert(body =~= enc_u64(x) + (enc_u64(y) + enc_square_type(square)));
            lemma_dec_enc_u64(x, enc_u64(y) + enc_square_type(square));
            lemma_dec_enc_u64(y, enc_square_type(square));
            lemma_dec_enc_square_type(square, e);
            assert(enc_square_type(square) + e =~= enc_square_type(square));
        },
        _ => {},
    }
}

#[verifier::rlimit(100)]
#[verifier::spinoff_prover]
proof fn lemma_rt_player_identity(m: EnvelopeM)
    requires
        m matches EnvelopeM::PlayerIdentity { id },
        envelope_fits(m),
    ensures
        dec_envelope(enc_envelope(m)) == Ok::<EnvelopeM, DecodeError>(m),
{
    reveal_strlit("map");
    reveal_strlit("player_move_diff");
    reveal_strlit("player_put_bomb_diff");
    reveal_strlit("player_die");
    reveal_strlit("bomb_explode");
    reveal_strlit("destroy_item");
    reveal_strlit("create_item");
    reveal_strlit("player_identity");
    reveal_strlit("update_square");
    reveal_strlit("joined");
    reveal_strlit("create");
    reveal_strlit("leave");
    reveal_strlit("launch");
    reveal_strlit("bomb");
    reveal_strlit("join");
    reveal_strlit("move");
    reveal_strlit("player");
    let tag = spec_tag(m);
    let body = enc_body(m);
    assert(chars_fit(tag));
    lemma_dec_enc_chars(tag, body);
    assert(dec_chars(enc_envelope(m)) == Some((tag, body)));
    let e = Seq::<u8>::empty();
    match m {
        EnvelopeM::PlayerIdentity { id } => {
            lemma_dec_enc_u64(id, e);
            assert(enc_u64(id) + e =~= enc_u64(id));
        },
        _ => {},
    }
}

#[verifier::rlimit(100)]
#[verifier::spinoff_prover]
proof fn lemma_rt_joined(m: EnvelopeM)
    requires
        m matches EnvelopeM::Joined { room, success },
        envelope_fits(m),
    ensures
        dec_envelope(enc_envelope(m)) == Ok::<EnvelopeM, DecodeError>(m),
{
    reveal_strlit("map");
    reveal_strlit("player_move_diff");
    reveal_strlit("player_put_bomb_diff");
    reveal_strlit("player_die");
    reveal_strlit("bomb_explode");
    reveal_strlit("destroy_item");
    reveal_strlit("create_item");
    reveal_strlit("player_identity");
    reveal_strlit("update_square");
    reveal_strlit("joined");
    reveal_strlit("create");
    reveal_strlit("leave");
    reveal_strlit("launch");
    reveal_strlit("bomb");
    reveal_strlit("join");
    reveal_strlit("move");
    reveal_strlit("player");
    let tag = spec_tag(m);
    let body = enc_body(m);
    assert(chars_fit(tag));
    lemma_dec_enc_chars(tag, body);
    assert(dec_chars(enc_envelope(m)) == Some((tag, body)));
    let e = Seq::<u8>::empty();
    match m {
        EnvelopeM::Joined { room, success } => {
            assert(body =~= enc_u64(room) + enc_bool(success));
            lemma_dec_enc_u64(room, enc_bool(success));
            lemma_dec_enc_bool(success, e);
            assert(enc_bool(success) + e =~= enc_bool(success));
        },
        _ => {},
    }
}

#[verifier::rlimit(100)]
#[verifier::spinoff_prover]
proof fn lemma_rt_command(m: EnvelopeM)
    requires
        m matches EnvelopeM::Command(..),
        envelope_fits(m),
    ensures
        dec_envelope(enc_envelope(m)) == Ok::<EnvelopeM, DecodeError>(m),
{
    reveal_strlit("map");
    reveal_strlit("player_move_diff");
    reveal_strlit("player_put_bomb_diff");
    reveal_strlit("player_die");
    reveal_strlit("bomb_explode");
    reveal_strlit("destroy_item");
    reveal_strlit("create_item");
    reveal_strlit("player_identity");
    reveal_strlit("update_square");
    reveal_strlit("joined");
    reveal_strlit("create");
    reveal_strlit("leave");
    reveal_strlit("launch");
    reveal_strlit("bomb");
    reveal_strlit("join");
    reveal_strlit("move");
    reveal_strlit("player");
    let tag = spec_tag(m);
    let body = enc_body(m);
    assert(chars_fit(tag));
    lemma_dec_enc_chars(tag, body);
    assert(dec_chars(enc_envelope(m)) == Some((tag, body)));
    let e = Seq::<u8>::empty();
    match m {
        EnvelopeM::Command(..) => {
            assert(body.len() == 0);
        },
        _ => {},
    }
}

#[verifier::rlimit(100)]
#[verifier::spinoff_prover]
proof fn lemma_rt_join(m: EnvelopeM)
    requires
        m matches EnvelopeM::Join { room },
        envelope_fits(m),
    ensures
        dec_envelope(enc_envelope(m)) == Ok::<EnvelopeM, DecodeError>(m),
{
    reveal_strlit("map");
    reveal_strlit("player_move_diff");
    reveal_strlit("player_put_bomb_diff");
    reveal_strlit("player_die");
    reveal_strlit("bomb_explode");
    reveal_strlit("destroy_item");
    reveal_strlit("create_item");
    reveal_strlit("player_identity");
    reveal_strlit("update_square");
    reveal_strlit("joined");
    reveal_strlit("create");
    reveal_strlit("leave");
    reveal_strlit("launch");
    reveal_strlit("bomb");
    reveal_strlit("join");
    reveal_strlit("move");
    reveal_strlit("player");
    let tag = spec_tag(m);
    let body = enc_body(m);
    assert(chars_fit(tag));
    lemma_dec_enc_chars(tag, body);
    assert(dec_chars(enc_envelope(m)) == Some((tag, body)));
    let e = Seq::<u8>::empty();
    match m {
        EnvelopeM::Join { room } => {
            lemma_dec_enc_u64(room, e);
            assert(enc_u64(room) + e =~= enc_u64(room));
        },
        _ => {},
    }
}

#[verifier::rlimit(100)]
#[verifier::spinoff_prover]
proof fn lemma_rt_move(m: EnvelopeM)
    requires
        m matches EnvelopeM::Move(d),
        envelope_fits(m),
    ensures
        dec_envelope(enc_envelope(m)) == Ok::<EnvelopeM, DecodeError>(m),
{
    reveal_strlit("map");
    reveal_strlit("player_move_diff");
    reveal_strlit("player_put_bomb_diff");
    reveal_strlit("player_die");
    reveal_strlit("bomb_explode");
    reveal_strlit("destroy_item");
    reveal_strlit("create_item");
    reveal_strlit("player_identity");
    reveal_strlit("update_square");
    reveal_strlit("joined");
    reveal_strlit("create");
    reveal_strlit("leave");
    reveal_strlit("launch");
    reveal_strlit("bomb");
    reveal_strlit("join");
    reveal_strlit("move");
    reveal_strlit("player");
    let tag = spec_tag(m);
    let body = enc_body(m);
    assert(chars_fit(tag));
    lemma_dec_enc_chars(tag, body);
    assert(dec_chars(enc_envelope(m)) == Some((tag, body)));
    let e = Seq::<u8>::empty();
    match m {
        EnvelopeM::Move(d) => {
            lemma_dec_enc_direction(d, e);
            assert(seq![direction_byte(d)] + e =~= seq![direction_byte(d)]);
        },
        _ => {},
    }
}

#[verifier::rlimit(100)]
#[verifier::spinoff_prover]
proof fn lemma_rt_player_info(m: EnvelopeM)
    requires
        m matches EnvelopeM::PlayerInfo { name },
        envelope_fits(m),
    ensures
        dec_envelope(enc_envelope(m)) == Ok::<EnvelopeM, DecodeError>(m),
{
    reveal_strlit("map");
    reveal_strlit("player_move_diff");
    reveal_strlit("player_put_bomb_diff");
    reveal_strlit("player_die");
    reveal_strlit("bomb_explode");
    reveal_strlit("destroy_item");
    reveal_strlit("create_item");
    reveal_strlit("player_identity");
    reveal_strlit("update_square");
    reveal_strlit("joined");
    reveal_strlit("create");
    reveal_strlit("leave");
    reveal_strlit("launch");
    reveal_strlit("bomb");
    reveal_strlit("join");
    reveal_strlit("move");
    reveal_strlit("player");
    let tag = spec_tag(m);
    let body = enc_body(m);
    assert(chars_fit(tag));
    lemma_dec_enc_chars(tag, body);
    assert(dec_chars(enc_envelope(m)) == Some((tag, body)));
    let e = Seq::<u8>::empty();
    match m {
        EnvelopeM::PlayerInfo { name } => {
            lemma_dec_enc_chars(name, e);
            assert(enc_chars(name) + e =~= enc_chars(name));
        },
        _ => {},
    }
}

/// Round trip: decoding the encoding of any envelope of the catalogue
/// yields that envelope back, whenever its strings and grid fit the wire's
/// 2-byte counts.
pub proof fn lemma_round_trip(m: EnvelopeM)
    requires
        envelope_fits(m),
    ensures
        dec_envelope(enc_envelope(m)) == Ok::<EnvelopeM, DecodeError>(m),
{
    match m {
        EnvelopeM::Snapshot(..) => lemma_rt_snapshot(m),
        EnvelopeM::PlayerMove { .. } => lemma_rt_player_move(m),
        EnvelopeM::PlayerPutBomb { .. } => lemma_rt_player_put_bomb(m),
        EnvelopeM::PlayerDie { .. } => lemma_rt_player_die(m),
        EnvelopeM::BombExplode { .. } => lemma_rt_bomb_explode(m),
        EnvelopeM::CreateItem { .. } => lemma_rt_create_item(m),
        EnvelopeM::DestroyItem { .. } => lemma_rt_destroy_item(m),
        EnvelopeM::UpdateSquare { .. } => lemma_rt_update_square(m),
        EnvelopeM::PlayerIdentity { .. } => lemma_rt_player_identity(m),
        EnvelopeM::Joined { .. } => lemma_rt_joined(m),
        EnvelopeM::Command(..) => lemma_rt_command(m),
        EnvelopeM::Join { .. } => lemma_rt_join(m),
        EnvelopeM::Move(..) => lemma_rt_move(m),
        EnvelopeM::PlayerInfo { .. } => lemma_rt_player_info(m),
    }
}

} // verus!
