//! The executable envelope type and the models of the data it carries.

use vstd::prelude::*;

use crate::codec::{
    envelope_fits, BonusM, CommandKind, EnvelopeM, ItemM, MalusM, WorldM,
};
use crate::item::{Bonus, InteractiveItem, Malus};
use crate::square::{Direction, SquareType};
use crate::world::World;

verus! {

impl Bonus {
    /// The model of this bonus: its label as a character sequence.
    pub open spec fn model(self) -> BonusM {
        match self {
            Bonus::ImproveBombRadius => BonusM::ImproveBombRadius,
            Bonus::PunchBombs => BonusM::PunchBombs,
            Bonus::ImproveSpeed => BonusM::ImproveSpeed,
            Bonus::RepelBombs => BonusM::RepelBombs,
            Bonus::MoreBombs => BonusM::MoreBombs,
            Bonus::Custom(s) => BonusM::Custom(s@),
        }
    }
}

impl Malus {
    pub open spec fn model(self) -> MalusM {
        match self {
            Malus::Slow => MalusM::Slow,
            Malus::UltraFast => MalusM::UltraFast,
            Malus::SpeedBomb => MalusM::SpeedBomb,
            Malus::DropBombs => MalusM::DropBombs,
            Malus::InvertedControls => MalusM::InvertedControls,
            Malus::Custom(s) => MalusM::Custom(s@),
        }
    }
}

impl InteractiveItem {
    pub open spec fn model(self) -> ItemM {
        match self {
            InteractiveItem::Bomb(..) => ItemM::Bomb,
            InteractiveItem::Bonus(b) => ItemM::Bonus(b.model()),
            InteractiveItem::Malus(m) => ItemM::Malus(m.model()),
            InteractiveItem::DestructibleBox(..) => ItemM::DestructibleBox,
        }
    }
}

/// The model of an item slot.
pub open spec fn opt_item_model(oi: Option<InteractiveItem>) -> Option<ItemM> {
    match oi {
        Some(i) => Some(i.model()),
        None => None,
    }
}

impl World {
    /// The model of the world: its dimensions and the sequences behind its
    /// vectors.
    pub open spec fn model(self) -> WorldM {
        WorldM {
            w: self.w,
            h: self.h,
            squares: self.squares@,
            players: self.players@,
            items: self.items@.map_values(|oi: Option<InteractiveItem>| opt_item_model(oi)),
        }
    }
}

/// A decoded (or to-be-encoded) application message, one variant per entry
/// of the message catalogue. `Snapshot` replaces the whole mirrored world;
/// the diff variants each touch one cell or one player; the variants from
/// `Command` on are the messages a client sends.
#[derive(Clone, Debug, PartialEq)]
pub enum Envelope {
    Snapshot(World),
    PlayerMove { id: i32, x: u32, y: u32 },
    PlayerPutBomb { id: i32, x: u16, y: u16 },
    PlayerDie { id: u64 },
    BombExplode { x: u64, y: u64 },
    CreateItem { x: u64, y: u64, item: Option<InteractiveItem> },
    DestroyItem { x: u64, y: u64 },
    UpdateSquare { x: u64, y: u64, square: SquareType },
    PlayerIdentity { id: u64 },
    Joined { room: u64, success: bool },
    Command(CommandKind),
    Join { room: u64 },
    Move(Direction),
    PlayerInfo { name: String },
}

impl Envelope {
    pub open spec fn model(self) -> EnvelopeM {
        match self {
            Envelope::Snapshot(w) => EnvelopeM::Snapshot(w.model()),
            Envelope::PlayerMove { id, x, y } => EnvelopeM::PlayerMove { id, x, y },
            Envelope::PlayerPutBomb { id, x, y } => EnvelopeM::PlayerPutBomb { id, x, y },
            Envelope::PlayerDie { id } => EnvelopeM::PlayerDie { id },
            Envelope::BombExplode { x, y } => EnvelopeM::BombExplode { x, y },
            Envelope::CreateItem { x, y, item } => EnvelopeM::CreateItem {
                x,
                y,
                item: opt_item_model(item),
            },
            Envelope::DestroyItem { x, y } => EnvelopeM::DestroyItem { x, y },
            Envelope::UpdateSquare { x, y, square } => EnvelopeM::UpdateSquare { x, y, square },
            Envelope::PlayerIdentity { id } => EnvelopeM::PlayerIdentity { id },
            Envelope::Joined { room, success } => EnvelopeM::Joined { room, success },
            Envelope::Command(k) => EnvelopeM::Command(k),
            Envelope::Join { room } => EnvelopeM::Join { room },
            Envelope::Move(d) => EnvelopeM::Move(d),
            Envelope::PlayerInfo { name } => EnvelopeM::PlayerInfo { name: name@ },
        }
    }

    /// Whether this envelope's strings and grid fit the wire's 2-byte
    /// counts.
    pub open spec fn fits(self) -> bool {
        envelope_fits(self.model())
    }
}

} // verus!
