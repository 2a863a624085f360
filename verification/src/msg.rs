//! The typed messages a client sends or receives, each carrying its
//! string discriminant, and their wire serialization.

use vstd::prelude::*;

use crate::bytes::{chars_fit, enc_bool, enc_chars, enc_u16, enc_u32, enc_u64, emit_bool, emit_u16, emit_u32, emit_u64};
use crate::codec::{direction_byte, enc_opt_item, enc_world, opt_item_fits, world_fits};
use crate::envelope::opt_item_model;
use crate::item::InteractiveItem;
use crate::square::{Direction, SquareType};
use crate::strings::emit_chars;
use crate::wire::{emit_direction, emit_opt_item, emit_square_type, emit_world};
use crate::world::World;

verus! {

/// A message that can serialize itself as a frame payload: its
/// discriminant string first, then its fields, as the codec lays them
/// out.
pub trait SerializedEvent {
    /// The payload this message serializes to.
    spec fn spec_encoded(&self) -> Seq<u8>;

    /// Whether the message's strings and grid fit the wire's 2-byte
    /// counts.
    spec fn spec_serial_fits(&self) -> bool;

    fn to_vec(&self) -> (r: Vec<u8>)
        requires
            self.spec_serial_fits(),
        ensures
            r@ == self.spec_encoded(),
    ;
}

/// A generic message holding nothing but its discriminant; the one-shot
/// commands go out as these.
#[derive(Clone, Debug, PartialEq)]
pub struct Msg {
    pub msg_type: String,
}

impl Msg {
    pub fn new(msg_type: String) -> (r: Msg)
        ensures
            r.msg_type == msg_type,
    {
        Msg { msg_type }
    }
}

impl SerializedEvent for Msg {
    open spec fn spec_encoded(&self) -> Seq<u8> {
        enc_chars(self.msg_type@)
    }

    open spec fn spec_serial_fits(&self) -> bool {
        chars_fit(self.msg_type@)
    }

    fn to_vec(&self) -> (r: Vec<u8>) {
        let mut out: Vec<u8> = Vec::new();
        emit_chars(&mut out, self.msg_type.as_str());
        proof {
            assert(out@ =~= self.spec_encoded());
        }
        out
    }
}

/// The player's own details, sent once after connecting.
#[derive(Clone, Debug, PartialEq)]
pub struct PlayerMsg {
    pub msg_type: String,
    pub name: String,
}

impl PlayerMsg {
    pub fn new(name: String) -> (r: PlayerMsg)
        ensures
            r.msg_type@ == "player"@,
            r.name == name,
    {
        PlayerMsg { name, msg_type: "player".to_owned() }
    }
}

impl SerializedEvent for PlayerMsg {
    open spec fn spec_encoded(&self) -> Seq<u8> {
        enc_chars(self.msg_type@) + enc_chars(self.name@)
    }

    open spec fn spec_serial_fits(&self) -> bool {
        chars_fit(self.msg_type@) && chars_fit(self.name@)
    }

    fn to_vec(&self) -> (r: Vec<u8>) {
        let mut out: Vec<u8> = Vec::new();
        emit_chars(&mut out, self.msg_type.as_str());
        emit_chars(&mut out, self.name.as_str());
        proof {
            assert(out@ =~= self.spec_encoded());
        }
        out
    }
}

/// Ask to join a room.
#[derive(Clone, Debug, PartialEq)]
pub struct JoinMsg {
    pub msg_type: String,
    pub room: u64,
}

impl JoinMsg {
    pub fn new(room: u64) -> (r: JoinMsg)
        ensures
            r.msg_type@ == "join"@,
            r.room == room,
    {
        JoinMsg { room, msg_type: "join".to_owned() }
    }
}

impl SerializedEvent for JoinMsg {
    open spec fn spec_encoded(&self) -> Seq<u8> {
        enc_chars(self.msg_type@) + enc_u64(self.room)
    }

    open spec fn spec_serial_fits(&self) -> bool {
        chars_fit(self.msg_type@)
    }

    fn to_vec(&self) -> (r: Vec<u8>) {
        let mut out: Vec<u8> = Vec::new();
        emit_chars(&mut out, self.msg_type.as_str());
        emit_u64(&mut out, self.room);
        proof {
            assert(out@ =~= self.spec_encoded());
        }
        out
    }
}

/// Ask to move in a direction.
#[derive(Clone, Debug, PartialEq)]
pub struct MoveMsg {
    pub msg_type: String,
    pub direction: Direction,
}

impl MoveMsg {
    pub fn new(direction: Direction) -> (r: MoveMsg)
        ensures
            r.msg_type@ == "move"@,
            r.direction == direction,
    {
        MoveMsg { msg_type: "move".to_owned(), direction }
    }
}

impl SerializedEvent for MoveMsg {
    open spec fn spec_encoded(&self) -> Seq<u8> {
        enc_chars(self.msg_type@) + seq![direction_byte(self.direction)]
    }

    open spec fn spec_serial_fits(&self) -> bool {
        chars_fit(self.msg_type@)
    }

    fn to_vec(&self) -> (r: Vec<u8>) {
        let mut out: Vec<u8> = Vec::new();
        emit_chars(&mut out, self.msg_type.as_str());
        emit_direction(&mut out, self.direction);
        proof {
            assert(out@ =~= self.spec_encoded());
        }
        out
    }
}

/// A full world snapshot, replacing whatever the client mirrored so far.
#[derive(Clone, Debug, PartialEq)]
pub struct MapMsg {
    pub msg_type: String,
    pub map: World,
}

impl MapMsg {
    pub fn new(map: World) -> (r: MapMsg)
        ensures
            r.msg_type@ == "map"@,
            r.map == map,
    {
        MapMsg { msg_type: "map".to_owned(), map }
    }
}

impl SerializedEvent for MapMsg {
    open spec fn spec_encoded(&self) -> Seq<u8> {
        enc_chars(self.msg_type@) + enc_world(self.map.model())
    }

    open spec fn spec_serial_fits(&self) -> bool {
        chars_fit(self.msg_type@) && world_fits(self.map.model())
    }

    fn to_vec(&self) -> (r: Vec<u8>) {
        let mut out: Vec<u8> = Vec::new();
        emit_chars(&mut out, self.msg_type.as_str());
        emit_world(&mut out, &self.map);
        proof {
            assert(out@ =~= self.spec_encoded());
        }
        out
    }
}

/// Confirmation of joining a room (the lobby is room 0).
#[derive(Clone, Debug, PartialEq)]
pub struct JoinedMsg {
    pub msg_type: String,
    pub room: u64,
    pub success: bool,
}

impl JoinedMsg {
    pub fn new(room: u64, success: bool) -> (r: JoinedMsg)
        ensures
            r.msg_type@ == "joined"@,
            r.room == room,
            r.success == success,
    {
        JoinedMsg { room, success, msg_type: "joined".to_owned() }
    }
}

impl SerializedEvent for JoinedMsg {
    open spec fn spec_encoded(&self) -> Seq<u8> {
        enc_chars(self.msg_type@) + enc_u64(self.room) + enc_bool(self.success)
    }

    open spec fn spec_serial_fits(&self) -> bool {
        chars_fit(self.msg_type@)
    }

    fn to_vec(&self) -> (r: Vec<u8>) {
        let mut out: Vec<u8> = Vec::new();
        emit_chars(&mut out, self.msg_type.as_str());
        emit_u64(&mut out, self.room);
        emit_bool(&mut out, self.success);
        proof {
            assert(out@ =~= self.spec_encoded());
        }
        out
    }
}

/// Diff: a player stands at a new position, in 1/256-cell units.
#[derive(Clone, Debug, PartialEq)]
pub struct PlayerMove {
    pub msg_type: String,
    pub id: i32,
    pub x: u32,
    pub y: u32,
}

impl SerializedEvent for PlayerMove {
    open spec fn spec_encoded(&self) -> Seq<u8> {
        enc_chars(self.msg_type@) + enc_u32(self.id as u32) + enc_u32(self.x) + enc_u32(self.y)
    }

    open spec fn spec_serial_fits(&self) -> bool {
        chars_fit(self.msg_type@)
    }

    fn to_vec(&self) -> (r: Vec<u8>) {
        let mut out: Vec<u8> = Vec::new();
        emit_chars(&mut out, self.msg_type.as_str());
        emit_u32(&mut out, self.id as u32);
        emit_u32(&mut out, self.x);
        emit_u32(&mut out, self.y);
        proof {
            assert(out@ =~= self.spec_encoded());
        }
        out
    }
}

/// Diff: a bomb was put down on a cell.
#[derive(Clone, Debug, PartialEq)]
pub struct PlayerPutBomb {
    pub msg_type: String,
    pub id: i32,
    pub x: usize,
    pub y: usize,
}

impl SerializedEvent for PlayerPutBomb {
    open spec fn spec_encoded(&self) -> Seq<u8> {
        enc_chars(self.msg_type@) + enc_u32(self.id as u32) + enc_u16(self.x as u16) + enc_u16(
            self.y as u16,
        )
    }

    open spec fn spec_serial_fits(&self) -> bool {
        chars_fit(self.msg_type@) && self.x <= 65535 && self.y <= 65535
    }

    fn to_vec(&self) -> (r: Vec<u8>) {
        let mut out: Vec<u8> = Vec::new();
        emit_chars(&mut out, self.msg_type.as_str());
        emit_u32(&mut out, self.id as u32);
        emit_u16(&mut out, self.x as u16);
        emit_u16(&mut out, self.y as u16);
        proof {
            assert(out@ =~= self.spec_encoded());
        }
        out
    }
}

/// Diff: the cell a bomb exploded on; its item slot is to be cleared.
#[derive(Clone, Debug, PartialEq)]
pub struct BombExplode {
    pub msg_type: String,
    pub w: u64,
    pub h: u64,
}

impl SerializedEvent for BombExplode {
    open spec fn spec_encoded(&self) -> Seq<u8> {
        enc_chars(self.msg_type@) + enc_u64(self.w) + enc_u64(self.h)
    }

    open spec fn spec_serial_fits(&self) -> bool {
        chars_fit(self.msg_type@)
    }

    fn to_vec(&self) -> (r: Vec<u8>) {
        let mut out: Vec<u8> = Vec::new();
        emit_chars(&mut out, self.msg_type.as_str());
        emit_u64(&mut out, self.w);
        emit_u64(&mut out, self.h);
        proof {
            assert(out@ =~= self.spec_encoded());
        }
        out
    }
}

/// Diff: a player died; it keeps its place in the list.
#[derive(Clone, Debug, PartialEq)]
pub struct PlayerDie {
    pub msg_type: String,
    pub id: u64,
}

impl SerializedEvent for PlayerDie {
    open spec fn spec_encoded(&self) -> Seq<u8> {
        enc_chars(self.msg_type@) + enc_u64(self.id)
    }

    open spec fn spec_serial_fits(&self) -> bool {
        chars_fit(self.msg_type@)
    }

    fn to_vec(&self) -> (r: Vec<u8>) {
        let mut out: Vec<u8> = Vec::new();
        emit_chars(&mut out, self.msg_type.as_str());
        emit_u64(&mut out, self.id);
        proof {
            assert(out@ =~= self.spec_encoded());
        }
        out
    }
}

/// Diff: an item appears (or is cleared) on a cell.
#[derive(Clone, Debug, PartialEq)]
pub struct CreateItem {
    pub msg_type: String,
    pub item: Option<InteractiveItem>,
    pub w: u64,
    pub h: u64,
}

impl SerializedEvent for CreateItem {
    open spec fn spec_encoded(&self) -> Seq<u8> {
        enc_chars(self.msg_type@) + enc_u64(self.w) + enc_u64(self.h) + enc_opt_item(
            opt_item_model(self.item),
        )
    }

    open spec fn spec_serial_fits(&self) -> bool {
        chars_fit(self.msg_type@) && opt_item_fits(opt_item_model(self.item))
    }

    fn to_vec(&self) -> (r: Vec<u8>) {
        let mut out: Vec<u8> = Vec::new();
        emit_chars(&mut out, self.msg_type.as_str());
        emit_u64(&mut out, self.w);
        emit_u64(&mut out, self.h);
        emit_opt_item(&mut out, &self.item);
        proof {
            assert(out@ =~= self.spec_encoded());
        }
        out
    }
}

/// Diff: a cell's item slot is cleared.
#[derive(Clone, Debug, PartialEq)]
pub struct DestroyItem {
    pub msg_type: String,
    pub w: u64,
    pub h: u64,
}

impl SerializedEvent for DestroyItem {
    open spec fn spec_encoded(&self) -> Seq<u8> {
        enc_chars(self.msg_type@) + enc_u64(self.w) + enc_u64(self.h)
    }

    open spec fn spec_serial_fits(&self) -> bool {
        chars_fit(self.msg_type@)
    }

    fn to_vec(&self) -> (r: Vec<u8>) {
        let mut out: Vec<u8> = Vec::new();
        emit_chars(&mut out, self.msg_type.as_str());
        emit_u64(&mut out, self.w);
        emit_u64(&mut out, self.h);
        proof {
            assert(out@ =~= self.spec_encoded());
        }
        out
    }
}

/// Diff: a cell's terrain changes type.
#[derive(Clone, Debug, PartialEq)]
pub struct UpdateSquare {
    pub msg_type: String,
    pub x: u64,
    pub y: u64,
    pub square: SquareType,
}

impl SerializedEvent for UpdateSquare {
    open spec fn spec_encoded(&self) -> Seq<u8> {
        enc_chars(self.msg_type@) + enc_u64(self.x) + enc_u64(self.y) + crate::codec::enc_square_type(
            self.square,
        )
    }

    open spec fn spec_serial_fits(&self) -> bool {
        chars_fit(self.msg_type@)
    }

    fn to_vec(&self) -> (r: Vec<u8>) {
        let mut out: Vec<u8> = Vec::new();
        emit_chars(&mut out, self.msg_type.as_str());
        emit_u64(&mut out, self.x);
        emit_u64(&mut out, self.y);
        emit_square_type(&mut out, self.square);
        proof {
            assert(out@ =~= self.spec_encoded());
        }
        out
    }
}

/// The server tells this client which player id is its own.
#[derive(Clone, Debug, PartialEq)]
pub struct PlayerIdentity {
    pub msg_type: String,
    pub id: u64,
}

impl SerializedEvent for PlayerIdentity {
    open spec fn spec_encoded(&self) -> Seq<u8> {
        enc_chars(self.msg_type@) + enc_u64(self.id)
    }

    open spec fn spec_serial_fits(&self) -> bool {
        chars_fit(self.msg_type@)
    }

    fn to_vec(&self) -> (r: Vec<u8>) {
        let mut out: Vec<u8> = Vec::new();
        emit_chars(&mut out, self.msg_type.as_str());
        emit_u64(&mut out, self.id);
        proof {
            assert(out@ =~= self.spec_encoded());
        }
        out
    }
}

} // verus!
