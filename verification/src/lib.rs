//! Client core for a networked arena-destruction game: a stateful
//! byte-stream framer, a binary message codec with its dispatcher, the
//! mirrored world state, and a procedural map generator whose spawn cells
//! are provably playable.

use vstd::prelude::*;

mod bytes;
mod client;
mod codec;
mod envelope;
mod frame;
mod item;
mod keyhandler;
mod mapgen;
mod msg;
mod player;
mod render;
mod rng;
mod session;
mod square;
mod strings;
mod wire;
mod world;

pub use bytes::chars_fit;
pub use bytes::enc_bool;
pub use bytes::enc_chars;
pub use bytes::enc_u16;
pub use bytes::enc_u32;
pub use bytes::enc_u64;
pub use client::apply_env;
pub use client::apply_frames;
pub use client::lemma_dispatch_item_symmetry;
pub use client::lemma_dispatch_player_die_stable;
pub use client::wm_in_bounds;
pub use client::wm_kill_player;
pub use client::wm_set_item;
pub use client::wm_set_player_pos;
pub use client::wm_set_square;
pub use client::Client;
pub use client::ClientM;
pub use codec::bonus_fits;
pub use codec::dec_envelope;
pub use codec::enc_envelope;
pub use codec::envelope_fits;
pub use codec::items_fit;
pub use codec::lemma_round_trip;
pub use codec::malus_fits;
pub use codec::opt_item_fits;
pub use codec::spec_tag;
pub use codec::world_fits;
pub use codec::BonusM;
pub use codec::CommandKind;
pub use codec::DecodeError;
pub use codec::EnvelopeM;
pub use codec::ItemM;
pub use codec::MalusM;
pub use codec::WorldM;
pub use envelope::opt_item_model;
pub use envelope::Envelope;
pub use frame::encode_frame;
pub use frame::lemma_chunk_invariance;
pub use frame::lemma_feed_split;
pub use frame::spec_frame_views;
pub use frame::spec_frames;
pub use frame::spec_frames_chunked;
pub use frame::spec_is_partial;
pub use frame::spec_residue;
pub use frame::RtpBuf;
pub use frame::SCRATCH_CAPACITY;
pub use item::BombItem;
pub use item::Bonus;
pub use item::DestructibleBox;
pub use item::InteractiveItem;
pub use item::Item;
pub use item::Malus;
pub use item::Walkable;
pub use keyhandler::spec_clean;
pub use keyhandler::spec_framed;
pub use keyhandler::spec_parse_u64;
pub use keyhandler::spec_room_of;
pub use keyhandler::KeyHandler;
pub use keyhandler::Mailbox;
pub use mapgen::boxes_on_empty;
pub use mapgen::cell_open_for;
pub use mapgen::in_quadrant;
pub use mapgen::lattice_ok;
pub use mapgen::only_opened;
pub use mapgen::random_bonus;
pub use mapgen::random_direction;
pub use mapgen::random_malus;
pub use mapgen::random_square_type;
pub use mapgen::spawn_ok;
pub use mapgen::spawn_ok_parts;
pub use mapgen::spec_square_type_of_roll;
pub use mapgen::square_type_of_roll;
pub use mapgen::x_escape_witness;
pub use mapgen::y_escape_witness;
pub use msg::BombExplode;
pub use msg::CreateItem;
pub use msg::DestroyItem;
pub use msg::JoinMsg;
pub use msg::JoinedMsg;
pub use msg::MapMsg;
pub use msg::MoveMsg;
pub use msg::Msg;
pub use msg::PlayerDie;
pub use msg::PlayerIdentity;
pub use msg::PlayerMove;
pub use msg::PlayerMsg;
pub use msg::PlayerPutBomb;
pub use msg::SerializedEvent;
pub use msg::UpdateSquare;
pub use player::MapPlayer;
pub use player::SUBCELL;
pub use render::spec_cell_char;
pub use render::spec_world_text;
pub use rng::RandomSource;
pub use session::ClientConfig;
pub use session::ConnectionState;
pub use session::Location;
pub use session::ServerInfo;
pub use square::Direction;
pub use square::Square;
pub use square::SquareType;
pub use strings::chars_vec;
pub use strings::string_from_chars;
pub use wire::decode_envelope;
pub use wire::encode_envelope;
pub use world::lemma_cell_index_in_range;
pub use world::lemma_identity_stability;
pub use world::lemma_item_symmetry;
pub use world::spec_cell_index;
pub use world::World;

verus! {

} // verus!
