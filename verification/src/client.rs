//! The client core: reassembles frames from the transport, decodes them,
//! and dispatches each decoded envelope to the mirrored world.

use vstd::prelude::*;

use crate::codec::{dec_envelope, DecodeError, EnvelopeM, ItemM, WorldM};
use crate::envelope::{opt_item_model, Envelope};
use crate::frame::{spec_frame_views, spec_frames, spec_residue, RtpBuf};
use crate::item::{BombItem, InteractiveItem};
use crate::player::MapPlayer;
use crate::square::{Square, SquareType};
use crate::wire::decode_envelope;
use crate::world::World;

verus! {

// ---------------------------------------------------------------------------
// The dispatch table, as functions on models
// ---------------------------------------------------------------------------

/// Model of the client's mirrored state.
pub struct ClientM {
    pub map: Option<WorldM>,
    pub linked_id: Option<u64>,
    pub current_room_id: Option<u64>,
}

pub open spec fn wm_in_bounds(wm: WorldM, x: int, y: int) -> bool {
    0 <= x < wm.w && 0 <= y < wm.h
}

/// An item diff at model level: overwrite the slot of an existing cell,
/// ignore a cell off the grid.
pub open spec fn wm_set_item(wm: WorldM, x: int, y: int, oi: Option<ItemM>) -> WorldM {
    if wm_in_bounds(wm, x, y) {
        WorldM { items: wm.items.update(x + y * wm.w, oi), ..wm }
    } else {
        wm
    }
}

/// A square diff at model level.
pub open spec fn wm_set_square(wm: WorldM, x: int, y: int, t: SquareType) -> WorldM {
    if wm_in_bounds(wm, x, y) {
        WorldM { squares: wm.squares.update(x + y * wm.w, Square { sq_type: t }), ..wm }
    } else {
        wm
    }
}

/// A movement diff at model level: an unknown id is ignored.
pub open spec fn wm_set_player_pos(wm: WorldM, id: int, x: u32, y: u32) -> WorldM {
    if 0 <= id < wm.players.len() {
        WorldM {
            players: wm.players.update(id, MapPlayer { x, y, dead: wm.players[id].dead }),
            ..wm
        }
    } else {
        wm
    }
}

/// A death diff at model level: the player keeps its slot and position.
pub open spec fn wm_kill_player(wm: WorldM, id: int) -> WorldM {
    if 0 <= id < wm.players.len() {
        WorldM {
            players: wm.players.update(id, MapPlayer { dead: true, ..wm.players[id] }),
            ..wm
        }
    } else {
        wm
    }
}

/// What one decoded frame does to the client's state: the dispatch table
/// of the protocol. A frame that failed to decode changes nothing, and
/// neither do the outbound-only messages nor any diff while no world
/// snapshot has arrived yet.
pub open spec fn apply_env(cm: ClientM, r: Result<EnvelopeM, DecodeError>) -> ClientM {
    match r {
        Err(_) => cm,
        Ok(m) => match m {
            EnvelopeM::Snapshot(wm) => ClientM { map: Some(wm), ..cm },
            EnvelopeM::PlayerMove { id, x, y } => match cm.map {
                Some(wm) => ClientM { map: Some(wm_set_player_pos(wm, id as int, x, y)), ..cm },
                None => cm,
            },
            EnvelopeM::PlayerPutBomb { id: _, x, y } => match cm.map {
                Some(wm) => ClientM { map: Some(wm_set_item(wm, x as int, y as int, Some(ItemM::Bomb))), ..cm },
                None => cm,
            },
            EnvelopeM::PlayerDie { id } => match cm.map {
                Some(wm) => ClientM { map: Some(wm_kill_player(wm, id as int)), ..cm },
                None => cm,
            },
            EnvelopeM::BombExplode { x, y } => match cm.map {
                Some(wm) => ClientM { map: Some(wm_set_item(wm, x as int, y as int, None)), ..cm },
                None => cm,
            },
            EnvelopeM::CreateItem { x, y, item } => match cm.map {
                Some(wm) => ClientM { map: Some(wm_set_item(wm, x as int, y as int, item)), ..cm },
                None => cm,
            },
            EnvelopeM::DestroyItem { x, y } => match cm.map {
                Some(wm) => ClientM { map: Some(wm_set_item(wm, x as int, y as int, None)), ..cm },
                None => cm,
            },
            EnvelopeM::UpdateSquare { x, y, square } => match cm.map {
                Some(wm) => ClientM { map: Some(wm_set_square(wm, x as int, y as int, square)), ..cm },
                None => cm,
            },
            EnvelopeM::PlayerIdentity { id } => ClientM { linked_id: Some(id), ..cm },
            EnvelopeM::Joined { room, success } => if success {
                ClientM { current_room_id: Some(room), ..cm }
            } else {
                cm
            },
            EnvelopeM::Command(..) => cm,
            EnvelopeM::Join { .. } => cm,
            EnvelopeM::Move(..) => cm,
            EnvelopeM::PlayerInfo { .. } => cm,
        },
    }
}

/// Folding the dispatch table over a list of frames, in arrival order.
pub open spec fn apply_frames(cm: ClientM, frames: Seq<Seq<u8>>) -> ClientM
    decreases frames.len(),
{
    if frames.len() == 0 {
        cm
    } else {
        apply_frames(apply_env(cm, dec_envelope(frames[0])), frames.drop_first())
    }
}


/// Mapping item slots to their models commutes with updating one slot.
pub proof fn lemma_items_model_update(s: Seq<Option<InteractiveItem>>, i: int, v: Option<InteractiveItem>)
    requires
        0 <= i < s.len(),
    ensures
        s.update(i, v).map_values(|oi: Option<InteractiveItem>| opt_item_model(oi))
            == s.map_values(|oi: Option<InteractiveItem>| opt_item_model(oi)).update(i, opt_item_model(v)),
{
    let f = |oi: Option<InteractiveItem>| opt_item_model(oi);
    assert forall|k: int| 0 <= k < s.len() implies s.update(i, v).map_values(f)[k] == s.map_values(f).update(
        i,
        opt_item_model(v),
    )[k] by {
        if k == i {
            assert(s.update(i, v)[k] == v);
        } else {
            assert(s.update(i, v)[k] == s[k]);
        }
    }
    assert(s.update(i, v).map_values(f) =~= s.map_values(f).update(i, opt_item_model(v)));
}


/// Identity stability at the dispatch level: applying `PlayerDie` for any
/// id never changes the length of the mirrored player list and never
/// touches any other player, so the indices that serve as identities
/// cannot shift.
pub proof fn lemma_dispatch_player_die_stable(cm: ClientM, id: u64)
    ensures
        ({
            let after = apply_env(cm, Ok(EnvelopeM::PlayerDie { id }));
            &&& after.linked_id == cm.linked_id
            &&& after.current_room_id == cm.current_room_id
            &&& match cm.map {
                Some(wm) => {
                    let wm2 = after.map->Some_0;
                    &&& after.map is Some
                    &&& wm2.players.len() == wm.players.len()
                    &&& forall|j: int|
                        0 <= j < wm.players.len() && j != id ==> wm2.players[j] == wm.players[j]
                    &&& wm2.squares == wm.squares
                    &&& wm2.items == wm.items
                },
                None => after == cm,
            }
        }),
{
}

/// Item symmetry at the dispatch level: applying `CreateItem` on a cell
/// and then `DestroyItem` on that cell leaves the cell's item slot empty,
/// whatever the item was.
pub proof fn lemma_dispatch_item_symmetry(cm: ClientM, x: u64, y: u64, item: Option<ItemM>)
    requires
        cm.map matches Some(wm) && wm_in_bounds(wm, x as int, y as int) && wm.items.len()
            == wm.w * wm.h,
    ensures
        ({
            let created = apply_env(cm, Ok(EnvelopeM::CreateItem { x, y, item }));
            let after = apply_env(created, Ok(EnvelopeM::DestroyItem { x, y }));
            let wm = cm.map->Some_0;
            let wm2 = after.map->Some_0;
            &&& after.map is Some
            &&& wm2.items =~= wm.items.update(x + y * wm.w, None)
            &&& wm2.items[x + y * wm.w] is None
            &&& wm2.squares == wm.squares
            &&& wm2.players == wm.players
        }),
{
    let wm = cm.map->Some_0;
    crate::world::lemma_cell_index_in_range(wm.w as int, wm.h as int, x as int, y as int);
    let created = apply_env(cm, Ok(EnvelopeM::CreateItem { x, y, item }));
    let cwm = created.map->Some_0;
    assert(cwm.items == wm.items.update(x as int + (y as int) * (wm.w as int), item));
    assert(wm_in_bounds(cwm, x as int, y as int));
    let after = apply_env(created, Ok(EnvelopeM::DestroyItem { x, y }));
    assert(after.map->Some_0.items =~= wm.items.update(x as int + (y as int) * (wm.w as int), None));
}

// ---------------------------------------------------------------------------
// The client
// ---------------------------------------------------------------------------

/// The client's connection-local state: the frame reassembly buffer, the
/// mirrored world once a snapshot has arrived, this client's own player id
/// and the room it joined.
pub struct Client {
    pub rtp_buf: RtpBuf,
    pub map: Option<World>,
    pub linked_id: Option<u64>,
    pub current_room_id: Option<u64>,
}

impl Client {
    pub open spec fn wf(self) -> bool {
        &&& self.rtp_buf.wf()
        &&& (self.map matches Some(w) ==> w.wf() && w.w <= 65535 && w.h <= 65535)
    }

    /// The model of the mirrored state (the reassembly buffer is specified
    /// apart, by [`RtpBuf::pending`]).
    pub open spec fn model(self) -> ClientM {
        ClientM {
            map: match self.map {
                Some(w) => Some(w.model()),
                None => None,
            },
            linked_id: self.linked_id,
            current_room_id: self.current_room_id,
        }
    }

    pub fn new() -> (r: Client)
        ensures
            r.wf(),
            r.rtp_buf.pending() == Seq::<u8>::empty(),
            r.model() == (ClientM { map: None, linked_id: None, current_room_id: None }),
    {
        Client { rtp_buf: RtpBuf::new(), map: None, linked_id: None, current_room_id: None }
    }

    /// Set player `id`'s position, as the `player_move_diff` message asks.
    pub fn move_player(&mut self, id: i32, x: u32, y: u32)
        requires
            old(self).wf(),
        ensures
            final(self).wf(),
            final(self).rtp_buf == old(self).rtp_buf,
            final(self).model() == apply_env(
                old(self).model(),
                Ok(EnvelopeM::PlayerMove { id, x, y }),
            ),
    {
        let mut m = self.map.take();
        match &mut m {
            Some(w) => {
                if id >= 0 {
                    w.set_player_position(id as usize, x, y);
                }
            },
            None => {},
        }
        self.map = m;
        proof {
            assert(self.model() == apply_env(old(self).model(), Ok(EnvelopeM::PlayerMove { id, x, y })));
        }
    }

    /// Place a bomb item on a cell, as `player_put_bomb_diff` asks.
    pub fn player_put_bomb(&mut self, id: i32, x: u16, y: u16)
        requires
            old(self).wf(),
        ensures
            final(self).wf(),
            final(self).rtp_buf == old(self).rtp_buf,
            final(self).model() == apply_env(
                old(self).model(),
                Ok(EnvelopeM::PlayerPutBomb { id, x, y }),
            ),
    {
        let mut m = self.map.take();
        match &mut m {
            Some(w) => {
                if (x as usize) < w.w && (y as usize) < w.h {
                    w.set_item(x as usize, y as usize, Some(InteractiveItem::Bomb(BombItem)));
                }
            },
            None => {},
        }
        self.map = m;
        proof {
            if old(self).map is Some {
                let wm = old(self).map->Some_0.model();
                if wm_in_bounds(wm, x as int, y as int) {
                    crate::world::lemma_cell_index_in_range(wm.w as int, wm.h as int, x as int, y as int);
                    lemma_items_model_update(
                        old(self).map->Some_0.items@,
                        x as int + (y as int) * (wm.w as int),
                        Some(InteractiveItem::Bomb(BombItem)),
                    );
                }
                let w2 = self.map->Some_0;
                assert(w2.model().items =~= wm_set_item(wm, x as int, y as int, Some(ItemM::Bomb)).items);
            }
            assert(self.model() == apply_env(old(self).model(), Ok(EnvelopeM::PlayerPutBomb { id, x, y })));
        }
    }

    /// Clear the item of the cell a bomb exploded on, as `bomb_explode`
    /// asks; the blast propagation itself was decided by the server.
    pub fn bomb_explode(&mut self, x: u64, y: u64)
        requires
            old(self).wf(),
        ensures
            final(self).wf(),
            final(self).rtp_buf == old(self).rtp_buf,
            final(self).model() == apply_env(old(self).model(), Ok(EnvelopeM::BombExplode { x, y })),
    {
        self.clear_item(x, y);
        proof {
            assert(self.model() == apply_env(old(self).model(), Ok(EnvelopeM::BombExplode { x, y })));
        }
    }

    /// Put an item (or none) on a cell, as `create_item` asks.
    pub fn create_item(&mut self, x: u64, y: u64, item: Option<InteractiveItem>)
        requires
            old(self).wf(),
        ensures
            final(self).wf(),
            final(self).rtp_buf == old(self).rtp_buf,
            final(self).model() == apply_env(
                old(self).model(),
                Ok(EnvelopeM::CreateItem { x, y, item: opt_item_model(item) }),
            ),
    {
        let mut m = self.map.take();
        match &mut m {
            Some(w) => {
                if x < (w.w as u64) && y < (w.h as u64) {
                    w.set_item(x as usize, y as usize, item);
                }
            },
            None => {},
        }
        self.map = m;
        proof {
            if old(self).map is Some {
                let wm = old(self).map->Some_0.model();
                if wm_in_bounds(wm, x as int, y as int) {
                    crate::world::lemma_cell_index_in_range(wm.w as int, wm.h as int, x as int, y as int);
                    lemma_items_model_update(
                        old(self).map->Some_0.items@,
                        x as int + (y as int) * (wm.w as int),
                        item,
                    );
                }
                let w2 = self.map->Some_0;
                assert(w2.model().items =~= wm_set_item(wm, x as int, y as int, opt_item_model(item)).items);
            }
            assert(self.model() == apply_env(
                old(self).model(),
                Ok(EnvelopeM::CreateItem { x, y, item: opt_item_model(item) }),
            ));
        }
    }

    /// Clear a cell's item, as `destroy_item` asks.
    pub fn destroy_item(&mut self, x: u64, y: u64)
        requires
            old(self).wf(),
        ensures
            final(self).wf(),
            final(self).rtp_buf == old(self).rtp_buf,
            final(self).model() == apply_env(old(self).model(), Ok(EnvelopeM::DestroyItem { x, y })),
    {
        self.clear_item(x, y);
        proof {
            assert(self.model() == apply_env(old(self).model(), Ok(EnvelopeM::DestroyItem { x, y })));
        }
    }

    /// Mark a player dead, as `player_die` asks; the list never shrinks,
    /// so every other player keeps its id.
    pub fn player_die(&mut self, id: u64)
        requires
            old(self).wf(),
        ensures
            final(self).wf(),
            final(self).rtp_buf == old(self).rtp_buf,
            final(self).model() == apply_env(old(self).model(), Ok(EnvelopeM::PlayerDie { id })),
    {
        let mut m = self.map.take();
        match &mut m {
            Some(w) => {
                if id < (w.players.len() as u64) {
                    w.kill_player(id as usize);
                }
            },
            None => {},
        }
        self.map = m;
        proof {
            assert(self.model() == apply_env(old(self).model(), Ok(EnvelopeM::PlayerDie { id })));
        }
    }

    /// Overwrite a cell's terrain, as `update_square` asks.
    pub fn update_square(&mut self, x: u64, y: u64, square: SquareType)
        requires
            old(self).wf(),
        ensures
            final(self).wf(),
            final(self).rtp_buf == old(self).rtp_buf,
            final(self).model() == apply_env(
                old(self).model(),
                Ok(EnvelopeM::UpdateSquare { x, y, square }),
            ),
    {
        let mut m = self.map.take();
        match &mut m {
            Some(w) => {
                if x < (w.w as u64) && y < (w.h as u64) {
                    w.set_square(x as usize, y as usize, square);
                }
            },
            None => {},
        }
        self.map = m;
        proof {
            if old(self).map is Some {
                let wm = old(self).map->Some_0.model();
                let w2 = self.map->Some_0;
                assert(w2.model().squares =~= wm_set_square(wm, x as int, y as int, square).squares);
            }
            assert(self.model() == apply_env(old(self).model(), Ok(EnvelopeM::UpdateSquare { x, y, square })));
        }
    }


    /// Decode one frame payload and dispatch it. A payload that does not
    /// decode, an unknown discriminant, an out-of-range cell or player id,
    /// or a diff before any snapshot arrived all leave the state unchanged:
    /// a damaged frame is dropped, never a crash, and the next frame is
    /// unaffected.
    pub fn parse_rtp(&mut self, pkt: &[u8])
        requires
            old(self).wf(),
        ensures
            final(self).wf(),
            final(self).rtp_buf == old(self).rtp_buf,
            final(self).model() == apply_env(old(self).model(), dec_envelope(pkt@)),
    {
        match decode_envelope(pkt) {
            Err(_) => {},
            Ok(env) => match env {
                Envelope::Snapshot(w) => {
                    self.map = Some(w);
                },
                Envelope::PlayerMove { id, x, y } => self.move_player(id, x, y),
                Envelope::PlayerPutBomb { id, x, y } => self.player_put_bomb(id, x, y),
                Envelope::PlayerDie { id } => self.player_die(id),
                Envelope::BombExplode { x, y } => self.bomb_explode(x, y),
                Envelope::DestroyItem { x, y } => self.destroy_item(x, y),
                Envelope::CreateItem { x, y, item } => self.create_item(x, y, item),
                Envelope::PlayerIdentity { id } => {
                    self.linked_id = Some(id);
                },
                Envelope::UpdateSquare { x, y, square } => self.update_square(x, y, square),
                Envelope::Joined { room, success } => {
                    if success {
                        self.current_room_id = Some(room);
                    }
                },
                Envelope::Command(..) => {},
                Envelope::Join { .. } => {},
                Envelope::Move(..) => {},
                Envelope::PlayerInfo { .. } => {},
            },
        }
    }

    /// Take the bytes of one transport read: reassemble every frame they
    /// complete and dispatch each in arrival order, retaining any
    /// incomplete tail for the next read.
    #[verifier::loop_isolation(false)]
    pub fn process_rx(&mut self, buf: &[u8])
        requires
            old(self).wf(),
        ensures
            final(self).wf(),
            final(self).rtp_buf.pending() == spec_residue(old(self).rtp_buf.pending() + buf@),
            final(self).model() == apply_frames(
                old(self).model(),
                spec_frames(old(self).rtp_buf.pending() + buf@),
            ),
    {
        let frames = self.rtp_buf.feed(buf);
        let ghost all = spec_frame_views(frames@);
        let ghost m0 = self.model();
        let ghost buf_state = self.rtp_buf;
        proof {
            assert(all.skip(0) =~= all);
        }
        let mut i: usize = 0;
        while i < frames.len()
            invariant
                i <= frames@.len(),
                self.wf(),
                self.rtp_buf == buf_state,
                apply_frames(m0, all) == apply_frames(self.model(), all.skip(i as int)),
            decreases frames@.len() - i,
        {
            let ghost before = self.model();
            self.parse_rtp(frames[i].as_slice());
            i += 1;
            proof {
                assert(all.skip(i - 1)[0] == all[i - 1]);
                assert(all[i - 1] == frames@[i - 1]@);
                assert(all.skip(i - 1).drop_first() =~= all.skip(i as int));
                assert(apply_frames(before, all.skip(i - 1)) == apply_frames(self.model(), all.skip(i as int)));
            }
        }
        proof {
            assert(all.skip(frames@.len() as int) =~= Seq::<Seq<u8>>::empty());
            assert(apply_frames(self.model(), all.skip(frames@.len() as int)) == self.model());
        }
    }

    fn clear_item(&mut self, x: u64, y: u64)
        requires
            old(self).wf(),
        ensures
            final(self).wf(),
            final(self).rtp_buf == old(self).rtp_buf,
            final(self).linked_id == old(self).linked_id,
            final(self).current_room_id == old(self).current_room_id,
            match old(self).map {
                Some(w) => final(self).map matches Some(w2) && w2.model() == wm_set_item(
                    w.model(),
                    x as int,
                    y as int,
                    None,
                ),
                None => *final(self) == *old(self),
            },
    {
        let mut m = self.map.take();
        match &mut m {
            Some(w) => {
                if x < (w.w as u64) && y < (w.h as u64) {
                    w.set_item(x as usize, y as usize, None);
                }
                proof {
                    let wm = old(self).map->Some_0.model();
                    if wm_in_bounds(wm, x as int, y as int) {
                        crate::world::lemma_cell_index_in_range(wm.w as int, wm.h as int, x as int, y as int);
                        lemma_items_model_update(
                            old(self).map->Some_0.items@,
                            x as int + (y as int) * (wm.w as int),
                            None,
                        );
                    }
                    assert(w.model().items =~= wm_set_item(wm, x as int, y as int, None).items);
                }
            },
            None => {},
        }
        self.map = m;
    }
}

} // verus!
