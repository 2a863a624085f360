use bomberust::{
    encode_envelope, encode_frame, BombItem, Bonus, Client, Direction, Envelope, InteractiveItem,
    MapPlayer, Square, SquareType, Walkable, World,
};

fn open_world(w: usize, h: usize) -> World {
    World {
        w,
        h,
        squares: vec![Square { sq_type: SquareType::Empty }; w * h],
        players: vec![
            MapPlayer { x: 128, y: 128, dead: false },
            MapPlayer { x: 896, y: 384, dead: false },
        ],
        items: vec![None; w * h],
    }
}

fn feed(client: &mut Client, env: &Envelope) {
    let payload = encode_envelope(env);
    client.parse_rtp(&payload);
}

#[test]
fn snapshot_replaces_the_world() {
    let mut client = Client::new();
    assert!(client.map.is_none());
    feed(&mut client, &Envelope::Snapshot(open_world(5, 4)));
    let map = client.map.as_ref().unwrap();
    assert_eq!(map.w, 5);
    assert_eq!(map.h, 4);
    assert_eq!(map.squares.len(), 20);
    assert_eq!(map.items.len(), 20);
}

#[test]
fn player_move_updates_one_player() {
    let mut client = Client::new();
    feed(&mut client, &Envelope::Snapshot(open_world(5, 5)));
    feed(&mut client, &Envelope::PlayerMove { id: 1, x: 4 * 256, y: 2 * 256 });
    let map = client.map.as_ref().unwrap();
    assert_eq!(map.players[1].x, 4 * 256);
    assert_eq!(map.players[1].y, 2 * 256);
    // The other player did not move.
    assert_eq!(map.players[0], MapPlayer { x: 128, y: 128, dead: false });
}

#[test]
fn identity_stability_on_player_die() {
    let mut client = Client::new();
    feed(&mut client, &Envelope::Snapshot(open_world(5, 5)));
    feed(&mut client, &Envelope::PlayerDie { id: 0 });
    let map = client.map.as_ref().unwrap();
    assert_eq!(map.players.len(), 2);
    assert!(map.players[0].dead);
    assert_eq!(map.players[0].x, 128);
    assert_eq!(map.players[1], MapPlayer { x: 896, y: 384, dead: false });
    // An out-of-range id changes nothing at all.
    let before = map.players.clone();
    feed(&mut client, &Envelope::PlayerDie { id: 99 });
    assert_eq!(client.map.as_ref().unwrap().players, before);
}

#[test]
fn item_symmetry_create_then_destroy() {
    let mut client = Client::new();
    feed(&mut client, &Envelope::Snapshot(open_world(5, 5)));
    let item = Some(InteractiveItem::Bonus(Bonus::ImproveSpeed));
    feed(&mut client, &Envelope::CreateItem { x: 2, y: 3, item });
    assert!(client.map.as_ref().unwrap().items[2 + 3 * 5].is_some());
    feed(&mut client, &Envelope::DestroyItem { x: 2, y: 3 });
    assert!(client.map.as_ref().unwrap().items[2 + 3 * 5].is_none());
}

#[test]
fn put_bomb_and_explode() {
    let mut client = Client::new();
    feed(&mut client, &Envelope::Snapshot(open_world(5, 5)));
    feed(&mut client, &Envelope::PlayerPutBomb { id: 0, x: 1, y: 1 });
    assert_eq!(
        client.map.as_ref().unwrap().items[1 + 5],
        Some(InteractiveItem::Bomb(BombItem))
    );
    feed(&mut client, &Envelope::BombExplode { x: 1, y: 1 });
    assert!(client.map.as_ref().unwrap().items[1 + 5].is_none());
}

#[test]
fn update_square_opens_a_wall() {
    let mut world = open_world(5, 5);
    world.squares[2 + 3 * 5] = Square { sq_type: SquareType::Wall(Direction::North) };
    let mut client = Client::new();
    feed(&mut client, &Envelope::Snapshot(world));
    feed(&mut client, &Envelope::UpdateSquare { x: 2, y: 3, square: SquareType::Empty });
    let map = client.map.as_ref().unwrap();
    let sq = map.squares[2 + 3 * 5].sq_type;
    assert_eq!(sq, SquareType::Empty);
    // Walkable whatever side the player comes from.
    for (px, py) in [(1usize, 3usize), (3, 3), (2, 2), (2, 4)] {
        let p = MapPlayer { x: (px as u32) * 256 + 128, y: (py as u32) * 256 + 128, dead: false };
        assert!(sq.walkable(&p, &(2, 3)));
    }
}

#[test]
fn identity_and_room_are_recorded() {
    let mut client = Client::new();
    feed(&mut client, &Envelope::PlayerIdentity { id: 3 });
    assert_eq!(client.linked_id, Some(3));
    feed(&mut client, &Envelope::Joined { room: 8, success: false });
    assert_eq!(client.current_room_id, None);
    feed(&mut client, &Envelope::Joined { room: 8, success: true });
    assert_eq!(client.current_room_id, Some(8));
}

#[test]
fn diffs_before_any_snapshot_are_ignored() {
    let mut client = Client::new();
    feed(&mut client, &Envelope::PlayerDie { id: 0 });
    feed(&mut client, &Envelope::BombExplode { x: 0, y: 0 });
    assert!(client.map.is_none());
}

#[test]
fn out_of_range_cells_are_ignored() {
    let mut client = Client::new();
    feed(&mut client, &Envelope::Snapshot(open_world(5, 5)));
    let before = client.map.clone();
    feed(&mut client, &Envelope::BombExplode { x: 50, y: 0 });
    feed(&mut client, &Envelope::UpdateSquare { x: 0, y: 50, square: SquareType::Water });
    assert_eq!(client.map, before);
}

#[test]
fn garbage_frames_are_dropped_and_the_stream_goes_on() {
    let mut client = Client::new();
    let mut stream: Vec<u8> = Vec::new();
    stream.extend(encode_frame(&[0xFF, 0xFE, 0xFD]));
    stream.extend(encode_frame(&encode_envelope(&Envelope::PlayerIdentity { id: 5 })));
    client.process_rx(&stream);
    assert_eq!(client.linked_id, Some(5));
}

#[test]
fn process_rx_handles_arbitrary_chunking() {
    let mut stream: Vec<u8> = Vec::new();
    stream.extend(encode_frame(&encode_envelope(&Envelope::Snapshot(open_world(5, 5)))));
    stream.extend(encode_frame(&encode_envelope(&Envelope::PlayerDie { id: 1 })));
    stream.extend(encode_frame(&encode_envelope(&Envelope::Joined { room: 2, success: true })));

    let mut one_go = Client::new();
    one_go.process_rx(&stream);

    let mut dribble = Client::new();
    for chunk in stream.chunks(3) {
        dribble.process_rx(chunk);
    }

    assert_eq!(one_go.map, dribble.map);
    assert_eq!(one_go.current_room_id, dribble.current_room_id);
    assert!(dribble.map.as_ref().unwrap().players[1].dead);
    assert_eq!(dribble.current_room_id, Some(2));
}
