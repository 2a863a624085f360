use bomberust::{
    decode_envelope, encode_envelope, Bonus, BombItem, CommandKind, DecodeError, Direction,
    Envelope, InteractiveItem, Malus, MapPlayer, Square, SquareType, World,
};

fn tiny_world() -> World {
    let squares = vec![
        Square { sq_type: SquareType::Empty },
        Square { sq_type: SquareType::Water },
        Square { sq_type: SquareType::Wall(Direction::North) },
        Square { sq_type: SquareType::Block },
        Square { sq_type: SquareType::Empty },
        Square { sq_type: SquareType::Empty },
    ];
    let items = vec![
        None,
        Some(InteractiveItem::Bomb(BombItem)),
        Some(InteractiveItem::Bonus(Bonus::MoreBombs)),
        Some(InteractiveItem::Malus(Malus::Custom("oops".to_string()))),
        Some(InteractiveItem::DestructibleBox(bomberust::DestructibleBox)),
        None,
    ];
    let players = vec![
        MapPlayer { x: 128, y: 128, dead: false },
        MapPlayer { x: 2 * 256 + 128, y: 128, dead: true },
    ];
    World { w: 3, h: 2, squares, players, items }
}

fn roundtrip(v: Envelope) {
    let bytes = encode_envelope(&v);
    assert_eq!(decode_envelope(&bytes), Ok(v));
}

#[test]
fn roundtrip_snapshot() {
    roundtrip(Envelope::Snapshot(tiny_world()));
}

#[test]
fn roundtrip_player_move() {
    roundtrip(Envelope::PlayerMove { id: -3, x: 1000, y: 2 });
}

#[test]
fn roundtrip_player_put_bomb() {
    roundtrip(Envelope::PlayerPutBomb { id: 1, x: 4, y: 7 });
}

#[test]
fn roundtrip_player_die() {
    roundtrip(Envelope::PlayerDie { id: u64::MAX });
}

#[test]
fn roundtrip_bomb_explode() {
    roundtrip(Envelope::BombExplode { x: 3, y: 9 });
}

#[test]
fn roundtrip_create_item() {
    roundtrip(Envelope::CreateItem {
        x: 1,
        y: 2,
        item: Some(InteractiveItem::Bonus(Bonus::Custom("zèbre".to_string()))),
    });
    roundtrip(Envelope::CreateItem { x: 1, y: 2, item: None });
}

#[test]
fn roundtrip_destroy_item() {
    roundtrip(Envelope::DestroyItem { x: 0, y: 0 });
}

#[test]
fn roundtrip_update_square() {
    roundtrip(Envelope::UpdateSquare { x: 2, y: 3, square: SquareType::Wall(Direction::East) });
}

#[test]
fn roundtrip_player_identity() {
    roundtrip(Envelope::PlayerIdentity { id: 42 });
}

#[test]
fn roundtrip_joined() {
    roundtrip(Envelope::Joined { room: 7, success: true });
    roundtrip(Envelope::Joined { room: 0, success: false });
}

#[test]
fn roundtrip_commands() {
    roundtrip(Envelope::Command(CommandKind::Create));
    roundtrip(Envelope::Command(CommandKind::Leave));
    roundtrip(Envelope::Command(CommandKind::Launch));
    roundtrip(Envelope::Command(CommandKind::Bomb));
}

#[test]
fn roundtrip_join() {
    roundtrip(Envelope::Join { room: 1234567890123 });
}

#[test]
fn roundtrip_move() {
    roundtrip(Envelope::Move(Direction::North));
    roundtrip(Envelope::Move(Direction::South));
    roundtrip(Envelope::Move(Direction::West));
    roundtrip(Envelope::Move(Direction::East));
}

#[test]
fn roundtrip_player_info() {
    // Non-ASCII characters exercise the character conversions.
    roundtrip(Envelope::PlayerInfo { name: "Zoé 🦀".to_string() });
}

#[test]
fn unknown_tag_is_reported_as_such() {
    // A tag outside the catalogue: "nonsense" (8 chars, 4 bytes each).
    let mut bytes = vec![0x00, 0x08];
    for c in "nonsense".chars() {
        bytes.extend((c as u32).to_be_bytes());
    }
    assert_eq!(decode_envelope(&bytes), Err(DecodeError::UnknownTag));
}

#[test]
fn truncated_payload_is_malformed() {
    let full = encode_envelope(&Envelope::PlayerDie { id: 9 });
    let cut = &full[..full.len() - 1];
    assert_eq!(decode_envelope(cut), Err(DecodeError::Malformed));
}

#[test]
fn trailing_bytes_are_malformed() {
    let mut bytes = encode_envelope(&Envelope::Join { room: 1 });
    bytes.push(0);
    assert_eq!(decode_envelope(&bytes), Err(DecodeError::Malformed));
}

#[test]
fn bad_boolean_byte_is_malformed() {
    let mut bytes = encode_envelope(&Envelope::Joined { room: 1, success: true });
    let last = bytes.len() - 1;
    bytes[last] = 2;
    assert_eq!(decode_envelope(&bytes), Err(DecodeError::Malformed));
}

#[test]
fn empty_payload_is_malformed() {
    assert_eq!(decode_envelope(&[]), Err(DecodeError::Malformed));
}
