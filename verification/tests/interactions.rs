use bomberust::{
    decode_envelope, BombItem, Bonus, DestroyItem, DestructibleBox, Direction, Envelope,
    InteractiveItem, Item, Malus, MapMsg, MapPlayer, PlayerDie, SerializedEvent, Square,
    SquareType, Walkable, World,
};

fn player_at(cx: u32, cy: u32) -> MapPlayer {
    MapPlayer { x: cx * 256 + 128, y: cy * 256 + 128, dead: false }
}

#[test]
fn square_walkability() {
    let p = player_at(3, 3);
    assert!(SquareType::Empty.walkable(&p, &(5, 5)));
    assert!(!SquareType::Water.walkable(&p, &(5, 5)));
    assert!(!SquareType::Block.walkable(&p, &(5, 5)));
    // A west-facing wall lets a player through from the east side only.
    assert!(SquareType::Wall(Direction::West).walkable(&player_at(6, 5), &(5, 5)));
    assert!(!SquareType::Wall(Direction::West).walkable(&player_at(4, 5), &(5, 5)));
    assert!(SquareType::Wall(Direction::East).walkable(&player_at(4, 5), &(5, 5)));
    assert!(!SquareType::Wall(Direction::East).walkable(&player_at(6, 5), &(5, 5)));
    assert!(SquareType::Wall(Direction::North).walkable(&player_at(5, 4), &(5, 5)));
    assert!(!SquareType::Wall(Direction::North).walkable(&player_at(5, 6), &(5, 5)));
    assert!(SquareType::Wall(Direction::South).walkable(&player_at(5, 6), &(5, 5)));
    assert!(!SquareType::Wall(Direction::South).walkable(&player_at(5, 4), &(5, 5)));
    // Standing on the wall's own cell is always allowed.
    assert!(SquareType::Wall(Direction::West).walkable(&player_at(5, 5), &(5, 5)));
}

#[test]
fn square_explode_events() {
    assert_eq!(SquareType::Empty.explode_event(&(1, 1), &(0, 1)), (false, true));
    assert_eq!(SquareType::Water.explode_event(&(1, 1), &(0, 1)), (false, false));
    assert_eq!(SquareType::Block.explode_event(&(1, 1), &(0, 1)), (true, false));
    // A north wall blocks only along its own row and survives blasts from
    // the south.
    assert_eq!(SquareType::Wall(Direction::North).explode_event(&(1, 1), &(0, 1)), (true, true));
    assert_eq!(SquareType::Wall(Direction::North).explode_event(&(1, 1), &(1, 2)), (false, false));
    assert_eq!(SquareType::Wall(Direction::North).explode_event(&(1, 1), &(1, 0)), (false, true));
}

#[test]
fn item_interaction_table() {
    let p = player_at(0, 0);
    let bomb = InteractiveItem::Bomb(BombItem);
    assert!(!bomb.walkable(&p, &(0, 0)));
    // A bomb blocks a blast except at ground zero, and is always destroyed.
    assert_eq!(bomb.explode_event(&(2, 2), &(2, 2)), (false, true));
    assert_eq!(bomb.explode_event(&(2, 2), &(0, 2)), (true, true));

    let bonus = InteractiveItem::Bonus(Bonus::PunchBombs);
    assert!(bonus.walkable(&p, &(0, 0)));
    assert_eq!(bonus.explode_event(&(2, 2), &(0, 2)), (false, true));

    let malus = InteractiveItem::Malus(Malus::Slow);
    assert!(malus.walkable(&p, &(0, 0)));
    assert_eq!(malus.explode_event(&(2, 2), &(0, 2)), (false, true));

    let boxed = InteractiveItem::DestructibleBox(DestructibleBox);
    assert!(!boxed.walkable(&p, &(0, 0)));
    assert_eq!(boxed.explode_event(&(2, 2), &(0, 2)), (true, true));
}

#[test]
fn item_names() {
    assert_eq!(InteractiveItem::Bomb(BombItem).name(), "Bomb");
    assert_eq!(InteractiveItem::Bonus(Bonus::MoreBombs).name(), "Bonus");
    assert_eq!(InteractiveItem::Malus(Malus::UltraFast).name(), "Malus");
    assert_eq!(InteractiveItem::DestructibleBox(DestructibleBox).name(), "DestructibleBox");
}

#[test]
fn diff_structs_serialize_like_the_catalogue() {
    let bytes = PlayerDie { msg_type: "player_die".to_string(), id: 4 }.to_vec();
    assert_eq!(decode_envelope(&bytes), Ok(Envelope::PlayerDie { id: 4 }));

    let bytes = DestroyItem { msg_type: "destroy_item".to_string(), w: 1, h: 2 }.to_vec();
    assert_eq!(decode_envelope(&bytes), Ok(Envelope::DestroyItem { x: 1, y: 2 }));
}

#[test]
fn map_msg_serializes_a_snapshot() {
    let world = World {
        w: 1,
        h: 1,
        squares: vec![Square { sq_type: SquareType::Empty }],
        players: vec![],
        items: vec![None],
    };
    let bytes = MapMsg::new(world.clone()).to_vec();
    assert_eq!(decode_envelope(&bytes), Ok(Envelope::Snapshot(world)));
}

#[test]
fn world_text_draws_each_cell() {
    let world = World {
        w: 3,
        h: 1,
        squares: vec![
            Square { sq_type: SquareType::Empty },
            Square { sq_type: SquareType::Water },
            Square { sq_type: SquareType::Empty },
        ],
        players: vec![player_at(2, 0)],
        items: vec![Some(InteractiveItem::DestructibleBox(DestructibleBox)), None, None],
    };
    assert_eq!(world.to_text(), "DWP\n");
}
