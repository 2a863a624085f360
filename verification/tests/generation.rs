use bomberust::{
    random_bonus, random_malus, random_square_type, square_type_of_roll, Bonus, DestructibleBox,
    Direction, InteractiveItem, Malus, RandomSource, SquareType, Walkable, World,
};

#[test]
fn generate_11_by_11() {
    let mut rng = RandomSource::new();
    let world = World::new(11, 11, &mut rng);
    assert_eq!(world.w, 11);
    assert_eq!(world.h, 11);
    assert_eq!(world.squares.len(), 121);
    assert_eq!(world.items.len(), 121);
    assert_eq!(world.players.len(), 4);
    for p in &world.players {
        let cx = (p.x / 256) as usize;
        let cy = (p.y / 256) as usize;
        assert!(cx < world.w && cy < world.h);
        let sq = world.squares[cx + cy * world.w].sq_type;
        assert!(sq.walkable(p, &(cx, cy)));
        assert_ne!(sq, SquareType::Block);
        assert!(world.items[cx + cy * world.w].is_none());
    }
}

#[test]
fn small_requests_are_clamped_to_eleven() {
    let mut rng = RandomSource::new();
    let world = World::new(0, 0, &mut rng);
    assert_eq!(world.w, 11);
    assert_eq!(world.h, 11);
    assert_eq!(world.squares.len(), 121);
    assert_eq!(world.items.len(), 121);
}

#[test]
fn mixed_dimensions_clamp_independently() {
    let mut rng = RandomSource::new();
    let world = World::new(13, 5, &mut rng);
    assert_eq!(world.w, 13);
    assert_eq!(world.h, 11);
    assert_eq!(world.squares.len(), 13 * 11);
    assert_eq!(world.items.len(), 13 * 11);
}

#[test]
fn pillar_lattice_is_forced() {
    let mut rng = RandomSource::new();
    let world = World::new(11, 11, &mut rng);
    // Every odd-odd cell is a block: the generator's contract promises
    // the lattice, and neither spawning nor carving ever touches it.
    for y in 0..world.h {
        for x in 0..world.w {
            if x % 2 == 1 && y % 2 == 1 {
                assert_eq!(world.squares[x + y * world.w].sq_type, SquareType::Block);
            }
        }
    }
}

#[test]
fn fresh_items_are_boxes_on_open_ground() {
    let mut rng = RandomSource::new();
    let world = World::new(13, 11, &mut rng);
    for k in 0..world.items.len() {
        if let Some(it) = &world.items[k] {
            assert_eq!(*it, InteractiveItem::DestructibleBox(DestructibleBox));
            assert_eq!(world.squares[k].sq_type, SquareType::Empty);
        }
    }
}

#[test]
fn players_spawn_alive_at_quadrant_cell_centers() {
    let mut rng = RandomSource::new();
    let world = World::new(12, 16, &mut rng);
    let (w, h) = (world.w, world.h);
    for (j, p) in world.players.iter().enumerate() {
        assert!(!p.dead);
        assert_eq!(p.x % 256, 128);
        assert_eq!(p.y % 256, 128);
        let cx = (p.x / 256) as usize;
        let cy = (p.y / 256) as usize;
        if j == 1 || j == 3 {
            assert!(cx >= w - w / 4);
        } else {
            assert!(cx < w / 4);
        }
        if j == 2 || j == 3 {
            assert!(cy >= h - h / 4);
        } else {
            assert!(cy < h / 4);
        }
    }
}

#[test]
fn terrain_rolls_map_to_their_square_types() {
    assert_eq!(square_type_of_roll(0, Direction::East), SquareType::Water);
    assert_eq!(square_type_of_roll(1, Direction::East), SquareType::Wall(Direction::East));
    assert_eq!(square_type_of_roll(1, Direction::North), SquareType::Wall(Direction::North));
    for roll in 2..22 {
        assert_eq!(square_type_of_roll(roll, Direction::South), SquareType::Empty);
    }
}

#[test]
fn generation_varies_but_stays_legal() {
    let mut rng = RandomSource::new();
    for _ in 0..5 {
        let world = World::new(15, 13, &mut rng);
        assert_eq!(world.players.len(), 4);
        assert_eq!(world.squares.len(), 15 * 13);
    }
}

#[test]
fn rendering_matches_the_grid() {
    let mut rng = RandomSource::new();
    let world = World::new(11, 11, &mut rng);
    let text = world.to_text();
    let lines: Vec<&str> = text.lines().collect();
    assert_eq!(lines.len(), 11);
    for line in &lines {
        assert_eq!(line.chars().count(), 11);
    }
    // Exactly the players' cells are drawn as players (two may share one).
    let players: usize = text.chars().filter(|c| *c == 'P' || *c == 'p').count();
    assert!(players >= 1 && players <= 4);
}

#[test]
fn random_draws_stay_in_their_catalogue() {
    let mut rng = RandomSource::new();
    for _ in 0..50 {
        assert_ne!(random_square_type(&mut rng), SquareType::Block);
        assert!(!matches!(random_bonus(&mut rng), Bonus::Custom(_)));
        assert!(!matches!(random_malus(&mut rng), Malus::Custom(_)));
    }
}
