use rroguelike::{recompute_visibility, tile_visible, GameMap, TileType};

/// An all-wall grid with two open rectangular rooms: one around (5, 5)
/// sized 6x6, and a distant one around (30, 5), with solid wall between.
fn two_room_map() -> GameMap {
    let w = 40usize;
    let h = 20usize;
    let mut tiles = vec![TileType::Wall; w * h];
    for y in 3..9usize {
        for x in 3..9usize {
            tiles[y * w + x] = TileType::Floor;
        }
    }
    for y in 3..9usize {
        for x in 28..34usize {
            tiles[y * w + x] = TileType::Floor;
        }
    }
    GameMap {
        tiles,
        rooms: Vec::new(),
        width: w as i32,
        height: h as i32,
        revealed_tiles: vec![false; w * h],
        visible_tiles: vec![false; w * h],
    }
}

#[test]
fn repeated_recomputation_is_identical() {
    let map = two_room_map();
    let a = recompute_visibility(&map, 5, 5, 8);
    let b = recompute_visibility(&map, 5, 5, 8);
    assert_eq!(a, b);
}

#[test]
fn seeded_dungeon_recomputation_is_identical() {
    let mut rng = rltk::RandomNumberGenerator::seeded(21);
    let map = GameMap::new_map_rooms(80, 50, &mut rng);
    let (cx, cy) = map.rooms[0].center();
    let a = recompute_visibility(&map, cx, cy, 8);
    let b = recompute_visibility(&map, cx, cy, 8);
    assert_eq!(a, b);
}

#[test]
fn open_room_fully_seen_distant_room_not() {
    let map = two_room_map();
    let w = 40usize;
    let vis = recompute_visibility(&map, 5, 5, 8);
    // every floor tile of the viewer's own 6x6 room is seen
    for y in 3..9usize {
        for x in 3..9usize {
            assert!(
                vis.contains(&(y * w + x)),
                "room tile ({}, {}) not visible",
                x,
                y
            );
        }
    }
    // nothing of the distant room, more than 8 tiles away behind wall
    for y in 3..9usize {
        for x in 28..34usize {
            assert!(!vis.contains(&(y * w + x)));
        }
    }
}

#[test]
fn viewer_tile_always_visible() {
    let map = two_room_map();
    assert!(tile_visible(&map, 5, 5, 5, 5, 8));
    assert!(tile_visible(&map, 5, 5, 5, 5, 0));
    let vis = recompute_visibility(&map, 5, 5, 8);
    assert!(vis.contains(&(5 * 40 + 5)));
}

#[test]
fn walls_block_sight() {
    let map = two_room_map();
    // a tile in the far room is in wall shadow even at huge radius
    assert!(!tile_visible(&map, 5, 5, 30, 5, 100));
    // the near side of the enclosing wall is itself visible
    assert!(tile_visible(&map, 5, 5, 9, 5, 8));
}

#[test]
fn range_limits_sight() {
    let w = 40usize;
    let h = 20usize;
    let tiles = vec![TileType::Floor; w * h];
    let map = GameMap {
        tiles,
        rooms: Vec::new(),
        width: w as i32,
        height: h as i32,
        revealed_tiles: vec![false; w * h],
        visible_tiles: vec![false; w * h],
    };
    assert!(tile_visible(&map, 10, 10, 14, 10, 4));
    assert!(!tile_visible(&map, 10, 10, 15, 10, 4));
    // Euclidean metric: (3, 4) is exactly 5 away
    assert!(tile_visible(&map, 10, 10, 13, 14, 5));
    assert!(!tile_visible(&map, 10, 10, 13, 14, 4));
}

#[test]
fn moving_viewer_changes_visible_set() {
    let map = two_room_map();
    let before = recompute_visibility(&map, 4, 5, 8);
    let after = recompute_visibility(&map, 5, 5, 8);
    assert_ne!(before, after);
}
