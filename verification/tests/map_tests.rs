use rroguelike::{GameMap, TileType};
use std::collections::VecDeque;

fn seeded_map(seed: u64) -> GameMap {
    let mut rng = rltk::RandomNumberGenerator::seeded(seed);
    GameMap::new_map_rooms(80, 50, &mut rng)
}

#[test]
fn generated_rooms_do_not_overlap() {
    for seed in [1u64, 7, 42, 1234] {
        let map = seeded_map(seed);
        for i in 0..map.rooms.len() {
            for j in 0..map.rooms.len() {
                if i != j {
                    assert!(!map.rooms[i].intersect(&map.rooms[j]));
                }
            }
        }
    }
}

#[test]
fn every_floor_tile_reachable_from_first_room_center() {
    for seed in [1u64, 7, 42, 1234] {
        let map = seeded_map(seed);
        assert!(!map.rooms.is_empty());
        let (cx, cy) = map.rooms[0].center();
        let w = map.width as usize;
        let h = map.height as usize;
        let start = cy as usize * w + cx as usize;
        assert_eq!(map.tiles[start], TileType::Floor);
        let mut seen = vec![false; w * h];
        let mut queue = VecDeque::new();
        seen[start] = true;
        queue.push_back(start);
        while let Some(idx) = queue.pop_front() {
            let x = idx % w;
            let y = idx / w;
            let mut neighbours = Vec::new();
            if x > 0 {
                neighbours.push(idx - 1);
            }
            if x + 1 < w {
                neighbours.push(idx + 1);
            }
            if y > 0 {
                neighbours.push(idx - w);
            }
            if y + 1 < h {
                neighbours.push(idx + w);
            }
            for n in neighbours {
                if !seen[n] && map.tiles[n] == TileType::Floor {
                    seen[n] = true;
                    queue.push_back(n);
                }
            }
        }
        for idx in 0..w * h {
            if map.tiles[idx] == TileType::Floor {
                assert!(seen[idx], "floor tile {} unreachable (seed {})", idx, seed);
            }
        }
    }
}

#[test]
fn fixed_seed_reproduces_map_and_rooms() {
    let a = seeded_map(99);
    let b = seeded_map(99);
    assert_eq!(a.tiles, b.tiles);
    assert_eq!(a.rooms, b.rooms);
    assert_eq!(a.width, b.width);
    assert_eq!(a.height, b.height);
}

#[test]
fn generated_map_starts_unexplored_with_wall_border() {
    let map = seeded_map(5);
    assert!(map.revealed_tiles.iter().all(|r| !r));
    assert!(map.visible_tiles.iter().all(|v| !v));
    for x in 0..80usize {
        assert_eq!(map.tiles[x], TileType::Wall);
        assert_eq!(map.tiles[49 * 80 + x], TileType::Wall);
    }
    for y in 0..50usize {
        assert_eq!(map.tiles[y * 80], TileType::Wall);
        assert_eq!(map.tiles[y * 80 + 79], TileType::Wall);
    }
}

#[test]
fn scattered_map_keeps_safe_tile_and_border() {
    let mut rng = rltk::RandomNumberGenerator::seeded(17);
    let map = GameMap::new_map_test(&mut rng);
    assert_eq!(map.width, 80);
    assert_eq!(map.height, 50);
    assert_eq!(map.tiles[25 * 80 + 40], TileType::Floor);
    for x in 0..80usize {
        assert_eq!(map.tiles[x], TileType::Wall);
        assert_eq!(map.tiles[49 * 80 + x], TileType::Wall);
    }
    for y in 0..50usize {
        assert_eq!(map.tiles[y * 80], TileType::Wall);
        assert_eq!(map.tiles[y * 80 + 79], TileType::Wall);
    }
}

#[test]
fn scattered_map_has_at_most_200_interior_walls() {
    for seed in [2u64, 11, 31] {
        let mut rng = rltk::RandomNumberGenerator::seeded(seed);
        let map = GameMap::new_map_test(&mut rng);
        let mut walls = 0usize;
        for y in 1..49usize {
            for x in 1..79usize {
                if map.tiles[y * 80 + x] == TileType::Wall {
                    walls += 1;
                }
            }
        }
        assert!(walls <= 200, "{} interior walls (seed {})", walls, seed);
    }
}

#[test]
fn xy_idx_row_major() {
    let map = seeded_map(3);
    assert_eq!(map.xy_idx(0, 0), 0);
    assert_eq!(map.xy_idx(79, 0), 79);
    assert_eq!(map.xy_idx(0, 1), 80);
    assert_eq!(map.xy_idx(40, 25), 25 * 80 + 40);
}

#[test]
fn exit_validity_and_exits() {
    let map = seeded_map(8);
    // the border is wall, so stepping onto it is never valid
    assert!(!map.is_exit_valid(0, 10));
    assert!(!map.is_exit_valid(10, 0));
    let (cx, cy) = map.rooms[0].center();
    // the room center is open floor, so it is a valid exit
    assert!(map.is_exit_valid(cx, cy));
    let idx = map.xy_idx(cx, cy);
    let exits = map.get_available_exits(idx);
    // the room interior is at least 4x4 of floor, so all four neighbours open
    assert_eq!(exits.len(), 4);
    assert!(exits.contains(&(idx - 1)));
    assert!(exits.contains(&(idx + 1)));
    assert!(exits.contains(&(idx - 80)));
    assert!(exits.contains(&(idx + 80)));
}

#[test]
fn pathing_distance_squared_exact() {
    let map = seeded_map(8);
    let a = map.xy_idx(10, 10);
    let b = map.xy_idx(13, 14);
    assert_eq!(map.pathing_distance_squared(a, b), 3 * 3 + 4 * 4);
    assert_eq!(map.pathing_distance_squared(a, a), 0);
}
