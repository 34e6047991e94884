use rroguelike::{
    new_game, run_monster_ai, run_visibility_system, Color, Ecs, GameMap, InputKey,
    RunState, State, TileType,
};

/// A small open arena: floor everywhere except the one-tile wall border,
/// plus a single interior wall at (5, 3).
fn arena() -> GameMap {
    let w = 12usize;
    let h = 8usize;
    let mut tiles = vec![TileType::Floor; w * h];
    for x in 0..w {
        tiles[x] = TileType::Wall;
        tiles[(h - 1) * w + x] = TileType::Wall;
    }
    for y in 0..h {
        tiles[y * w] = TileType::Wall;
        tiles[y * w + w - 1] = TileType::Wall;
    }
    tiles[3 * w + 5] = TileType::Wall;
    GameMap {
        tiles,
        rooms: Vec::new(),
        width: w as i32,
        height: h as i32,
        revealed_tiles: vec![false; w * h],
        visible_tiles: vec![false; w * h],
    }
}

fn arena_state(px: i32, py: i32) -> State {
    let mut ecs = Ecs::new();
    ecs.create_player(
        px,
        py,
        '@',
        Color { r: 255, g: 255, b: 0 },
        Color { r: 0, g: 0, b: 0 },
    );
    State { ecs, map: arena(), runstate: RunState::Running }
}

fn player_viewshed(gs: &State) -> (bool, Vec<usize>) {
    let vs = gs.ecs.viewsheds[0].as_ref().unwrap();
    (vs.dirty, vs.visible_tiles.clone())
}

#[test]
fn visible_implies_revealed_after_every_pass() {
    let mut gs = arena_state(3, 3);
    run_visibility_system(&mut gs.ecs, &mut gs.map);
    for i in 0..gs.map.visible_tiles.len() {
        if gs.map.visible_tiles[i] {
            assert!(gs.map.revealed_tiles[i]);
        }
    }
}

#[test]
fn revealed_only_grows_across_frames() {
    let mut gs = arena_state(3, 3);
    gs.tick(None); // running frame: systems pass
    let before = gs.map.revealed_tiles.clone();
    gs.tick(Some(InputKey::Right)); // paused frame: move
    gs.tick(None); // running frame: systems pass again
    for i in 0..before.len() {
        if before[i] {
            assert!(gs.map.revealed_tiles[i], "revealed tile {} was forgotten", i);
        }
    }
}

#[test]
fn clean_viewshed_is_not_recomputed() {
    let mut gs = arena_state(3, 3);
    run_visibility_system(&mut gs.ecs, &mut gs.map);
    let (dirty, vis) = player_viewshed(&gs);
    assert!(!dirty);
    // a second pass with nothing moved leaves the viewshed exactly as it is
    run_visibility_system(&mut gs.ecs, &mut gs.map);
    let (dirty2, vis2) = player_viewshed(&gs);
    assert!(!dirty2);
    assert_eq!(vis, vis2);
}

#[test]
fn blocked_move_changes_nothing() {
    let mut gs = arena_state(4, 3);
    run_visibility_system(&mut gs.ecs, &mut gs.map);
    let visible_before = gs.map.visible_tiles.clone();
    let (dirty_before, vis_before) = player_viewshed(&gs);
    assert!(!dirty_before);
    // the tile at (5, 3) is a wall: moving right is a no-op
    rroguelike::try_move_player(&mut gs.ecs, &gs.map, 1, 0);
    let pos = gs.ecs.positions[0].unwrap();
    assert_eq!((pos.x, pos.y), (4, 3));
    let (dirty_after, vis_after) = player_viewshed(&gs);
    assert!(!dirty_after);
    assert_eq!(vis_before, vis_after);
    assert_eq!(visible_before, gs.map.visible_tiles);
}

#[test]
fn open_move_updates_position_and_visible_set() {
    let mut gs = arena_state(4, 4);
    run_visibility_system(&mut gs.ecs, &mut gs.map);
    let vis_before = player_viewshed(&gs).1;
    rroguelike::try_move_player(&mut gs.ecs, &gs.map, 1, 0);
    let pos = gs.ecs.positions[0].unwrap();
    assert_eq!((pos.x, pos.y), (5, 4));
    assert!(player_viewshed(&gs).0, "successful move must dirty the viewshed");
    run_visibility_system(&mut gs.ecs, &mut gs.map);
    let vis_after = player_viewshed(&gs).1;
    // the interior wall at (5, 3) shadows differently from the new tile
    assert_ne!(vis_before, vis_after);
}

#[test]
fn wait_is_a_legal_move_that_dirties_the_viewshed() {
    let mut gs = arena_state(3, 3);
    run_visibility_system(&mut gs.ecs, &mut gs.map);
    assert!(!player_viewshed(&gs).0);
    rroguelike::try_move_player(&mut gs.ecs, &gs.map, 0, 0);
    let pos = gs.ecs.positions[0].unwrap();
    assert_eq!((pos.x, pos.y), (3, 3));
    assert!(player_viewshed(&gs).0);
}

#[test]
fn tick_state_machine() {
    let mut gs = arena_state(3, 3);
    assert_eq!(gs.runstate, RunState::Running);
    gs.tick(None);
    assert_eq!(gs.runstate, RunState::Paused);
    gs.tick(None);
    assert_eq!(gs.runstate, RunState::Paused);
    gs.tick(Some(InputKey::Down));
    assert_eq!(gs.runstate, RunState::Running);
    gs.tick(Some(InputKey::Up)); // running frame ignores input, pauses again
    assert_eq!(gs.runstate, RunState::Paused);
}

#[test]
fn monster_on_player_tile_always_reacts() {
    let mut ecs = Ecs::new();
    ecs.create_monster(
        3,
        3,
        'x',
        Color { r: 0, g: 255, b: 0 },
        Color { r: 0, g: 0, b: 0 },
        String::from("Small x #0"),
    );
    ecs.create_player(
        3,
        3,
        '@',
        Color { r: 255, g: 255, b: 0 },
        Color { r: 0, g: 0, b: 0 },
    );
    let mut map = arena();
    run_visibility_system(&mut ecs, &mut map);
    let idx = 3 * 12 + 3;
    assert!(map.visible_tiles[idx]);
    let reactions = run_monster_ai(&ecs, &map);
    assert_eq!(reactions, vec![String::from("Small x #0")]);
}

#[test]
fn hidden_monster_does_not_react() {
    let mut ecs = Ecs::new();
    // the monster stands in the shadow of the wall at (5, 3)
    ecs.create_monster(
        7,
        3,
        'x',
        Color { r: 0, g: 255, b: 0 },
        Color { r: 0, g: 0, b: 0 },
        String::from("Small x #0"),
    );
    ecs.create_player(
        3,
        3,
        '@',
        Color { r: 255, g: 255, b: 0 },
        Color { r: 0, g: 0, b: 0 },
    );
    let mut map = arena();
    run_visibility_system(&mut ecs, &mut map);
    assert!(!map.visible_tiles[3 * 12 + 7]);
    let reactions = run_monster_ai(&ecs, &map);
    assert!(reactions.is_empty());
}

#[test]
fn new_game_places_player_and_monsters() {
    let mut rng = rltk::RandomNumberGenerator::seeded(77);
    let gs = new_game(80, 50, &mut rng);
    assert_eq!(gs.runstate, RunState::Running);
    let n = gs.ecs.positions.len();
    assert_eq!(n, gs.map.rooms.len());
    // the last entity is the player at the first room's center
    assert!(gs.ecs.players[n - 1]);
    let (cx, cy) = gs.map.rooms[0].center();
    let p = gs.ecs.positions[n - 1].unwrap();
    assert_eq!((p.x, p.y), (cx, cy));
    // every other entity is a monster at its room's center with its label
    for j in 0..n - 1 {
        assert!(gs.ecs.monsters[j]);
        let pos = gs.ecs.positions[j].unwrap();
        let (mx, my) = gs.map.rooms[j + 1].center();
        assert_eq!((pos.x, pos.y), (mx, my));
        let name = &gs.ecs.names[j].as_ref().unwrap().name;
        let glyph = gs.ecs.renderables[j].unwrap().glyph;
        if glyph == 'x' {
            assert_eq!(*name, format!("Small x #{}", j));
        } else {
            assert_eq!(glyph, 'X');
            assert_eq!(*name, format!("Big X #{}", j));
        }
    }
}

#[test]
fn draw_map_lists_exactly_revealed_tiles() {
    let mut gs = arena_state(3, 3);
    let frame = gs.tick(None);
    let revealed: usize = gs.map.revealed_tiles.iter().filter(|r| **r).count();
    assert_eq!(frame.map_cells.len(), revealed);
    for cell in frame.map_cells.iter() {
        let idx = cell.y as usize * 12 + cell.x as usize;
        assert!(gs.map.revealed_tiles[idx]);
        let expected = if gs.map.tiles[idx] == TileType::Floor { '.' } else { '#' };
        assert_eq!(cell.glyph, expected);
        assert_eq!(cell.visible, gs.map.visible_tiles[idx]);
    }
}

#[test]
fn visible_entities_are_rendered() {
    let mut gs = arena_state(3, 3);
    let frame = gs.tick(None);
    // the player stands on a visible tile, so it is drawn
    assert!(frame.entity_cells.iter().any(|c| c.x == 3 && c.y == 3 && c.glyph == '@'));
}

#[test]
fn decimal_labels() {
    let mut s = String::new();
    rroguelike::push_decimal(&mut s, 0);
    assert_eq!(s, "0");
    let mut s = String::from("n = ");
    rroguelike::push_decimal(&mut s, 42);
    assert_eq!(s, "n = 42");
    let mut s = String::new();
    rroguelike::push_decimal(&mut s, 100);
    assert_eq!(s, "100");
}

#[test]
fn player_input_maps_keys() {
    let mut gs = arena_state(3, 3);
    gs.runstate = RunState::Paused;
    let rs = rroguelike::player_input(&mut gs, None);
    assert_eq!(rs, RunState::Paused);
    let rs = rroguelike::player_input(&mut gs, Some(InputKey::Right));
    assert_eq!(rs, RunState::Running);
    let pos = gs.ecs.positions[0].unwrap();
    assert_eq!((pos.x, pos.y), (4, 3));
}
