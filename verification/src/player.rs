use vstd::prelude::*;

use crate::components::{Ecs, Position};
use crate::map::{GameMap, TileType};
use crate::state::{RunState, State};

verus! {

/// The actions the game understands, after the input glue has mapped raw
/// key codes: the four movement directions and waiting in place.
#[derive(PartialEq, Eq, Structural, Clone, Copy, Debug)]
pub enum InputKey {
    Left,
    Right,
    Up,
    Down,
    Wait,
}

/// The movement delta of an accepted key; waiting is the (0, 0) move, which
/// always succeeds and still invalidates the viewshed.
pub open spec fn key_delta(k: InputKey) -> (int, int) {
    match k {
        InputKey::Left => (-1, 0),
        InputKey::Right => (1, 0),
        InputKey::Up => (0, -1),
        InputKey::Down => (0, 1),
        InputKey::Wait => (0, 0),
    }
}

pub open spec fn clamp_spec(v: int, lo: int, hi: int) -> int {
    if v < lo {
        lo
    } else if v > hi {
        hi
    } else {
        v
    }
}

/// The player can move at all: there is a player entity and it has a
/// position and a viewshed.
pub open spec fn player_movable(ecs: Ecs) -> bool {
    &&& ecs.has_player()
    &&& ecs.positions@[ecs.player_index()] is Some
    &&& ecs.viewsheds@[ecs.player_index()] is Some
}

/// The destination of a move: the current position plus the delta, clamped
/// to the map.
pub open spec fn move_dest(ecs: Ecs, map: GameMap, dx: int, dy: int) -> (int, int) {
    let pos = ecs.positions@[ecs.player_index()].unwrap();
    (
        clamp_spec(pos.x + dx, 0, map.width - 1),
        clamp_spec(pos.y + dy, 0, map.height - 1),
    )
}

/// What one movement attempt does: onto a non-wall tile the player's
/// position becomes the clamped destination and its viewshed is marked
/// dirty with everything else kept; onto a wall, or with no movable player,
/// nothing at all changes.
pub open spec fn move_effect(old_ecs: Ecs, new_ecs: Ecs, map: GameMap, dx: int, dy: int) -> bool {
    &&& new_ecs.renderables == old_ecs.renderables
    &&& new_ecs.names == old_ecs.names
    &&& new_ecs.players == old_ecs.players
    &&& new_ecs.monsters == old_ecs.monsters
    &&& if player_movable(old_ecs) {
        let p = old_ecs.player_index();
        let d = move_dest(old_ecs, map, dx, dy);
        if map.tile_at(d.0, d.1) != TileType::Wall {
            &&& new_ecs.positions@ == old_ecs.positions@.update(
                p,
                Some(Position { x: d.0 as i32, y: d.1 as i32 }),
            )
            &&& new_ecs.viewsheds@.len() == old_ecs.viewsheds@.len()
            &&& forall|k: int|
                0 <= k < old_ecs.viewsheds@.len() && k != p ==> new_ecs.viewsheds@[k]
                    == old_ecs.viewsheds@[k]
            &&& new_ecs.viewsheds@[p] is Some
            &&& new_ecs.viewsheds@[p].unwrap().range == old_ecs.viewsheds@[p].unwrap().range
            &&& new_ecs.viewsheds@[p].unwrap().visible_tiles
                == old_ecs.viewsheds@[p].unwrap().visible_tiles
            &&& new_ecs.viewsheds@[p].unwrap().dirty
        } else {
            &&& new_ecs.positions == old_ecs.positions
            &&& new_ecs.viewsheds == old_ecs.viewsheds
        }
    } else {
        &&& new_ecs.positions == old_ecs.positions
        &&& new_ecs.viewsheds == old_ecs.viewsheds
    }
}

/// Resolve a player movement attempt against the map: step onto the clamped
/// destination tile unless it is a wall, and invalidate the viewshed on
/// success. A blocked move changes nothing: not the position, not the dirty
/// flag, not the computed visible set.
pub fn try_move_player(ecs: &mut Ecs, map: &GameMap, dx: i32, dy: i32)
    requires
        old(ecs).wf(),
        map.wf(),
        old(ecs).ranges_ok(),
        old(ecs).positions_in_bounds(*map),
        -1 <= dx <= 1,
        -1 <= dy <= 1,
    ensures
        final(ecs).wf(),
        final(ecs).ranges_ok(),
        final(ecs).positions_in_bounds(*map),
        move_effect(*old(ecs), *final(ecs), *map, dx as int, dy as int),
{
    let ghost oecs = *old(ecs);
    let n = ecs.len();
    let mut e: usize = 0;
    while e < n
        invariant
            oecs.wf(),
            map.wf(),
            oecs.ranges_ok(),
            oecs.positions_in_bounds(*map),
            -1 <= dx <= 1,
            -1 <= dy <= 1,
            n == oecs.num_entities(),
            e <= n,
            ecs.wf(),
            ecs.ranges_ok(),
            ecs.positions_in_bounds(*map),
            ecs.renderables == oecs.renderables,
            ecs.names == oecs.names,
            ecs.players == oecs.players,
            ecs.monsters == oecs.monsters,
            (player_movable(oecs) && oecs.player_index() < e) ==> move_effect(
                oecs,
                *ecs,
                *map,
                dx as int,
                dy as int,
            ),
            !(player_movable(oecs) && oecs.player_index() < e) ==> ecs.positions
                == oecs.positions && ecs.viewsheds == oecs.viewsheds,
        decreases n - e,
    {
        let is_player = ecs.players[e];
        let pos_opt = ecs.positions[e];
        let has_viewshed = ecs.viewsheds[e].is_some();
        if is_player && pos_opt.is_some() && has_viewshed {
            proof {
                assert(oecs.players@[e as int]);
                assert(oecs.has_player());
                assert(oecs.player_index() == e);
                assert(player_movable(oecs));
            }
            let pos = pos_opt.unwrap();
            let mut nx = pos.x + dx;
            if nx < 0 {
                nx = 0;
            }
            if nx > map.width - 1 {
                nx = map.width - 1;
            }
            let mut ny = pos.y + dy;
            if ny < 0 {
                ny = 0;
            }
            if ny > map.height - 1 {
                ny = map.height - 1;
            }
            proof {
                assert(nx as int == clamp_spec(pos.x + dx, 0, map.width - 1));
                assert(ny as int == clamp_spec(pos.y + dy, 0, map.height - 1));
            }
            let dest_idx = map.xy_idx(nx, ny);
            if map.tiles[dest_idx] != TileType::Wall {
                ecs.positions[e] = Some(Position { x: nx, y: ny });
                match &mut ecs.viewsheds[e] {
                    Some(v) => {
                        v.dirty = true;
                    },
                    None => {},
                }
            }
        }
        e = e + 1;
    }
}

/// Map one frame's input to the state machine: an accepted key resolves a
/// movement attempt and starts a running frame; no input keeps the game
/// paused. The runstate field itself is left for the tick to update.
pub fn player_input(gs: &mut State, key: Option<InputKey>) -> (rs: RunState)
    requires
        old(gs).wf(),
    ensures
        final(gs).wf(),
        final(gs).map == old(gs).map,
        final(gs).runstate == old(gs).runstate,
        rs == (if key is Some {
            RunState::Running
        } else {
            RunState::Paused
        }),
        match key {
            Some(k) => move_effect(
                old(gs).ecs,
                final(gs).ecs,
                old(gs).map,
                key_delta(k).0,
                key_delta(k).1,
            ),
            None => final(gs).ecs == old(gs).ecs,
        },
{
    match key {
        None => RunState::Paused,
        Some(k) => {
            match k {
                InputKey::Left => try_move_player(&mut gs.ecs, &gs.map, -1, 0),
                InputKey::Right => try_move_player(&mut gs.ecs, &gs.map, 1, 0),
                InputKey::Up => try_move_player(&mut gs.ecs, &gs.map, 0, -1),
                InputKey::Down => try_move_player(&mut gs.ecs, &gs.map, 0, 1),
                InputKey::Wait => try_move_player(&mut gs.ecs, &gs.map, 0, 0),
            }
            RunState::Running
        },
    }
}

} // verus!
