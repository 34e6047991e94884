use vstd::prelude::*;

use crate::components::{Color, Ecs};
use crate::map::GameMap;
use crate::map::TileType;
use crate::monster_ai_system::{reactions_upto, run_monster_ai};
use crate::player::{key_delta, move_effect, player_input, InputKey};
use crate::visibility_system::{run_visibility_system, visibility_pass_effect};

verus! {

/// The two phases of the frame loop: waiting for input, or running one
/// system pass.
#[derive(PartialEq, Eq, Structural, Clone, Copy, Debug)]
pub enum RunState {
    Paused,
    Running,
}

/// The simulation context threaded through each tick: the map, the entity
/// store, and the paused/running state machine.
pub struct State {
    pub ecs: Ecs,
    pub map: GameMap,
    pub runstate: RunState,
}

/// One drawn map cell: a revealed tile's coordinates, its glyph, and
/// whether it is currently visible (the renderer dims remembered tiles).
#[derive(PartialEq, Eq, Structural, Clone, Copy, Debug)]
pub struct DrawCell {
    pub x: i32,
    pub y: i32,
    pub glyph: char,
    pub visible: bool,
}

/// One drawn entity: its position, glyph and colours.
#[derive(PartialEq, Eq, Structural, Clone, Copy, Debug)]
pub struct EntityCell {
    pub x: i32,
    pub y: i32,
    pub glyph: char,
    pub fg: Color,
    pub bg: Color,
}

/// Everything one tick hands to the rendering glue: the map cells to draw,
/// the entities visible this frame, and the monsters' reaction labels.
pub struct Frame {
    pub map_cells: Vec<DrawCell>,
    pub entity_cells: Vec<EntityCell>,
    pub reactions: Vec<String>,
}

/// How one revealed tile is drawn: floor as '.', wall as '#'.
pub open spec fn draw_cell_at(map: GameMap, idx: int) -> DrawCell {
    DrawCell {
        x: (idx % (map.width as int)) as i32,
        y: (idx / (map.width as int)) as i32,
        glyph: if map.tiles@[idx] == TileType::Floor {
            '.'
        } else {
            '#'
        },
        visible: map.visible_tiles@[idx],
    }
}

/// The draw commands for the revealed tiles among the first `n`, in index
/// order.
pub open spec fn draw_map_upto(map: GameMap, n: int) -> Seq<DrawCell>
    decreases n,
{
    if n <= 0 {
        Seq::<DrawCell>::empty()
    } else {
        let prev = draw_map_upto(map, n - 1);
        if map.revealed_tiles@[n - 1] {
            prev.push(draw_cell_at(map, n - 1))
        } else {
            prev
        }
    }
}

/// Produce the draw commands for the map: one cell per revealed tile, in
/// index order, with the tile's glyph and its this-frame visibility.
pub fn draw_map(map: &GameMap) -> (cells: Vec<DrawCell>)
    requires
        map.wf(),
    ensures
        cells@ == draw_map_upto(*map, map.tiles@.len() as int),
{
    let n = map.tiles.len();
    let w = map.width as usize;
    let mut cells: Vec<DrawCell> = Vec::new();
    let mut idx: usize = 0;
    while idx < n
        invariant
            map.wf(),
            n == map.tiles@.len(),
            w == map.width as usize,
            idx <= n,
            cells@ == draw_map_upto(*map, idx as int),
        decreases n - idx,
    {
        proof {
            vstd::arithmetic::div_mod::lemma_fundamental_div_mod(idx as int, map.width as int);
            vstd::arithmetic::div_mod::lemma_mod_bound(idx as int, map.width as int);
            assert((idx as int) / (map.width as int) < map.height as int) by (nonlinear_arith)
                requires
                    0 < map.width,
                    idx < n,
                    n == map.width * map.height,
                    (map.width as int) * ((idx as int) / (map.width as int)) + (idx as int) % (
                    map.width as int) == idx as int,
                    0 <= (idx as int) % (map.width as int) < map.width as int,
            ;
        }
        if map.revealed_tiles[idx] {
            let x = (idx % w) as i32;
            let y = (idx / w) as i32;
            let glyph = if map.tiles[idx] == TileType::Floor {
                '.'
            } else {
                '#'
            };
            let cell = DrawCell { x, y, glyph, visible: map.visible_tiles[idx] };
            proof {
                assert(cell == draw_cell_at(*map, idx as int));
            }
            cells.push(cell);
        }
        proof {
            assert(draw_map_upto(*map, idx + 1) == if map.revealed_tiles@[idx as int] {
                draw_map_upto(*map, idx as int).push(draw_cell_at(*map, idx as int))
            } else {
                draw_map_upto(*map, idx as int)
            });
        }
        idx = idx + 1;
    }
    cells
}

/// Whether an entity is drawn: it has a position and an appearance, and its
/// tile is visible this frame.
pub open spec fn entity_drawn(ecs: Ecs, map: GameMap, e: int) -> bool {
    &&& ecs.positions@[e] is Some
    &&& ecs.renderables@[e] is Some
    &&& map.visible_tiles@[crate::reach::gidx(
        map.width as int,
        ecs.positions@[e].unwrap().x as int,
        ecs.positions@[e].unwrap().y as int,
    )]
}

pub open spec fn entity_cell_at(ecs: Ecs, e: int) -> EntityCell {
    let pos = ecs.positions@[e].unwrap();
    let r = ecs.renderables@[e].unwrap();
    EntityCell { x: pos.x, y: pos.y, glyph: r.glyph, fg: r.fg, bg: r.bg }
}

/// The draw commands for the visible entities among the first `n`, in
/// entity order.
pub open spec fn entity_cells_upto(ecs: Ecs, map: GameMap, n: int) -> Seq<EntityCell>
    decreases n,
{
    if n <= 0 {
        Seq::<EntityCell>::empty()
    } else {
        let prev = entity_cells_upto(ecs, map, n - 1);
        if entity_drawn(ecs, map, n - 1) {
            prev.push(entity_cell_at(ecs, n - 1))
        } else {
            prev
        }
    }
}

/// Produce the draw commands for the entities whose tile the player
/// currently sees.
pub fn render_entities(ecs: &Ecs, map: &GameMap) -> (cells: Vec<EntityCell>)
    requires
        ecs.wf(),
        map.wf(),
        ecs.positions_in_bounds(*map),
    ensures
        cells@ == entity_cells_upto(*ecs, *map, ecs.num_entities()),
{
    let n = ecs.len();
    let mut cells: Vec<EntityCell> = Vec::new();
    let mut e: usize = 0;
    while e < n
        invariant
            ecs.wf(),
            map.wf(),
            ecs.positions_in_bounds(*map),
            n == ecs.num_entities(),
            e <= n,
            cells@ == entity_cells_upto(*ecs, *map, e as int),
        decreases n - e,
    {
        let pos_opt = ecs.positions[e];
        let rend_opt = ecs.renderables[e];
        if pos_opt.is_some() && rend_opt.is_some() {
            let pos = pos_opt.unwrap();
            let r = rend_opt.unwrap();
            let idx = map.xy_idx(pos.x, pos.y);
            if map.visible_tiles[idx] {
                cells.push(EntityCell { x: pos.x, y: pos.y, glyph: r.glyph, fg: r.fg, bg: r.bg });
            }
        }
        proof {
            assert(entity_cells_upto(*ecs, *map, e + 1) == if entity_drawn(*ecs, *map, e as int) {
                entity_cells_upto(*ecs, *map, e as int).push(entity_cell_at(*ecs, e as int))
            } else {
                entity_cells_upto(*ecs, *map, e as int)
            });
        }
        e = e + 1;
    }
    cells
}

impl State {
    /// The context is consistent: both halves are well formed, every stored
    /// position lies on the map, and every viewshed radius fits it.
    pub open spec fn wf(self) -> bool {
        &&& self.ecs.wf()
        &&& self.map.wf()
        &&& self.ecs.ranges_ok()
        &&& self.ecs.positions_in_bounds(self.map)
    }

    /// One system pass: the visibility pass, then the monster-reaction
    /// pass over the fresh visibility.
    pub fn run_systems(&mut self) -> (reactions: Vec<String>)
        requires
            old(self).wf(),
        ensures
            final(self).wf(),
            final(self).runstate == old(self).runstate,
            visibility_pass_effect(old(self).ecs, old(self).map, final(self).ecs, final(self).map),
            reactions@.map_values(|s: String| s@) == reactions_upto(
                final(self).ecs,
                final(self).map,
                final(self).ecs.num_entities(),
            ),
    {
        run_visibility_system(&mut self.ecs, &mut self.map);
        run_monster_ai(&self.ecs, &self.map)
    }

    /// One frame: a running frame executes the system pass and pauses; a
    /// paused frame maps the input to a movement attempt and resumes on any
    /// accepted key. Either way the frame ends with the draw commands for
    /// the map and the visible entities, and the reaction labels of a
    /// running frame.
    pub fn tick(&mut self, key: Option<InputKey>) -> (frame: Frame)
        requires
            old(self).wf(),
        ensures
            final(self).wf(),
            // a tile once revealed stays revealed, whatever the frame does
            final(self).map.revealed_tiles@.len() == old(self).map.revealed_tiles@.len(),
            forall|i: int|
                0 <= i < old(self).map.revealed_tiles@.len() && old(self).map.revealed_tiles@[i]
                    ==> final(self).map.revealed_tiles@[i],
            old(self).runstate == RunState::Running ==> {
                &&& final(self).runstate == RunState::Paused
                &&& visibility_pass_effect(
                    old(self).ecs,
                    old(self).map,
                    final(self).ecs,
                    final(self).map,
                )
                &&& frame.reactions@.map_values(|s: String| s@) == reactions_upto(
                    final(self).ecs,
                    final(self).map,
                    final(self).ecs.num_entities(),
                )
            },
            old(self).runstate == RunState::Paused ==> {
                &&& final(self).map == old(self).map
                &&& final(self).runstate == (if key is Some {
                    RunState::Running
                } else {
                    RunState::Paused
                })
                &&& (match key {
                    Some(k) => move_effect(
                        old(self).ecs,
                        final(self).ecs,
                        old(self).map,
                        key_delta(k).0,
                        key_delta(k).1,
                    ),
                    None => final(self).ecs == old(self).ecs,
                })
                &&& frame.reactions@.len() == 0
            },
            frame.map_cells@ == draw_map_upto(final(self).map, final(self).map.tiles@.len() as int),
            frame.entity_cells@ == entity_cells_upto(
                final(self).ecs,
                final(self).map,
                final(self).ecs.num_entities(),
            ),
    {
        let mut reactions: Vec<String> = Vec::new();
        if self.runstate == RunState::Running {
            reactions = self.run_systems();
            self.runstate = RunState::Paused;
        } else {
            self.runstate = player_input(self, key);
        }
        let map_cells = draw_map(&self.map);
        let entity_cells = render_entities(&self.ecs, &self.map);
        Frame { map_cells, entity_cells, reactions }
    }
}


/// Build a fresh game: generate the dungeon, place one monster in every
/// room but the first, put the player at the first room's center, and start
/// with a running frame so the first tick computes visibility.
pub fn new_game(width: i32, height: i32, rng: &mut rltk::RandomNumberGenerator) -> (gs: State)
    requires
        12 <= width <= 4096,
        12 <= height <= 4096,
    ensures
        gs.wf(),
        gs.runstate == RunState::Running,
        gs.map.width == width,
        gs.map.height == height,
        gs.map.rooms_wf(),
        gs.map.rooms_disjoint(),
        gs.map.rooms_carved(),
        gs.map.connected(),
        gs.map.borders_wall(),
        gs.map.unexplored(),
        1 <= gs.map.rooms@.len(),
        gs.ecs.num_entities() == gs.map.rooms@.len(),
        gs.ecs.has_player(),
        gs.ecs.player_index() == gs.ecs.num_entities() - 1,
        gs.ecs.positions@[gs.ecs.player_index()] == Some(
            crate::components::Position {
                x: gs.map.rooms@[0].spec_center().0 as i32,
                y: gs.map.rooms@[0].spec_center().1 as i32,
            },
        ),
        gs.ecs.viewsheds@[gs.ecs.player_index()] is Some,
        gs.ecs.viewsheds@[gs.ecs.player_index()].unwrap().dirty,
        gs.ecs.viewsheds@[gs.ecs.player_index()].unwrap().range == 8,
        forall|j: int|
            0 <= j < gs.map.rooms@.len() - 1 ==> #[trigger] crate::spawner::monster_spawned(
                gs.ecs,
                gs.map.rooms@[j + 1],
                j,
                j,
            ),
{
    let map = GameMap::new_map_rooms(width, height, rng);
    let mut ecs = Ecs::new();
    let ghost ecs_empty = ecs;
    crate::spawner::populate_rooms(&mut ecs, &map, rng);
    let (px, py) = map.rooms[0].center();
    proof {
        crate::rect::lemma_center_margins(map.rooms@[0]);
    }
    let ghost ecs_mid = ecs;
    ecs.create_player(
        px,
        py,
        '@',
        Color { r: 255, g: 255, b: 0 },
        Color { r: 0, g: 0, b: 0 },
    );
    proof {
        assert forall|j: int|
            0 <= j < map.rooms@.len() - 1 implies #[trigger] crate::spawner::monster_spawned(
            ecs,
            map.rooms@[j + 1],
            j,
            j,
        ) by {
            assert(crate::spawner::monster_spawned(
                ecs_mid,
                map.rooms@[j + 1],
                ecs_empty.num_entities() + j,
                j,
            ));
            assert(ecs_empty.num_entities() + j == j);
            assert(ecs.positions@[j] == ecs_mid.positions@[j]);
            assert(ecs.renderables@[j] == ecs_mid.renderables@[j]);
            assert(ecs.viewsheds@[j] == ecs_mid.viewsheds@[j]);
            assert(ecs.names@[j] == ecs_mid.names@[j]);
            assert(ecs.players@[j] == ecs_mid.players@[j]);
            assert(ecs.monsters@[j] == ecs_mid.monsters@[j]);
        }
        assert forall|e: int|
            0 <= e < ecs.num_entities() && ecs.positions@[e] is Some implies map.spec_in_bounds(
            (#[trigger] ecs.positions@[e]).unwrap().x as int,
            ecs.positions@[e].unwrap().y as int,
        ) by {
            if e < ecs.num_entities() - 1 {
                assert(crate::spawner::monster_spawned(ecs, map.rooms@[e + 1], e, e));
                crate::rect::lemma_center_margins(map.rooms@[e + 1]);
            }
        }
    }
    State { ecs, map, runstate: RunState::Running }
}

} // verus!
