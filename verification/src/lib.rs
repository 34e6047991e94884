//! The simulation core of a turn-driven, grid-based dungeon game:
//! procedural room-and-corridor map generation, per-entity field of view
//! with remembered (revealed) and this-frame (visible) tile sets, player
//! movement against map collision, and monster reactions to being seen.
//! The outer frame loop, the display and the keyboard are external
//! collaborators: each tick takes at most one mapped key and returns the
//! draw commands and reaction labels for the glue code to emit.

mod components;
mod map;
mod monster_ai_system;
mod player;
mod reach;
mod rect;
mod rng;
mod spawner;
mod state;
mod text;
mod visibility;
mod visibility_system;

pub use components::Color;
pub use components::Ecs;
pub use components::Name;
pub use components::Position;
pub use components::Renderable;
pub use components::Viewshed;
pub use map::GameMap;
pub use map::TileType;
pub use monster_ai_system::run_monster_ai;
pub use player::player_input;
pub use player::try_move_player;
pub use player::InputKey;
pub use rect::Rect;
pub use spawner::populate_rooms;
pub use state::draw_map;
pub use state::new_game;
pub use state::render_entities;
pub use state::DrawCell;
pub use state::EntityCell;
pub use state::Frame;
pub use state::RunState;
pub use state::State;
pub use text::push_decimal;
pub use visibility::lemma_recompute_deterministic;
pub use visibility::lemma_zero_distance_visible;
pub use visibility::recompute_visibility;
pub use visibility::tile_visible;
pub use visibility_system::lemma_same_tile_visible;
pub use visibility_system::run_visibility_system;
