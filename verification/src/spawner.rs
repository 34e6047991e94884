use vstd::prelude::*;
use vstd::string::StringExecFns;

use crate::components::{Color, Ecs};
use crate::map::GameMap;
use crate::rect::lemma_center_margins;
use crate::rng::roll_dice;
use crate::text::{dec_digits, push_decimal};

verus! {

/// What populating one room leaves behind at entity index `e`: a monster at
/// the room's center with a dirty viewshed of radius 8, drawn in green on
/// black, and one of the two monster archetypes with its numbered label.
pub open spec fn monster_spawned(ecs: Ecs, room: crate::rect::Rect, e: int, number: int) -> bool {
    &&& ecs.positions@[e] == Some(
        crate::components::Position {
            x: room.spec_center().0 as i32,
            y: room.spec_center().1 as i32,
        },
    )
    &&& ecs.monsters@[e]
    &&& !ecs.players@[e]
    &&& ecs.viewsheds@[e] is Some
    &&& ecs.viewsheds@[e].unwrap().visible_tiles@ == Seq::<usize>::empty()
    &&& ecs.viewsheds@[e].unwrap().range == 8
    &&& ecs.viewsheds@[e].unwrap().dirty
    &&& ecs.renderables@[e] is Some
    &&& ecs.renderables@[e].unwrap().fg == (Color { r: 0, g: 255, b: 0 })
    &&& ecs.renderables@[e].unwrap().bg == (Color { r: 0, g: 0, b: 0 })
    &&& ecs.names@[e] is Some
    &&& ((ecs.renderables@[e].unwrap().glyph == 'x' && ecs.names@[e].unwrap().name@ == "Small x #"@
        + dec_digits(number)) || (ecs.renderables@[e].unwrap().glyph == 'X'
        && ecs.names@[e].unwrap().name@ == "Big X #"@ + dec_digits(number)))
}

/// The number of monsters this pass creates: one per room after the first.
pub open spec fn spawn_count(map: GameMap) -> int {
    if map.rooms@.len() >= 1 {
        map.rooms@.len() - 1
    } else {
        0
    }
}

/// Place one monster at the center of every room but the first: mostly the
/// small archetype, sometimes the big one, each labelled with its number.
pub fn populate_rooms(ecs: &mut Ecs, map: &GameMap, rng: &mut rltk::RandomNumberGenerator)
    requires
        old(ecs).wf(),
        map.wf(),
        map.rooms_wf(),
        old(ecs).ranges_ok(),
        old(ecs).positions_in_bounds(*map),
        old(ecs).num_entities() + map.rooms@.len() <= usize::MAX,
        map.rooms@.len() <= u32::MAX,
    ensures
        final(ecs).wf(),
        final(ecs).ranges_ok(),
        final(ecs).positions_in_bounds(*map),
        final(ecs).num_entities() == old(ecs).num_entities() + spawn_count(*map),
        final(ecs).has_player() == old(ecs).has_player(),
        old(ecs).has_player() ==> final(ecs).player_index() == old(ecs).player_index(),
        forall|k: int|
            0 <= k < old(ecs).num_entities() ==> final(ecs).positions@[k] == old(ecs).positions@[k]
                && final(ecs).renderables@[k] == old(ecs).renderables@[k]
                && final(ecs).viewsheds@[k] == old(ecs).viewsheds@[k]
                && final(ecs).names@[k] == old(ecs).names@[k]
                && final(ecs).players@[k] == old(ecs).players@[k]
                && final(ecs).monsters@[k] == old(ecs).monsters@[k],
        forall|j: int|
            0 <= j < spawn_count(*map) ==> #[trigger] monster_spawned(
                *final(ecs),
                map.rooms@[j + 1],
                old(ecs).num_entities() + j,
                j,
            ),
{
    let ghost oecs = *old(ecs);
    let nrooms = map.rooms.len();
    let mut k: usize = 1;
    while k < nrooms
        invariant
            oecs.wf(),
            map.wf(),
            map.rooms_wf(),
            oecs.ranges_ok(),
            oecs.positions_in_bounds(*map),
            oecs.num_entities() + map.rooms@.len() <= usize::MAX,
            map.rooms@.len() <= u32::MAX,
            nrooms == map.rooms@.len(),
            1 <= k,
            k <= nrooms || k == 1,
            ecs.wf(),
            ecs.ranges_ok(),
            ecs.positions_in_bounds(*map),
            ecs.num_entities() == oecs.num_entities() + k - 1,
            ecs.has_player() == oecs.has_player(),
            oecs.has_player() ==> ecs.player_index() == oecs.player_index(),
            forall|i: int|
                0 <= i < oecs.num_entities() ==> ecs.positions@[i] == oecs.positions@[i]
                    && ecs.renderables@[i] == oecs.renderables@[i] && ecs.viewsheds@[i]
                    == oecs.viewsheds@[i] && ecs.names@[i] == oecs.names@[i] && ecs.players@[i]
                    == oecs.players@[i] && ecs.monsters@[i] == oecs.monsters@[i],
            forall|j: int|
                0 <= j < k - 1 ==> #[trigger] monster_spawned(
                    *ecs,
                    map.rooms@[j + 1],
                    oecs.num_entities() + j,
                    j,
                ),
        decreases nrooms - k,
    {
        let ghost ecs0 = *ecs;
        let (cx, cy) = map.rooms[k].center();
        proof {
            lemma_center_margins(map.rooms@[k as int]);
        }
        let roll = roll_dice(rng, 1, 10);
        let glyph: char;
        let mut label: String;
        if roll <= 8 {
            glyph = 'x';
            label = "Small x #".to_owned();
            proof {
                reveal_strlit("Small x #");
            }
        } else {
            glyph = 'X';
            label = "Big X #".to_owned();
            proof {
                reveal_strlit("Big X #");
            }
        }
        push_decimal(&mut label, (k - 1) as u32);
        ecs.create_monster(
            cx,
            cy,
            glyph,
            Color { r: 0, g: 255, b: 0 },
            Color { r: 0, g: 0, b: 0 },
            label,
        );
        proof {
            assert forall|j: int|
                0 <= j < k as int implies #[trigger] monster_spawned(
                *ecs,
                map.rooms@[j + 1],
                oecs.num_entities() + j,
                j,
            ) by {
                if j < k - 1 {
                    assert(monster_spawned(ecs0, map.rooms@[j + 1], oecs.num_entities() + j, j));
                } else {
                    let e = oecs.num_entities() + j;
                    assert(e == ecs0.num_entities());
                    assert((k - 1) as u32 as int == k - 1);
                    assert(ecs.positions@[e] == ecs0.positions@.push(
                        Some(crate::components::Position { x: cx, y: cy }),
                    )[e]);
                    assert(ecs.names@[e].unwrap().name@ == (if roll <= 8 {
                        "Small x #"@ + dec_digits(j)
                    } else {
                        "Big X #"@ + dec_digits(j)
                    }));
                }
            }
        }
        k = k + 1;
    }
}

} // verus!
