use vstd::prelude::*;

use crate::components::Ecs;
use crate::map::GameMap;
use crate::reach::gidx;

verus! {

/// Whether an entity reacts this frame: it is a monster with a position and
/// a label, standing on a tile the player currently sees.
pub open spec fn reacts(ecs: Ecs, map: GameMap, e: int) -> bool {
    &&& ecs.monsters@[e]
    &&& ecs.positions@[e] is Some
    &&& ecs.names@[e] is Some
    &&& map.visible_tiles@[gidx(
        map.width as int,
        ecs.positions@[e].unwrap().x as int,
        ecs.positions@[e].unwrap().y as int,
    )]
}

/// The labels of the reacting entities among the first `n`, in entity
/// order.
pub open spec fn reactions_upto(ecs: Ecs, map: GameMap, n: int) -> Seq<Seq<char>>
    decreases n,
{
    if n <= 0 {
        Seq::<Seq<char>>::empty()
    } else {
        let prev = reactions_upto(ecs, map, n - 1);
        if reacts(ecs, map, n - 1) {
            prev.push(ecs.names@[n - 1].unwrap().name@)
        } else {
            prev
        }
    }
}

/// The monster-reaction pass: collect the label of every monster standing
/// on a tile in the player's current visible set. The caller emits one
/// reaction message per label; this is the seed of the monsters' decision
/// loop.
pub fn run_monster_ai(ecs: &Ecs, map: &GameMap) -> (reactions: Vec<String>)
    requires
        ecs.wf(),
        map.wf(),
        ecs.positions_in_bounds(*map),
    ensures
        reactions@.map_values(|s: String| s@) == reactions_upto(*ecs, *map, ecs.num_entities()),
{
    let n = ecs.len();
    let mut reactions: Vec<String> = Vec::new();
    let mut e: usize = 0;
    while e < n
        invariant
            ecs.wf(),
            map.wf(),
            ecs.positions_in_bounds(*map),
            n == ecs.num_entities(),
            e <= n,
            reactions@.map_values(|s: String| s@) == reactions_upto(*ecs, *map, e as int),
        decreases n - e,
    {
        let ghost r0 = reactions@.map_values(|s: String| s@);
        let mut reacted = false;
        if ecs.monsters[e] {
            let pos_opt = ecs.positions[e];
            if let Some(pos) = pos_opt {
                match &ecs.names[e] {
                    Some(label) => {
                        let idx = map.xy_idx(pos.x, pos.y);
                        if map.visible_tiles[idx] {
                            reactions.push(label.name.clone());
                            reacted = true;
                            proof {
                                assert(reacts(*ecs, *map, e as int));
                            }
                        }
                    },
                    None => {},
                }
            }
        }
        proof {
            let r1 = reactions@.map_values(|s: String| s@);
            if reacted {
                assert(r1 =~= r0.push(ecs.names@[e as int].unwrap().name@));
            } else {
                assert(!reacts(*ecs, *map, e as int));
                assert(r1 =~= r0);
            }
            assert(reactions_upto(*ecs, *map, e + 1) == if reacts(*ecs, *map, e as int) {
                reactions_upto(*ecs, *map, e as int).push(ecs.names@[e as int].unwrap().name@)
            } else {
                reactions_upto(*ecs, *map, e as int)
            });
        }
        e = e + 1;
    }
    reactions
}

} // verus!
