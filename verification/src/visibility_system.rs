use vstd::prelude::*;

use crate::components::Ecs;
use crate::components::Viewshed;
use crate::map::GameMap;
use crate::visibility::{fov_seq, fov_upto, lemma_fov_upto_membership, lemma_fov_upto_sorted, recompute_visibility, visible_from};

verus! {

/// An entity whose field of view must be recomputed this pass: it has a
/// position and a viewshed, and the viewshed has been invalidated.
pub open spec fn entity_due(ecs: Ecs, e: int) -> bool {
    &&& ecs.positions@[e] is Some
    &&& ecs.viewsheds@[e] is Some
    &&& ecs.viewsheds@[e].unwrap().dirty
}

/// Whether this pass recomputes the player's field of view (and with it the
/// map's shared revealed/visible sets).
pub open spec fn player_due(ecs: Ecs) -> bool {
    ecs.has_player() && entity_due(ecs, ecs.player_index())
}

/// How one entity's viewshed looks after the pass: recomputed and clean if
/// it was due, untouched otherwise.
pub open spec fn viewshed_updated(old_ecs: Ecs, new_ecs: Ecs, map: GameMap, e: int) -> bool {
    if entity_due(old_ecs, e) {
        &&& new_ecs.viewsheds@[e] is Some
        &&& new_ecs.viewsheds@[e].unwrap().visible_tiles@ == fov_seq(
            map.tiles@,
            map.width as int,
            map.height as int,
            old_ecs.positions@[e].unwrap().x as int,
            old_ecs.positions@[e].unwrap().y as int,
            old_ecs.viewsheds@[e].unwrap().range as int,
        )
        &&& new_ecs.viewsheds@[e].unwrap().range == old_ecs.viewsheds@[e].unwrap().range
        &&& !new_ecs.viewsheds@[e].unwrap().dirty
    } else {
        new_ecs.viewsheds@[e] == old_ecs.viewsheds@[e]
    }
}

/// Set every tile's this-frame visibility flag to false.
fn clear_visible(map: &mut GameMap)
    requires
        old(map).wf(),
    ensures
        final(map).wf(),
        final(map).tiles == old(map).tiles,
        final(map).rooms == old(map).rooms,
        final(map).width == old(map).width,
        final(map).height == old(map).height,
        final(map).revealed_tiles == old(map).revealed_tiles,
        final(map).visible_tiles@.len() == old(map).visible_tiles@.len(),
        forall|i: int| 0 <= i < final(map).visible_tiles@.len() ==> !final(map).visible_tiles@[i],
{
    let n = map.visible_tiles.len();
    let mut i: usize = 0;
    while i < n
        invariant
            old(map).wf(),
            n == map.visible_tiles@.len(),
            i <= n,
            map.tiles == old(map).tiles,
            map.rooms == old(map).rooms,
            map.width == old(map).width,
            map.height == old(map).height,
            map.revealed_tiles == old(map).revealed_tiles,
            map.visible_tiles@.len() == old(map).visible_tiles@.len(),
            forall|k: int| 0 <= k < i ==> !map.visible_tiles@[k],
        decreases n - i,
    {
        map.visible_tiles[i] = false;
        i = i + 1;
    }
}

/// Mark every tile index in `vis` as revealed and currently visible.
fn apply_visible(map: &mut GameMap, vis: &Vec<usize>)
    requires
        old(map).wf(),
        forall|k: int| 0 <= k < vis@.len() ==> vis@[k] < old(map).tiles@.len(),
    ensures
        final(map).wf(),
        final(map).tiles == old(map).tiles,
        final(map).rooms == old(map).rooms,
        final(map).width == old(map).width,
        final(map).height == old(map).height,
        final(map).revealed_tiles@.len() == old(map).revealed_tiles@.len(),
        final(map).visible_tiles@.len() == old(map).visible_tiles@.len(),
        forall|i: usize|
            i < final(map).visible_tiles@.len() ==> final(map).visible_tiles@[i as int] == (old(
                map,
            ).visible_tiles@[i as int] || vis@.contains(i)),
        forall|i: usize|
            i < final(map).revealed_tiles@.len() ==> final(map).revealed_tiles@[i as int] == (old(
                map,
            ).revealed_tiles@[i as int] || vis@.contains(i)),
{
    let n = vis.len();
    let mut k: usize = 0;
    while k < n
        invariant
            old(map).wf(),
            map.wf(),
            n == vis@.len(),
            k <= n,
            forall|j: int| 0 <= j < vis@.len() ==> vis@[j] < old(map).tiles@.len(),
            map.tiles == old(map).tiles,
            map.rooms == old(map).rooms,
            map.width == old(map).width,
            map.height == old(map).height,
            map.revealed_tiles@.len() == old(map).revealed_tiles@.len(),
            map.visible_tiles@.len() == old(map).visible_tiles@.len(),
            forall|i: usize|
                i < map.visible_tiles@.len() ==> map.visible_tiles@[i as int] == (old(
                    map,
                ).visible_tiles@[i as int] || exists|j: int| 0 <= j < k && vis@[j] == i),
            forall|i: usize|
                i < map.revealed_tiles@.len() ==> map.revealed_tiles@[i as int] == (old(
                    map,
                ).revealed_tiles@[i as int] || exists|j: int| 0 <= j < k && vis@[j] == i),
        decreases n - k,
    {
        let idx = vis[k];
        map.revealed_tiles[idx] = true;
        map.visible_tiles[idx] = true;
        proof {
            assert forall|i: usize|
                i < map.visible_tiles@.len() implies map.visible_tiles@[i as int] == (old(
                map,
            ).visible_tiles@[i as int] || exists|j: int| 0 <= j < k + 1 && vis@[j] == i) by {
                if i == idx {
                    assert(vis@[k as int] == i);
                } else {
                    assert((exists|j: int| 0 <= j < k + 1 && vis@[j] == i) == (exists|j: int|
                        0 <= j < k && vis@[j] == i));
                }
            }
            assert forall|i: usize|
                i < map.revealed_tiles@.len() implies map.revealed_tiles@[i as int] == (old(
                map,
            ).revealed_tiles@[i as int] || exists|j: int| 0 <= j < k + 1 && vis@[j] == i) by {
                if i == idx {
                    assert(vis@[k as int] == i);
                } else {
                    assert((exists|j: int| 0 <= j < k + 1 && vis@[j] == i) == (exists|j: int|
                        0 <= j < k && vis@[j] == i));
                }
            }
        }
        k = k + 1;
    }
    proof {
        assert forall|i: usize|
            i < map.visible_tiles@.len() implies map.visible_tiles@[i as int] == (old(
            map,
        ).visible_tiles@[i as int] || vis@.contains(i)) by {
            if exists|j: int| 0 <= j < n && vis@[j] == i {
                let j = choose|j: int| 0 <= j < n && vis@[j] == i;
                assert(vis@.contains(i));
            } else if vis@.contains(i) {
                let j = choose|j: int| 0 <= j < vis@.len() && vis@[j] == i;
                assert(0 <= j < n && vis@[j] == i);
            }
        }
        assert forall|i: usize|
            i < map.revealed_tiles@.len() implies map.revealed_tiles@[i as int] == (old(
            map,
        ).revealed_tiles@[i as int] || vis@.contains(i)) by {
            if exists|j: int| 0 <= j < n && vis@[j] == i {
                let j = choose|j: int| 0 <= j < n && vis@[j] == i;
                assert(vis@.contains(i));
            } else if vis@.contains(i) {
                let j = choose|j: int| 0 <= j < vis@.len() && vis@[j] == i;
                assert(0 <= j < n && vis@[j] == i);
            }
        }
    }
}


/// One visibility pass: recompute the viewshed of every invalidated entity
/// and, where that entity is the player, rebuild the map's shared
/// this-frame visible set and grow its revealed set. An entity whose
/// viewshed is clean is not recomputed, so a frame in which nothing moved
/// recomputes nothing.
/// Everything one visibility pass does, relating the store and map before
/// the pass to their values after it: each due viewshed recomputed, the
/// revealed set grown exactly by the player's fresh view, the visible set
/// rebuilt from it, and everything else untouched.
pub open spec fn visibility_pass_effect(
    old_ecs: Ecs,
    old_map: GameMap,
    new_ecs: Ecs,
    new_map: GameMap,
) -> bool {
    &&& new_ecs.positions == old_ecs.positions
    &&& new_ecs.renderables == old_ecs.renderables
    &&& new_ecs.names == old_ecs.names
    &&& new_ecs.players == old_ecs.players
    &&& new_ecs.monsters == old_ecs.monsters
    &&& new_ecs.viewsheds@.len() == old_ecs.viewsheds@.len()
    &&& new_map.tiles == old_map.tiles
    &&& new_map.rooms == old_map.rooms
    &&& new_map.width == old_map.width
    &&& new_map.height == old_map.height
    &&& new_map.revealed_tiles@.len() == old_map.revealed_tiles@.len()
    &&& new_map.visible_tiles@.len() == old_map.visible_tiles@.len()
    &&& forall|e: int|
        0 <= e < old_ecs.num_entities() ==> viewshed_updated(old_ecs, new_ecs, old_map, e)
    // the revealed set only ever grows
    &&& forall|i: int|
        0 <= i < old_map.revealed_tiles@.len() && old_map.revealed_tiles@[i]
            ==> new_map.revealed_tiles@[i]
    // a tile visible this frame has been revealed
    &&& forall|i: int|
        0 <= i < new_map.visible_tiles@.len() && new_map.visible_tiles@[i]
            ==> new_map.revealed_tiles@[i]
    // the shared sets change only through the player's fresh view
    &&& !player_due(old_ecs) ==> new_map.visible_tiles == old_map.visible_tiles
        && new_map.revealed_tiles == old_map.revealed_tiles
    &&& player_due(old_ecs) ==> ({
        let p = old_ecs.player_index();
        let px = old_ecs.positions@[p].unwrap().x as int;
        let py = old_ecs.positions@[p].unwrap().y as int;
        let r = old_ecs.viewsheds@[p].unwrap().range as int;
        let gw = old_map.width as int;
        let gh = old_map.height as int;
        &&& forall|i: usize|
            i < new_map.visible_tiles@.len() ==> (new_map.visible_tiles@[i as int]
                <==> visible_from(old_map.tiles@, gw, gh, px, py, r, i as int % gw, i as int / gw))
        &&& forall|i: usize|
            i < new_map.revealed_tiles@.len() ==> (new_map.revealed_tiles@[i as int] == (
            old_map.revealed_tiles@[i as int] || visible_from(
                old_map.tiles@,
                gw,
                gh,
                px,
                py,
                r,
                i as int % gw,
                i as int / gw,
            )))
    })
}

#[verifier::rlimit(100)]
pub fn run_visibility_system(ecs: &mut Ecs, map: &mut GameMap)
    requires
        old(ecs).wf(),
        old(map).wf(),
        old(ecs).ranges_ok(),
        old(ecs).positions_in_bounds(*old(map)),
    ensures
        final(ecs).wf(),
        final(map).wf(),
        final(ecs).ranges_ok(),
        final(ecs).positions_in_bounds(*final(map)),
        visibility_pass_effect(*old(ecs), *old(map), *final(ecs), *final(map)),
{
    let ghost oecs = *old(ecs);
    let ghost omap = *old(map);
    let ghost gw = old(map).width as int;
    let ghost gh = old(map).height as int;
    let n = ecs.len();
    let mut e: usize = 0;
    while e < n
        invariant
            oecs.wf(),
            omap.wf(),
            oecs.ranges_ok(),
            oecs.positions_in_bounds(omap),
            gw == omap.width as int,
            gh == omap.height as int,
            n == oecs.num_entities(),
            e <= n,
            ecs.wf(),
            map.wf(),
            ecs.positions == oecs.positions,
            ecs.renderables == oecs.renderables,
            ecs.names == oecs.names,
            ecs.players == oecs.players,
            ecs.monsters == oecs.monsters,
            ecs.viewsheds@.len() == oecs.viewsheds@.len(),
            map.tiles == omap.tiles,
            map.rooms == omap.rooms,
            map.width == omap.width,
            map.height == omap.height,
            map.revealed_tiles@.len() == omap.revealed_tiles@.len(),
            map.visible_tiles@.len() == omap.visible_tiles@.len(),
            forall|k: int| 0 <= k < e ==> viewshed_updated(oecs, *ecs, omap, k),
            forall|k: int| e <= k < n ==> ecs.viewsheds@[k] == oecs.viewsheds@[k],
            forall|i: int|
                0 <= i < omap.revealed_tiles@.len() && omap.revealed_tiles@[i]
                    ==> map.revealed_tiles@[i],
            !(player_due(oecs) && oecs.player_index() < e) ==> map.visible_tiles
                == omap.visible_tiles && map.revealed_tiles == omap.revealed_tiles,
            (player_due(oecs) && oecs.player_index() < e) ==> ({
                let p = oecs.player_index();
                let px = oecs.positions@[p].unwrap().x as int;
                let py = oecs.positions@[p].unwrap().y as int;
                let r = oecs.viewsheds@[p].unwrap().range as int;
                &&& forall|i: usize|
                    i < map.visible_tiles@.len() ==> (map.visible_tiles@[i as int]
                        <==> visible_from(
                        omap.tiles@,
                        gw,
                        gh,
                        px,
                        py,
                        r,
                        i as int % gw,
                        i as int / gw,
                    ))
                &&& forall|i: usize|
                    i < map.revealed_tiles@.len() ==> (map.revealed_tiles@[i as int] == (
                    omap.revealed_tiles@[i as int] || visible_from(
                        omap.tiles@,
                        gw,
                        gh,
                        px,
                        py,
                        r,
                        i as int % gw,
                        i as int / gw,
                    )))
            }),
        decreases n - e,
    {
        let ghost ecs0 = *ecs;
        let pos_opt = ecs.positions[e];
        let mut is_due = false;
        let mut range: i32 = 0;
        match &ecs.viewsheds[e] {
            Some(v) => {
                is_due = v.dirty;
                range = v.range;
            },
            None => {},
        }
        if pos_opt.is_some() && is_due {
            let pos = pos_opt.unwrap();
            proof {
                assert(oecs.positions@[e as int] is Some);
                assert(omap.spec_in_bounds(pos.x as int, pos.y as int));
                assert(ecs.viewsheds@[e as int] == oecs.viewsheds@[e as int]);
                assert(oecs.viewsheds@[e as int] is Some);
                assert(range == oecs.viewsheds@[e as int].unwrap().range);
                assert(0 <= range <= 4096);
            }
            let vis = recompute_visibility(map, pos.x, pos.y, range);
            if ecs.players[e] {
                proof {
                    // the player tag is unique, so this entity is the player
                    assert(oecs.players@[e as int]);
                    assert(oecs.has_player());
                    assert(oecs.player_index() == e);
                    assert(player_due(oecs));
                    vstd::std_specs::vec::axiom_spec_len(&map.tiles);
                    assert(omap.tiles@.len() == gw * gh);
                    assert(gw * gh <= usize::MAX);
                    lemma_fov_upto_sorted(
                        omap.tiles@,
                        gw,
                        gh,
                        pos.x as int,
                        pos.y as int,
                        range as int,
                        gw * gh,
                    );
                    assert(omap.tiles@.len() == gw * gh);
                }
                clear_visible(map);
                let ghost m_cleared = *map;
                apply_visible(map, &vis);
                proof {
                    lemma_fov_upto_membership(
                        omap.tiles@,
                        gw,
                        gh,
                        pos.x as int,
                        pos.y as int,
                        range as int,
                        gw * gh,
                    );
                    let p = oecs.player_index();
                    let px = oecs.positions@[p].unwrap().x as int;
                    let py = oecs.positions@[p].unwrap().y as int;
                    let r = oecs.viewsheds@[p].unwrap().range as int;
                    assert(p == e && px == pos.x as int && py == pos.y as int && r
                        == range as int);
                    assert(m_cleared.revealed_tiles == omap.revealed_tiles);
                    assert(vis@ == fov_upto(omap.tiles@, gw, gh, px, py, r, gw * gh));
                    assert forall|i: usize|
                        i < map.visible_tiles@.len() implies (map.visible_tiles@[i as int]
                        <==> visible_from(
                        omap.tiles@,
                        gw,
                        gh,
                        px,
                        py,
                        r,
                        i as int % gw,
                        i as int / gw,
                    )) by {
                        assert(map.visible_tiles@[i as int] == (m_cleared.visible_tiles@[i as int]
                            || vis@.contains(i)));
                        assert(!m_cleared.visible_tiles@[i as int]);
                        assert(vis@.contains(i) == fov_upto(
                            omap.tiles@,
                            gw,
                            gh,
                            px,
                            py,
                            r,
                            gw * gh,
                        ).contains(i));
                        assert(i < gw * gh);
                    }
                    assert forall|i: usize|
                        i < map.revealed_tiles@.len() implies (map.revealed_tiles@[i as int] == (
                    omap.revealed_tiles@[i as int] || visible_from(
                        omap.tiles@,
                        gw,
                        gh,
                        px,
                        py,
                        r,
                        i as int % gw,
                        i as int / gw,
                    ))) by {
                        assert(vis@.contains(i) == fov_upto(
                            omap.tiles@,
                            gw,
                            gh,
                            px,
                            py,
                            r,
                            gw * gh,
                        ).contains(i));
                        assert(i < gw * gh);
                        assert(map.revealed_tiles@[i as int] == (m_cleared.revealed_tiles@[i as int]
                            || vis@.contains(i)));
                    }
                }
            }
            ecs.viewsheds[e] = Some(Viewshed { visible_tiles: vis, range, dirty: false });
            proof {
                if !(player_due(oecs) && oecs.player_index() == e) {
                    if player_due(oecs) {
                        // some other entity: the unique player tag rules it out
                        assert(!oecs.players@[e as int] || oecs.player_index() == e);
                    }
                }
            }
        }
        proof {
            assert forall|k: int| 0 <= k < e + 1 implies viewshed_updated(oecs, *ecs, omap, k) by {
                if k < e {
                    assert(ecs.viewsheds@[k] == ecs0.viewsheds@[k]);
                    assert(viewshed_updated(oecs, ecs0, omap, k));
                }
            }
        }
        e = e + 1;
    }
    proof {
        assert forall|k: int|
            0 <= k < ecs.num_entities() && ecs.viewsheds@[k] is Some implies 0 <= (
        #[trigger] ecs.viewsheds@[k]).unwrap().range <= 4096 by {
            assert(viewshed_updated(oecs, *ecs, omap, k));
            if entity_due(oecs, k) {
                assert(oecs.viewsheds@[k] is Some);
            } else {
                assert(ecs.viewsheds@[k] == oecs.viewsheds@[k]);
            }
        }
    }
}


/// A creature standing exactly on the player's tile is in the player's
/// visible set after any visibility pass that recomputed the player's view:
/// the zero-distance tile is always visible, whatever the grid holds.
pub proof fn lemma_same_tile_visible(
    old_ecs: Ecs,
    old_map: GameMap,
    new_ecs: Ecs,
    new_map: GameMap,
)
    requires
        old_ecs.wf(),
        old_map.wf(),
        old_ecs.positions_in_bounds(old_map),
        old_ecs.ranges_ok(),
        visibility_pass_effect(old_ecs, old_map, new_ecs, new_map),
        player_due(old_ecs),
    ensures
        ({
            let p = old_ecs.player_index();
            let px = old_ecs.positions@[p].unwrap().x as int;
            let py = old_ecs.positions@[p].unwrap().y as int;
            new_map.visible_tiles@[crate::reach::gidx(old_map.width as int, px, py)]
        }),
{
    let p = old_ecs.player_index();
    let px = old_ecs.positions@[p].unwrap().x as int;
    let py = old_ecs.positions@[p].unwrap().y as int;
    let r = old_ecs.viewsheds@[p].unwrap().range as int;
    let gw = old_map.width as int;
    let gh = old_map.height as int;
    let i = crate::reach::gidx(gw, px, py);
    crate::map::lemma_idx_bounds(gw, gh, px, py);
    vstd::arithmetic::div_mod::lemma_fundamental_div_mod_converse(i, gw, py, px);
    crate::visibility::lemma_zero_distance_visible(old_map.tiles@, gw, gh, px, py, r);
    assert(i < new_map.visible_tiles@.len()) by {
        assert(old_map.tiles@.len() == gw * gh);
        assert((gh * gw) == (gw * gh)) by (nonlinear_arith);
    }
    let iu = i as usize;
    assert(iu as int % gw == px && iu as int / gw == py);
    assert(new_map.visible_tiles@[iu as int] <==> visible_from(
        old_map.tiles@,
        gw,
        gh,
        px,
        py,
        r,
        iu as int % gw,
        iu as int / gw,
    ));
}

} // verus!
