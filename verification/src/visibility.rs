use vstd::prelude::*;

use crate::map::{lemma_idx_bounds, lemma_idx_inj, GameMap, TileType};
use crate::reach::{gidx, in_grid};

verus! {

/// One step of the line walk: move one cell toward the target on this axis.
pub open spec fn step_toward(a: int, t: int) -> int {
    if a < t {
        a + 1
    } else if a > t {
        a - 1
    } else {
        a
    }
}

pub open spec fn abs_diff(a: int, b: int) -> int {
    if a < b {
        b - a
    } else {
        a - b
    }
}

/// Chebyshev distance: the number of steps the line walk takes.
pub open spec fn cheb_dist(x: int, y: int, tx: int, ty: int) -> int {
    if abs_diff(x, tx) < abs_diff(y, ty) {
        abs_diff(y, ty)
    } else {
        abs_diff(x, tx)
    }
}

/// Line of sight from (x, y) to (tx, ty): walk one cell per step toward the
/// target on both axes at once; sight is clear when no cell strictly between
/// the two endpoints is a wall. The endpoints themselves may be walls, so a
/// wall face is itself visible.
pub open spec fn los_clear(
    tiles: Seq<TileType>,
    width: int,
    x: int,
    y: int,
    tx: int,
    ty: int,
) -> bool
    decreases cheb_dist(x, y, tx, ty),
{
    if x == tx && y == ty {
        true
    } else {
        let nx = step_toward(x, tx);
        let ny = step_toward(y, ty);
        if nx == tx && ny == ty {
            true
        } else {
            tiles[gidx(width, nx, ny)] != TileType::Wall && los_clear(tiles, width, nx, ny, tx, ty)
        }
    }
}

/// Squared Euclidean distance between two cells.
pub open spec fn dist2(px: int, py: int, tx: int, ty: int) -> int {
    (tx - px) * (tx - px) + (ty - py) * (ty - py)
}

/// The visibility relation: a tile is visible from a viewer at (px, py) with
/// the given radius when it is on the grid, within Euclidean range, and in
/// clear line of sight.
pub open spec fn visible_from(
    tiles: Seq<TileType>,
    width: int,
    height: int,
    px: int,
    py: int,
    range: int,
    tx: int,
    ty: int,
) -> bool {
    &&& in_grid(width, height, tx, ty)
    &&& dist2(px, py, tx, ty) <= range * range
    &&& los_clear(tiles, width, px, py, tx, ty)
}

/// A viewer always sees its own tile: the distance is zero and the line walk
/// ends before it starts, whatever the grid holds.
pub proof fn lemma_zero_distance_visible(
    tiles: Seq<TileType>,
    width: int,
    height: int,
    px: int,
    py: int,
    range: int,
)
    requires
        in_grid(width, height, px, py),
        0 <= range,
    ensures
        visible_from(tiles, width, height, px, py, range, px, py),
{
    assert(dist2(px, py, px, py) == 0);
    assert(0 <= range * range) by (nonlinear_arith)
        requires
            0 <= range,
    ;
}

/// The visible set of a whole grid scan, as one sequence: the tile indices
/// below `n` that are visible, in increasing order.
pub open spec fn fov_upto(
    tiles: Seq<TileType>,
    width: int,
    height: int,
    px: int,
    py: int,
    range: int,
    n: int,
) -> Seq<usize>
    decreases n,
{
    if n <= 0 {
        Seq::<usize>::empty()
    } else {
        let prev = fov_upto(tiles, width, height, px, py, range, n - 1);
        if visible_from(tiles, width, height, px, py, range, (n - 1) % width, (n - 1) / width) {
            prev.push((n - 1) as usize)
        } else {
            prev
        }
    }
}

/// The visible-tile sequence for a viewer: a function of the grid, the
/// viewer's position and the radius alone, so recomputing it with nothing
/// changed always yields the same sequence.
pub open spec fn fov_seq(
    tiles: Seq<TileType>,
    width: int,
    height: int,
    px: int,
    py: int,
    range: int,
) -> Seq<usize> {
    fov_upto(tiles, width, height, px, py, range, width * height)
}

/// What the visible-tile sequence holds: exactly the indices of visible
/// tiles.
pub proof fn lemma_fov_upto_membership(
    tiles: Seq<TileType>,
    width: int,
    height: int,
    px: int,
    py: int,
    range: int,
    n: int,
)
    requires
        0 < width,
        n <= usize::MAX,
    ensures
        forall|u: usize|
            #[trigger] fov_upto(tiles, width, height, px, py, range, n).contains(u) <==> (0 <= u
                < n && visible_from(
                tiles,
                width,
                height,
                px,
                py,
                range,
                u as int % width,
                u as int / width,
            )),
    decreases n,
{
    if n <= 0 {
        assert forall|u: usize|
            #[trigger] fov_upto(tiles, width, height, px, py, range, n).contains(
                u,
            ) implies false by {
            let s = fov_upto(tiles, width, height, px, py, range, n);
            let k = choose|k: int| 0 <= k < s.len() && s[k] == u;
        }
    } else {
        lemma_fov_upto_membership(tiles, width, height, px, py, range, n - 1);
        let prev = fov_upto(tiles, width, height, px, py, range, n - 1);
        let cur = fov_upto(tiles, width, height, px, py, range, n);
        assert(cur == if visible_from(tiles, width, height, px, py, range, (n - 1) % width, (n - 1)
            / width) {
            prev.push((n - 1) as usize)
        } else {
            prev
        });
        assert forall|u: usize| #[trigger] cur.contains(u) implies (0 <= u < n && visible_from(
            tiles,
            width,
            height,
            px,
            py,
            range,
            u as int % width,
            u as int / width,
        )) by {
            let k = choose|k: int| 0 <= k < cur.len() && cur[k] == u;
            if k < prev.len() {
                assert(prev[k] == u);
                assert(prev.contains(u));
            } else {
                assert(u == (n - 1) as usize);
            }
        }
        assert forall|u: usize|
            (0 <= u < n && visible_from(
                tiles,
                width,
                height,
                px,
                py,
                range,
                u as int % width,
                u as int / width,
            )) implies #[trigger] cur.contains(u) by {
            if u < n - 1 {
                assert(prev.contains(u));
                let k = choose|k: int| 0 <= k < prev.len() && prev[k] == u;
                assert(cur[k] == u);
            } else {
                assert(cur[cur.len() - 1] == u);
            }
        }
    }
}

/// The visible-tile sequence is strictly increasing, so it holds no
/// duplicate indices.
pub proof fn lemma_fov_upto_sorted(
    tiles: Seq<TileType>,
    width: int,
    height: int,
    px: int,
    py: int,
    range: int,
    n: int,
)
    requires
        n <= usize::MAX,
    ensures
        forall|i: int, j: int|
            0 <= i < j < fov_upto(tiles, width, height, px, py, range, n).len() ==> fov_upto(
                tiles,
                width,
                height,
                px,
                py,
                range,
                n,
            )[i] < fov_upto(tiles, width, height, px, py, range, n)[j],
        forall|i: int|
            0 <= i < fov_upto(tiles, width, height, px, py, range, n).len() ==> fov_upto(
                tiles,
                width,
                height,
                px,
                py,
                range,
                n,
            )[i] < n,
    decreases n,
{
    if n > 0 {
        lemma_fov_upto_sorted(tiles, width, height, px, py, range, n - 1);
        let prev = fov_upto(tiles, width, height, px, py, range, n - 1);
        let cur = fov_upto(tiles, width, height, px, py, range, n);
        assert(cur == if visible_from(tiles, width, height, px, py, range, (n - 1) % width, (n - 1)
            / width) {
            prev.push((n - 1) as usize)
        } else {
            prev
        });
        assert forall|i: int, j: int| 0 <= i < j < cur.len() implies cur[i] < cur[j] by {
            if j < prev.len() {
                assert(cur[i] == prev[i] && cur[j] == prev[j]);
            } else if j == prev.len() && cur.len() == prev.len() + 1 {
                assert(cur[i] == prev[i]);
                assert(prev[i] < n - 1);
            }
        }
    }
}

/// Whether one tile is visible from a viewer position, walking the sight
/// line cell by cell.
pub fn tile_visible(map: &GameMap, px: i32, py: i32, tx: i32, ty: i32, range: i32) -> (r: bool)
    requires
        map.wf(),
        map.spec_in_bounds(px as int, py as int),
        map.spec_in_bounds(tx as int, ty as int),
        0 <= range <= 4096,
    ensures
        r == visible_from(
            map.tiles@,
            map.width as int,
            map.height as int,
            px as int,
            py as int,
            range as int,
            tx as int,
            ty as int,
        ),
{
    let gw = map.width;
    let dx = tx - px;
    let dy = ty - py;
    proof {
        assert(dx * dx <= 4096 * 4096 && dy * dy <= 4096 * 4096 && dx * dx >= 0 && dy * dy >= 0
            && range * range <= 4096 * 4096 && range * range >= 0) by (nonlinear_arith)
            requires
                -4096 <= dx <= 4096,
                -4096 <= dy <= 4096,
                0 <= range <= 4096,
        ;
    }
    if dx * dx + dy * dy > range * range {
        return false;
    }
    let mut x = px;
    let mut y = py;
    while !(x == tx && y == ty)
        invariant
            map.wf(),
            map.spec_in_bounds(tx as int, ty as int),
            map.spec_in_bounds(x as int, y as int),
            dist2(px as int, py as int, tx as int, ty as int) <= range * range,
            los_clear(map.tiles@, map.width as int, px as int, py as int, tx as int, ty as int)
                == los_clear(
                map.tiles@,
                map.width as int,
                x as int,
                y as int,
                tx as int,
                ty as int,
            ),
        decreases cheb_dist(x as int, y as int, tx as int, ty as int),
    {
        let nx = if x < tx {
            x + 1
        } else if x > tx {
            x - 1
        } else {
            x
        };
        let ny = if y < ty {
            y + 1
        } else if y > ty {
            y - 1
        } else {
            y
        };
        proof {
            assert(nx as int == step_toward(x as int, tx as int));
            assert(ny as int == step_toward(y as int, ty as int));
        }
        if nx == tx && ny == ty {
            proof {
                assert(los_clear(
                    map.tiles@,
                    map.width as int,
                    x as int,
                    y as int,
                    tx as int,
                    ty as int,
                ));
            }
            return true;
        }
        let idx = map.xy_idx(nx, ny);
        if map.tiles[idx] == TileType::Wall {
            proof {
                assert(!los_clear(
                    map.tiles@,
                    map.width as int,
                    x as int,
                    y as int,
                    tx as int,
                    ty as int,
                ));
            }
            return false;
        }
        proof {
            assert(los_clear(
                map.tiles@,
                map.width as int,
                x as int,
                y as int,
                tx as int,
                ty as int,
            ) == los_clear(
                map.tiles@,
                map.width as int,
                nx as int,
                ny as int,
                tx as int,
                ty as int,
            ));
        }
        x = nx;
        y = ny;
    }
    proof {
        assert(los_clear(map.tiles@, map.width as int, x as int, y as int, tx as int, ty as int));
    }
    true
}


/// Compute the set of tile indices visible from a viewer, scanning the whole
/// grid in index order. The result is exactly `fov_seq` of the grid and the
/// viewer: the same map, position and radius always yield the same sequence.
pub fn recompute_visibility(map: &GameMap, px: i32, py: i32, range: i32) -> (vis: Vec<usize>)
    requires
        map.wf(),
        map.spec_in_bounds(px as int, py as int),
        0 <= range <= 4096,
    ensures
        vis@ == fov_seq(
            map.tiles@,
            map.width as int,
            map.height as int,
            px as int,
            py as int,
            range as int,
        ),
{
    let w = map.width as usize;
    let n = map.tiles.len();
    let mut vis: Vec<usize> = Vec::new();
    let mut idx: usize = 0;
    while idx < n
        invariant
            map.wf(),
            map.spec_in_bounds(px as int, py as int),
            0 <= range <= 4096,
            w == map.width as usize,
            n == map.tiles@.len(),
            idx <= n,
            vis@ == fov_upto(
                map.tiles@,
                map.width as int,
                map.height as int,
                px as int,
                py as int,
                range as int,
                idx as int,
            ),
        decreases n - idx,
    {
        let ghost gw = map.width as int;
        let ghost gh = map.height as int;
        proof {
            vstd::arithmetic::div_mod::lemma_fundamental_div_mod(idx as int, gw);
            vstd::arithmetic::div_mod::lemma_mod_bound(idx as int, gw);
            assert(idx / w == (idx as int) / gw && idx % w == (idx as int) % gw);
            assert((idx as int) / gw < gh) by (nonlinear_arith)
                requires
                    0 < gw,
                    idx < n,
                    n == gw * gh,
                    gw * ((idx as int) / gw) + (idx as int) % gw == idx as int,
                    0 <= (idx as int) % gw < gw,
            ;
        }
        let x = (idx % w) as i32;
        let y = (idx / w) as i32;
        if tile_visible(map, px, py, x, y, range) {
            vis.push(idx);
        }
        proof {
            assert(fov_upto(map.tiles@, gw, gh, px as int, py as int, range as int, idx + 1) == (
            if visible_from(
                map.tiles@,
                gw,
                gh,
                px as int,
                py as int,
                range as int,
                (idx as int) % gw,
                (idx as int) / gw,
            ) {
                fov_upto(map.tiles@, gw, gh, px as int, py as int, range as int, idx as int).push(
                    idx,
                )
            } else {
                fov_upto(map.tiles@, gw, gh, px as int, py as int, range as int, idx as int)
            }));
        }
        idx = idx + 1;
    }
    proof {
        assert(n == (map.width as int) * (map.height as int));
    }
    vis
}


/// Recomputing visibility with an unchanged map, position and radius always
/// produces the same visible-tile sequence: any two results of
/// `recompute_visibility` on equal inputs are equal.
pub proof fn lemma_recompute_deterministic(
    map: &GameMap,
    px: i32,
    py: i32,
    range: i32,
    v1: Vec<usize>,
    v2: Vec<usize>,
)
    requires
        call_ensures(recompute_visibility, (map, px, py, range), v1),
        call_ensures(recompute_visibility, (map, px, py, range), v2),
    ensures
        v1@ == v2@,
{
}

} // verus!
