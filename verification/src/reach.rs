use vstd::prelude::*;

use crate::map::{seg_max, seg_min, TileType};
use crate::rect::Rect;

verus! {

// Reachability over a tile grid, used to state and prove the generator's
// connectivity guarantee: a path is a nonempty sequence of in-bounds floor
// cells, each cardinally adjacent to its predecessor.

pub open spec fn in_grid(width: int, height: int, x: int, y: int) -> bool {
    0 <= x < width && 0 <= y < height
}

pub open spec fn gidx(width: int, x: int, y: int) -> int {
    y * width + x
}

pub open spec fn floor_at(tiles: Seq<TileType>, width: int, x: int, y: int) -> bool {
    tiles[gidx(width, x, y)] == TileType::Floor
}

pub open spec fn adjacent(a: (int, int), b: (int, int)) -> bool {
    ||| (a.0 == b.0 && (a.1 == b.1 + 1 || a.1 + 1 == b.1))
    ||| (a.1 == b.1 && (a.0 == b.0 + 1 || a.0 + 1 == b.0))
}

pub open spec fn path_ok(
    tiles: Seq<TileType>,
    width: int,
    height: int,
    p: Seq<(int, int)>,
) -> bool {
    &&& p.len() >= 1
    &&& forall|i: int|
        0 <= i < p.len() ==> in_grid(width, height, #[trigger] p[i].0, p[i].1) && floor_at(
            tiles,
            width,
            p[i].0,
            p[i].1,
        )
    &&& forall|i: int| 1 <= i < p.len() ==> adjacent(p[i - 1], #[trigger] p[i])
}

/// A floor cell `to` can be walked to from a floor cell `from`.
pub open spec fn reachable(
    tiles: Seq<TileType>,
    width: int,
    height: int,
    from: (int, int),
    to: (int, int),
) -> bool {
    exists|p: Seq<(int, int)>|
        path_ok(tiles, width, height, p) && p[0] == from && p[p.len() - 1] == to
}

/// Every floor cell reaches itself.
pub proof fn lemma_reach_self(
    tiles: Seq<TileType>,
    width: int,
    height: int,
    c: (int, int),
)
    requires
        in_grid(width, height, c.0, c.1),
        floor_at(tiles, width, c.0, c.1),
    ensures
        reachable(tiles, width, height, c, c),
{
    let p = seq![c];
    assert(path_ok(tiles, width, height, p) && p[0] == c && p[p.len() - 1] == c);
}

/// Reachability is transitive.
pub proof fn lemma_reach_trans(
    tiles: Seq<TileType>,
    width: int,
    height: int,
    a: (int, int),
    b: (int, int),
    c: (int, int),
)
    requires
        reachable(tiles, width, height, a, b),
        reachable(tiles, width, height, b, c),
    ensures
        reachable(tiles, width, height, a, c),
{
    let p1 = choose|p: Seq<(int, int)>|
        path_ok(tiles, width, height, p) && p[0] == a && p[p.len() - 1] == b;
    let p2 = choose|p: Seq<(int, int)>|
        path_ok(tiles, width, height, p) && p[0] == b && p[p.len() - 1] == c;
    let q = p1 + p2.skip(1);
    assert forall|i: int| 1 <= i < q.len() implies adjacent(q[i - 1], #[trigger] q[i]) by {
        if i < p1.len() {
            assert(q[i - 1] == p1[i - 1] && q[i] == p1[i]);
        } else if i == p1.len() {
            assert(q[i - 1] == p1[p1.len() - 1]);
            assert(q[i] == p2[1]);
            assert(adjacent(p2[0], p2[1]));
        } else {
            let j = i - p1.len() + 1;
            assert(q[i - 1] == p2[j - 1] && q[i] == p2[j]);
            assert(adjacent(p2[j - 1], p2[j]));
        }
    }
    assert forall|i: int|
        0 <= i < q.len() implies in_grid(width, height, #[trigger] q[i].0, q[i].1) && floor_at(
        tiles,
        width,
        q[i].0,
        q[i].1,
    ) by {
        if i < p1.len() {
            assert(q[i] == p1[i]);
        } else {
            let j = i - p1.len() + 1;
            assert(q[i] == p2[j]);
            assert(in_grid(width, height, p2[j].0, p2[j].1) && floor_at(
                tiles,
                width,
                p2[j].0,
                p2[j].1,
            ));
        }
    }
    assert(q[q.len() - 1] == c) by {
        if p2.len() == 1 {
            assert(q[q.len() - 1] == p1[p1.len() - 1]);
        } else {
            assert(q[q.len() - 1] == p2[p2.len() - 1]);
        }
    }
    assert(path_ok(tiles, width, height, q) && q[0] == a && q[q.len() - 1] == c);
}

/// Reachability extends by one step onto an adjacent floor cell.
pub proof fn lemma_reach_step(
    tiles: Seq<TileType>,
    width: int,
    height: int,
    a: (int, int),
    b: (int, int),
    c: (int, int),
)
    requires
        reachable(tiles, width, height, a, b),
        adjacent(b, c),
        in_grid(width, height, c.0, c.1),
        floor_at(tiles, width, c.0, c.1),
    ensures
        reachable(tiles, width, height, a, c),
{
    let p = choose|p: Seq<(int, int)>|
        path_ok(tiles, width, height, p) && p[0] == a && p[p.len() - 1] == b;
    let q = p.push(c);
    assert forall|i: int| 1 <= i < q.len() implies adjacent(q[i - 1], #[trigger] q[i]) by {
        if i < p.len() {
            assert(q[i - 1] == p[i - 1] && q[i] == p[i]);
        } else {
            assert(q[i - 1] == p[p.len() - 1] && q[i] == c);
        }
    }
    assert(path_ok(tiles, width, height, q) && q[0] == a && q[q.len() - 1] == c);
}

/// Turning more cells into floor never destroys reachability.
pub proof fn lemma_reach_mono(
    tiles1: Seq<TileType>,
    tiles2: Seq<TileType>,
    width: int,
    height: int,
    a: (int, int),
    b: (int, int),
)
    requires
        reachable(tiles1, width, height, a, b),
        forall|x: int, y: int|
            in_grid(width, height, x, y) && floor_at(tiles1, width, x, y) ==> floor_at(
                tiles2,
                width,
                x,
                y,
            ),
    ensures
        reachable(tiles2, width, height, a, b),
{
    let p = choose|p: Seq<(int, int)>|
        path_ok(tiles1, width, height, p) && p[0] == a && p[p.len() - 1] == b;
    assert forall|i: int|
        0 <= i < p.len() implies in_grid(width, height, #[trigger] p[i].0, p[i].1) && floor_at(
        tiles2,
        width,
        p[i].0,
        p[i].1,
    ) by {
        assert(in_grid(width, height, p[i].0, p[i].1) && floor_at(tiles1, width, p[i].0, p[i].1));
    }
    assert(path_ok(tiles2, width, height, p) && p[0] == a && p[p.len() - 1] == b);
}

/// Along a horizontal run of floor cells, any cell reaches any other.
pub proof fn lemma_reach_h(
    tiles: Seq<TileType>,
    width: int,
    height: int,
    y: int,
    lo: int,
    hi: int,
    x0: int,
    x1: int,
)
    requires
        lo <= x0 <= hi,
        lo <= x1 <= hi,
        forall|x: int|
            lo <= x <= hi ==> in_grid(width, height, x, y) && floor_at(tiles, width, x, y),
    ensures
        reachable(tiles, width, height, (x0, y), (x1, y)),
    decreases
            if x0 <= x1 {
                x1 - x0
            } else {
                x0 - x1
            },
{
    if x0 == x1 {
        lemma_reach_self(tiles, width, height, (x0, y));
    } else if x0 < x1 {
        lemma_reach_h(tiles, width, height, y, lo, hi, x0, x1 - 1);
        lemma_reach_step(tiles, width, height, (x0, y), (x1 - 1, y), (x1, y));
    } else {
        lemma_reach_h(tiles, width, height, y, lo, hi, x0, x1 + 1);
        lemma_reach_step(tiles, width, height, (x0, y), (x1 + 1, y), (x1, y));
    }
}

/// Along a vertical run of floor cells, any cell reaches any other.
pub proof fn lemma_reach_v(
    tiles: Seq<TileType>,
    width: int,
    height: int,
    x: int,
    lo: int,
    hi: int,
    y0: int,
    y1: int,
)
    requires
        lo <= y0 <= hi,
        lo <= y1 <= hi,
        forall|y: int|
            lo <= y <= hi ==> in_grid(width, height, x, y) && floor_at(tiles, width, x, y),
    ensures
        reachable(tiles, width, height, (x, y0), (x, y1)),
    decreases
            if y0 <= y1 {
                y1 - y0
            } else {
                y0 - y1
            },
{
    if y0 == y1 {
        lemma_reach_self(tiles, width, height, (x, y0));
    } else if y0 < y1 {
        lemma_reach_v(tiles, width, height, x, lo, hi, y0, y1 - 1);
        lemma_reach_step(tiles, width, height, (x, y0), (x, y1 - 1), (x, y1));
    } else {
        lemma_reach_v(tiles, width, height, x, lo, hi, y0, y1 + 1);
        lemma_reach_step(tiles, width, height, (x, y0), (x, y1 + 1), (x, y1));
    }
}

/// Inside a solid rectangle of floor cells, any cell reaches any other
/// (walk horizontally, then vertically).
pub proof fn lemma_reach_rect(
    tiles: Seq<TileType>,
    width: int,
    height: int,
    rx1: int,
    ry1: int,
    rx2: int,
    ry2: int,
    a: (int, int),
    b: (int, int),
)
    requires
        rx1 <= a.0 <= rx2,
        ry1 <= a.1 <= ry2,
        rx1 <= b.0 <= rx2,
        ry1 <= b.1 <= ry2,
        forall|x: int, y: int|
            rx1 <= x <= rx2 && ry1 <= y <= ry2 ==> in_grid(width, height, x, y) && floor_at(
                tiles,
                width,
                x,
                y,
            ),
    ensures
        reachable(tiles, width, height, a, b),
{
    assert forall|x: int|
        rx1 <= x <= rx2 implies in_grid(width, height, x, a.1) && floor_at(
        tiles,
        width,
        x,
        a.1,
    ) by {}
    lemma_reach_h(tiles, width, height, a.1, rx1, rx2, a.0, b.0);
    assert forall|y: int|
        ry1 <= y <= ry2 implies in_grid(width, height, b.0, y) && floor_at(
        tiles,
        width,
        b.0,
        y,
    ) by {}
    lemma_reach_v(tiles, width, height, b.0, ry1, ry2, a.1, b.1);
    lemma_reach_trans(tiles, width, height, a, (b.0, a.1), b);
}


/// After carving the first room into an all-wall grid, every floor cell is
/// reachable from the room's center.
pub proof fn lemma_connect_first(
    t_pre: Seq<TileType>,
    t2: Seq<TileType>,
    width: int,
    height: int,
    room: Rect,
    c0: (int, int),
)
    requires
        forall|x: int, y: int| in_grid(width, height, x, y) ==> !floor_at(t_pre, width, x, y),
        forall|x: int, y: int|
            in_grid(width, height, x, y) && floor_at(t2, width, x, y) ==> room.interior_contains(
                x,
                y,
            ) || floor_at(t_pre, width, x, y),
        forall|x: int, y: int|
            room.interior_contains(x, y) ==> in_grid(width, height, x, y) && floor_at(
                t2,
                width,
                x,
                y,
            ),
        room.interior_contains(c0.0, c0.1),
    ensures
        forall|x: int, y: int|
            in_grid(width, height, x, y) && floor_at(t2, width, x, y) ==> reachable(
                t2,
                width,
                height,
                c0,
                (x, y),
            ),
{
    assert forall|x: int, y: int|
        in_grid(width, height, x, y) && floor_at(t2, width, x, y) implies reachable(
        t2,
        width,
        height,
        c0,
        (x, y),
    ) by {
        assert(room.interior_contains(x, y));
        assert forall|a: int, b: int|
            room.x1 + 1 <= a <= room.x2 && room.y1 + 1 <= b <= room.y2 implies in_grid(
            width,
            height,
            a,
            b,
        ) && floor_at(t2, width, a, b) by {
            assert(room.interior_contains(a, b));
        }
        lemma_reach_rect(
            t2,
            width,
            height,
            room.x1 + 1,
            room.y1 + 1,
            room.x2 as int,
            room.y2 as int,
            c0,
            (x, y),
        );
    }
}

/// After carving a room and an L-shaped tunnel from the previous room's
/// center `pc` to the new room's center `nc`, every floor cell is reachable
/// from `c0`, given that every previously floor cell was. The tunnel is a
/// horizontal leg at row `hy` and a vertical leg at column `vx`, in either
/// of the two L orientations.
#[verifier::rlimit(60)]
pub proof fn lemma_connect_tunnel(
    t_pre: Seq<TileType>,
    t2: Seq<TileType>,
    width: int,
    height: int,
    room: Rect,
    c0: (int, int),
    pc: (int, int),
    nc: (int, int),
    hy: int,
    vx: int,
)
    requires
        (hy == pc.1 && vx == nc.0) || (hy == nc.1 && vx == pc.0),
        in_grid(width, height, pc.0, pc.1),
        in_grid(width, height, nc.0, nc.1),
        floor_at(t_pre, width, pc.0, pc.1),
        forall|x: int, y: int|
            in_grid(width, height, x, y) && floor_at(t_pre, width, x, y) ==> reachable(
                t_pre,
                width,
                height,
                c0,
                (x, y),
            ),
        // carving only adds floor
        forall|x: int, y: int|
            in_grid(width, height, x, y) && floor_at(t_pre, width, x, y) ==> floor_at(
                t2,
                width,
                x,
                y,
            ),
        // every new floor cell lies in the room's interior or on the tunnel
        forall|x: int, y: int|
            in_grid(width, height, x, y) && floor_at(t2, width, x, y) ==> floor_at(
                t_pre,
                width,
                x,
                y,
            ) || room.interior_contains(x, y) || (y == hy && seg_min(pc.0, nc.0) <= x <= seg_max(
                pc.0,
                nc.0,
            )) || (x == vx && seg_min(pc.1, nc.1) <= y <= seg_max(pc.1, nc.1)),
        // the room's interior and both tunnel legs are carved to floor
        forall|x: int, y: int|
            room.interior_contains(x, y) ==> in_grid(width, height, x, y) && floor_at(
                t2,
                width,
                x,
                y,
            ),
        forall|x: int|
            seg_min(pc.0, nc.0) <= x <= seg_max(pc.0, nc.0) ==> in_grid(width, height, x, hy)
                && floor_at(t2, width, x, hy),
        forall|y: int|
            seg_min(pc.1, nc.1) <= y <= seg_max(pc.1, nc.1) ==> in_grid(width, height, vx, y)
                && floor_at(t2, width, vx, y),
        room.interior_contains(nc.0, nc.1),
    ensures
        forall|x: int, y: int|
            in_grid(width, height, x, y) && floor_at(t2, width, x, y) ==> reachable(
                t2,
                width,
                height,
                c0,
                (x, y),
            ),
{
    let xlo = seg_min(pc.0, nc.0);
    let xhi = seg_max(pc.0, nc.0);
    let ylo = seg_min(pc.1, nc.1);
    let yhi = seg_max(pc.1, nc.1);
    let corner = (vx, hy);
    // the previous center keeps its connection to the start
    assert(reachable(t2, width, height, c0, pc)) by {
        lemma_reach_mono(t_pre, t2, width, height, c0, pc);
    }
    // walk from the previous center along the two legs to the corner
    assert(reachable(t2, width, height, c0, corner)) by {
        if hy == pc.1 && vx == nc.0 {
            lemma_reach_h(t2, width, height, hy, xlo, xhi, pc.0, vx);
            lemma_reach_trans(t2, width, height, c0, pc, corner);
        } else {
            lemma_reach_v(t2, width, height, vx, ylo, yhi, pc.1, hy);
            lemma_reach_trans(t2, width, height, c0, pc, corner);
        }
    }
    // every cell on either leg is reachable through the corner
    assert forall|x: int| xlo <= x <= xhi implies reachable(t2, width, height, c0, (x, hy)) by {
        lemma_reach_h(t2, width, height, hy, xlo, xhi, vx, x);
        lemma_reach_trans(t2, width, height, c0, corner, (x, hy));
    }
    assert forall|y: int| ylo <= y <= yhi implies reachable(t2, width, height, c0, (vx, y)) by {
        lemma_reach_v(t2, width, height, vx, ylo, yhi, hy, y);
        lemma_reach_trans(t2, width, height, c0, corner, (vx, y));
    }
    // the new room's center sits on a leg, so its whole interior follows
    assert(reachable(t2, width, height, c0, nc)) by {
        if hy == pc.1 && vx == nc.0 {
            assert(ylo <= nc.1 <= yhi);
        } else {
            assert(xlo <= nc.0 <= xhi);
        }
    }
    assert forall|x: int, y: int|
        room.interior_contains(x, y) implies reachable(t2, width, height, c0, (x, y)) by {
        assert forall|a: int, b: int|
            room.x1 + 1 <= a <= room.x2 && room.y1 + 1 <= b <= room.y2 implies in_grid(
            width,
            height,
            a,
            b,
        ) && floor_at(t2, width, a, b) by {
            assert(room.interior_contains(a, b));
        }
        lemma_reach_rect(
            t2,
            width,
            height,
            room.x1 + 1,
            room.y1 + 1,
            room.x2 as int,
            room.y2 as int,
            nc,
            (x, y),
        );
        lemma_reach_trans(t2, width, height, c0, nc, (x, y));
    }
    // classify each floor cell of the carved grid
    assert forall|x: int, y: int|
        in_grid(width, height, x, y) && floor_at(t2, width, x, y) implies reachable(
        t2,
        width,
        height,
        c0,
        (x, y),
    ) by {
        if floor_at(t_pre, width, x, y) {
            lemma_reach_mono(t_pre, t2, width, height, c0, (x, y));
        } else if room.interior_contains(x, y) {
            assert(reachable(t2, width, height, c0, (x, y)));
        } else if y == hy && xlo <= x <= xhi {
            assert(reachable(t2, width, height, c0, (x, hy)));
            assert((x, y) == (x, hy));
        } else {
            assert(x == vx && ylo <= y <= yhi);
            assert(reachable(t2, width, height, c0, (vx, y)));
            assert((x, y) == (vx, y));
        }
    }
}

} // verus!
