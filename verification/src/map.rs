use vstd::prelude::*;

use crate::reach::{floor_at, gidx, in_grid, lemma_connect_first, lemma_connect_tunnel, reachable};
use crate::rect::lemma_center_margins;
use crate::rng::{rng_range, roll_dice};
use crate::rect::Rect;

verus! {

#[derive(PartialEq, Eq, Copy, Clone, Structural, Debug)]
pub enum TileType {
    Wall,
    Floor,
}

/// The dungeon level: a row-major grid of tiles plus the accepted rooms and
/// the per-tile exploration state.
pub struct GameMap {
    pub tiles: Vec<TileType>,
    pub rooms: Vec<Rect>,
    pub width: i32,
    pub height: i32,
    pub revealed_tiles: Vec<bool>,
    pub visible_tiles: Vec<bool>,
}

/// Grid coordinates fit comfortably in the index arithmetic below.
pub open spec fn dim_ok(width: int, height: int) -> bool {
    0 < width <= 4096 && 0 < height <= 4096
}

pub open spec fn seg_min(a: int, b: int) -> int {
    if a < b {
        a
    } else {
        b
    }
}

pub open spec fn seg_max(a: int, b: int) -> int {
    if a < b {
        b
    } else {
        a
    }
}

pub proof fn lemma_idx_bounds(w: int, h: int, x: int, y: int)
    requires
        0 <= x < w <= 4096,
        0 <= y < h <= 4096,
    ensures
        0 <= y * w + x < h * w,
        h * w <= 0x1000000,
{
    assert(0 <= y * w + x < h * w && h * w <= 0x1000000) by (nonlinear_arith)
        requires
            0 <= x < w <= 4096,
            0 <= y < h <= 4096,
    ;
}

pub proof fn lemma_idx_inj(w: int, x1: int, y1: int, x2: int, y2: int)
    requires
        0 <= x1 < w,
        0 <= x2 < w,
        y1 * w + x1 == y2 * w + x2,
    ensures
        x1 == x2,
        y1 == y2,
{
    assert(x1 == x2 && y1 == y2) by (nonlinear_arith)
        requires
            0 <= x1 < w,
            0 <= x2 < w,
            y1 * w + x1 == y2 * w + x2,
    ;
}

/// Whether a linear index lies strictly inside the border ring.
pub open spec fn interior_cell(width: int, height: int, idx: int) -> bool {
    &&& 1 <= idx % width < width - 1
    &&& 1 <= idx / width < height - 1
}

/// The number of wall tiles strictly inside the border, among the first `n`
/// linear indices.
pub open spec fn interior_wall_count(
    tiles: Seq<TileType>,
    width: int,
    height: int,
    n: int,
) -> int
    decreases n,
{
    if n <= 0 {
        0
    } else {
        interior_wall_count(tiles, width, height, n - 1) + (if interior_cell(width, height, n - 1)
            && tiles[n - 1] == TileType::Wall {
            1int
        } else {
            0int
        })
    }
}

/// A grid whose interior holds no wall has an interior wall count of zero.
pub proof fn lemma_interior_wall_count_zero(
    tiles: Seq<TileType>,
    width: int,
    height: int,
    n: int,
)
    requires
        forall|i: int|
            0 <= i < n && #[trigger] interior_cell(width, height, i) ==> tiles[i]
                != TileType::Wall,
    ensures
        interior_wall_count(tiles, width, height, n) == 0,
    decreases n,
{
    if n > 0 {
        lemma_interior_wall_count_zero(tiles, width, height, n - 1);
    }
}

/// Overwriting a single tile raises the interior wall count by at most one,
/// and a write beyond the counted range leaves it unchanged.
pub proof fn lemma_interior_wall_count_update(
    t1: Seq<TileType>,
    t2: Seq<TileType>,
    width: int,
    height: int,
    j: int,
    n: int,
)
    requires
        forall|i: int| 0 <= i < n && i != j ==> t1[i] == #[trigger] t2[i],
    ensures
        interior_wall_count(t2, width, height, n) <= interior_wall_count(t1, width, height, n)
            + 1,
        !(0 <= j < n) ==> interior_wall_count(t2, width, height, n) == interior_wall_count(
            t1,
            width,
            height,
            n,
        ),
    decreases n,
{
    if n > 0 {
        lemma_interior_wall_count_update(t1, t2, width, height, j, n - 1);
    }
}

/// A vector holding `n` copies of one tile.
fn filled_tiles(n: usize, t: TileType) -> (v: Vec<TileType>)
    ensures
        v@.len() == n,
        forall|i: int| 0 <= i < n ==> v@[i] == t,
{
    let mut v: Vec<TileType> = Vec::new();
    let mut k: usize = 0;
    while k < n
        invariant
            k <= n,
            v@.len() == k,
            forall|i: int| 0 <= i < k ==> v@[i] == t,
        decreases n - k,
    {
        v.push(t);
        k = k + 1;
    }
    v
}

/// A vector holding `n` copies of one flag.
fn filled_bools(n: usize, b: bool) -> (v: Vec<bool>)
    ensures
        v@.len() == n,
        forall|i: int| 0 <= i < n ==> v@[i] == b,
{
    let mut v: Vec<bool> = Vec::new();
    let mut k: usize = 0;
    while k < n
        invariant
            k <= n,
            v@.len() == k,
            forall|i: int| 0 <= i < k ==> v@[i] == b,
        decreases n - k,
    {
        v.push(b);
        k = k + 1;
    }
    v
}

impl GameMap {
    /// The tile at in-bounds coordinates.
    pub open spec fn tile_at(self, x: int, y: int) -> TileType {
        self.tiles@[gidx(self.width as int, x, y)]
    }

    pub open spec fn spec_in_bounds(self, x: int, y: int) -> bool {
        in_grid(self.width as int, self.height as int, x, y)
    }

    pub open spec fn spec_is_floor(self, x: int, y: int) -> bool {
        floor_at(self.tiles@, self.width as int, x, y)
    }

    /// Structural well-formedness: the three per-tile vectors cover the grid,
    /// and a tile visible this frame has always been revealed.
    pub open spec fn wf(self) -> bool {
        &&& dim_ok(self.width as int, self.height as int)
        &&& self.tiles@.len() == self.width * self.height
        &&& self.revealed_tiles@.len() == self.tiles@.len()
        &&& self.visible_tiles@.len() == self.tiles@.len()
        &&& forall|i: int|
            0 <= i < self.tiles@.len() && self.visible_tiles@[i] ==> self.revealed_tiles@[i]
    }

    /// Row-major linear index of a tile.
    pub fn xy_idx(&self, x: i32, y: i32) -> (idx: usize)
        requires
            self.wf(),
            self.spec_in_bounds(x as int, y as int),
        ensures
            idx == gidx(self.width as int, x as int, y as int),
            idx < self.tiles@.len(),
    {
        proof {
            lemma_idx_bounds(self.width as int, self.height as int, x as int, y as int);
        }
        (y as usize) * (self.width as usize) + (x as usize)
    }

    /// Overwrite one tile, leaving every other part of the map as it was.
    fn set_tile(&mut self, x: i32, y: i32, t: TileType)
        requires
            old(self).wf(),
            old(self).spec_in_bounds(x as int, y as int),
        ensures
            final(self).wf(),
            final(self).width == old(self).width,
            final(self).height == old(self).height,
            final(self).rooms == old(self).rooms,
            final(self).revealed_tiles == old(self).revealed_tiles,
            final(self).visible_tiles == old(self).visible_tiles,
            final(self).tiles@.len() == old(self).tiles@.len(),
            forall|a: int, b: int|
                old(self).spec_in_bounds(a, b) ==> final(self).tile_at(a, b) == (if a == x && b
                    == y {
                    t
                } else {
                    old(self).tile_at(a, b)
                }),
    {
        let idx = self.xy_idx(x, y);
        self.tiles[idx] = t;
        proof {
            let w = self.width as int;
            let h = self.height as int;
            assert forall|a: int, b: int|
                old(self).spec_in_bounds(a, b) && !(a == x && b == y) implies self.tile_at(a, b)
                == old(self).tile_at(a, b) by {
                lemma_idx_bounds(w, h, a, b);
                if gidx(w, a, b) == gidx(w, x as int, y as int) {
                    lemma_idx_inj(w, a, b, x as int, y as int);
                }
            }
        }
    }

    /// Set a room's interior to floor.
    fn carve_room(&mut self, room: &Rect)
        requires
            old(self).wf(),
            room.wf(),
            0 <= room.x1,
            0 <= room.y1,
            room.x2 < old(self).width,
            room.y2 < old(self).height,
        ensures
            final(self).wf(),
            final(self).width == old(self).width,
            final(self).height == old(self).height,
            final(self).rooms == old(self).rooms,
            final(self).revealed_tiles == old(self).revealed_tiles,
            final(self).visible_tiles == old(self).visible_tiles,
            final(self).tiles@.len() == old(self).tiles@.len(),
            forall|a: int, b: int|
                old(self).spec_in_bounds(a, b) ==> final(self).tile_at(a, b) == (
                if room.interior_contains(a, b) {
                    TileType::Floor
                } else {
                    old(self).tile_at(a, b)
                }),
    {
        let ghost m0 = *self;
        let mut y = room.y1 + 1;
        while y <= room.y2
            invariant
                m0.wf(),
                room.wf(),
                0 <= room.x1,
                0 <= room.y1,
                room.x2 < m0.width,
                room.y2 < m0.height,
                room.y1 + 1 <= y <= room.y2 + 1,
                self.wf(),
                self.width == m0.width,
                self.height == m0.height,
                self.rooms == m0.rooms,
                self.revealed_tiles == m0.revealed_tiles,
                self.visible_tiles == m0.visible_tiles,
                self.tiles@.len() == m0.tiles@.len(),
                forall|a: int, b: int|
                    m0.spec_in_bounds(a, b) ==> self.tile_at(a, b) == (
                    if room.interior_contains(a, b) && b < y {
                        TileType::Floor
                    } else {
                        m0.tile_at(a, b)
                    }),
            decreases room.y2 + 1 - y,
        {
            let mut x = room.x1 + 1;
            while x <= room.x2
                invariant
                    m0.wf(),
                    room.wf(),
                    0 <= room.x1,
                    0 <= room.y1,
                    room.x2 < m0.width,
                    room.y2 < m0.height,
                    room.y1 + 1 <= y <= room.y2,
                    room.x1 + 1 <= x <= room.x2 + 1,
                    self.wf(),
                    self.width == m0.width,
                    self.height == m0.height,
                    self.rooms == m0.rooms,
                    self.revealed_tiles == m0.revealed_tiles,
                    self.visible_tiles == m0.visible_tiles,
                    self.tiles@.len() == m0.tiles@.len(),
                    forall|a: int, b: int|
                        m0.spec_in_bounds(a, b) ==> self.tile_at(a, b) == (
                        if room.interior_contains(a, b) && (b < y || (b == y && a < x)) {
                            TileType::Floor
                        } else {
                            m0.tile_at(a, b)
                        }),
                decreases room.x2 + 1 - x,
            {
                self.set_tile(x, y, TileType::Floor);
                x = x + 1;
            }
            y = y + 1;
        }
    }

    /// Carve a horizontal corridor leg to floor, silently skipping any cell
    /// that falls outside the grid.
    fn carve_h_tunnel(&mut self, x1: i32, x2: i32, y: i32)
        requires
            old(self).wf(),
            x1 < i32::MAX,
            x2 < i32::MAX,
        ensures
            final(self).wf(),
            final(self).width == old(self).width,
            final(self).height == old(self).height,
            final(self).rooms == old(self).rooms,
            final(self).revealed_tiles == old(self).revealed_tiles,
            final(self).visible_tiles == old(self).visible_tiles,
            final(self).tiles@.len() == old(self).tiles@.len(),
            forall|a: int, b: int|
                old(self).spec_in_bounds(a, b) ==> final(self).tile_at(a, b) == (
                if b == y && seg_min(x1 as int, x2 as int) <= a <= seg_max(x1 as int, x2 as int) {
                    TileType::Floor
                } else {
                    old(self).tile_at(a, b)
                }),
    {
        let ghost m0 = *self;
        let lo = if x1 < x2 {
            x1
        } else {
            x2
        };
        let hi = if x1 < x2 {
            x2
        } else {
            x1
        };
        let mut x = lo;
        while x <= hi
            invariant
                m0.wf(),
                lo == seg_min(x1 as int, x2 as int),
                hi == seg_max(x1 as int, x2 as int),
                hi < i32::MAX,
                lo <= x <= hi + 1,
                self.wf(),
                self.width == m0.width,
                self.height == m0.height,
                self.rooms == m0.rooms,
                self.revealed_tiles == m0.revealed_tiles,
                self.visible_tiles == m0.visible_tiles,
                self.tiles@.len() == m0.tiles@.len(),
                forall|a: int, b: int|
                    m0.spec_in_bounds(a, b) ==> self.tile_at(a, b) == (
                    if b == y && lo <= a < x {
                        TileType::Floor
                    } else {
                        m0.tile_at(a, b)
                    }),
            decreases hi + 1 - x,
        {
            if 0 <= x && x < self.width && 0 <= y && y < self.height {
                self.set_tile(x, y, TileType::Floor);
            }
            x = x + 1;
        }
    }

    /// Carve a vertical corridor leg to floor, silently skipping any cell
    /// that falls outside the grid.
    fn carve_v_tunnel(&mut self, y1: i32, y2: i32, x: i32)
        requires
            old(self).wf(),
            y1 < i32::MAX,
            y2 < i32::MAX,
        ensures
            final(self).wf(),
            final(self).width == old(self).width,
            final(self).height == old(self).height,
            final(self).rooms == old(self).rooms,
            final(self).revealed_tiles == old(self).revealed_tiles,
            final(self).visible_tiles == old(self).visible_tiles,
            final(self).tiles@.len() == old(self).tiles@.len(),
            forall|a: int, b: int|
                old(self).spec_in_bounds(a, b) ==> final(self).tile_at(a, b) == (
                if a == x && seg_min(y1 as int, y2 as int) <= b <= seg_max(y1 as int, y2 as int) {
                    TileType::Floor
                } else {
                    old(self).tile_at(a, b)
                }),
    {
        let ghost m0 = *self;
        let lo = if y1 < y2 {
            y1
        } else {
            y2
        };
        let hi = if y1 < y2 {
            y2
        } else {
            y1
        };
        let mut y = lo;
        while y <= hi
            invariant
                m0.wf(),
                lo == seg_min(y1 as int, y2 as int),
                hi == seg_max(y1 as int, y2 as int),
                hi < i32::MAX,
                lo <= y <= hi + 1,
                self.wf(),
                self.width == m0.width,
                self.height == m0.height,
                self.rooms == m0.rooms,
                self.revealed_tiles == m0.revealed_tiles,
                self.visible_tiles == m0.visible_tiles,
                self.tiles@.len() == m0.tiles@.len(),
                forall|a: int, b: int|
                    m0.spec_in_bounds(a, b) ==> self.tile_at(a, b) == (
                    if a == x && lo <= b < y {
                        TileType::Floor
                    } else {
                        m0.tile_at(a, b)
                    }),
            decreases hi + 1 - y,
        {
            if 0 <= x && x < self.width && 0 <= y && y < self.height {
                self.set_tile(x, y, TileType::Floor);
            }
            y = y + 1;
        }
    }

    /// An accepted room: an extent drawn from the configured range on each
    /// axis, and at least one tile of wall between its far edges and the
    /// grid border.
    pub open spec fn room_ok(self, r: Rect) -> bool {
        &&& MIN_SIZE <= r.x2 - r.x1 < MAX_SIZE
        &&& MIN_SIZE <= r.y2 - r.y1 < MAX_SIZE
        &&& 0 <= r.x1
        &&& r.x2 <= self.width - 2
        &&& 0 <= r.y1
        &&& r.y2 <= self.height - 2
    }

    pub open spec fn rooms_wf(self) -> bool {
        forall|k: int| 0 <= k < self.rooms@.len() ==> self.room_ok(#[trigger] self.rooms@[k])
    }

    /// No two accepted rooms overlap.
    pub open spec fn rooms_disjoint(self) -> bool {
        forall|i: int, j: int|
            0 <= i < j < self.rooms@.len() ==> !(#[trigger] self.rooms@[i]).spec_intersect(
                #[trigger] self.rooms@[j],
            )
    }

    /// No two accepted rooms overlap, whichever way round the pair is
    /// compared: the overlap test is symmetric in its two rectangles.
    pub proof fn lemma_rooms_pairwise_disjoint(self, i: int, j: int)
        requires
            self.rooms_disjoint(),
            0 <= i < self.rooms@.len(),
            0 <= j < self.rooms@.len(),
            i != j,
        ensures
            !self.rooms@[i].spec_intersect(self.rooms@[j]),
    {
        if j < i {
            assert(!self.rooms@[j].spec_intersect(self.rooms@[i]));
        }
    }

    /// Every accepted room's interior is carved to floor.
    pub open spec fn rooms_carved(self) -> bool {
        forall|k: int, x: int, y: int|
            0 <= k < self.rooms@.len() && #[trigger] self.rooms@[k].interior_contains(x, y)
                ==> self.spec_is_floor(x, y)
    }

    /// The center of the first accepted room.
    pub open spec fn spec_first_center(self) -> (int, int) {
        self.rooms@[0].spec_center()
    }

    /// Every floor tile can be walked to from the first room's center.
    pub open spec fn connected(self) -> bool {
        self.rooms@.len() > 0 ==> forall|x: int, y: int|
            self.spec_in_bounds(x, y) && self.spec_is_floor(x, y) ==> reachable(
                self.tiles@,
                self.width as int,
                self.height as int,
                self.spec_first_center(),
                (x, y),
            )
    }

    pub open spec fn all_wall(self) -> bool {
        forall|x: int, y: int| self.spec_in_bounds(x, y) ==> !self.spec_is_floor(x, y)
    }

    /// The outermost ring of tiles is solid wall.
    pub open spec fn borders_wall(self) -> bool {
        forall|x: int, y: int|
            self.spec_in_bounds(x, y) && (x == 0 || y == 0 || x == self.width - 1 || y
                == self.height - 1) ==> !self.spec_is_floor(x, y)
    }

    pub open spec fn unexplored(self) -> bool {
        &&& forall|i: int| 0 <= i < self.revealed_tiles@.len() ==> !self.revealed_tiles@[i]
        &&& forall|i: int| 0 <= i < self.visible_tiles@.len() ==> !self.visible_tiles@[i]
    }

    pub open spec fn spec_exit_valid(self, x: int, y: int) -> bool {
        &&& 1 <= x < self.width
        &&& 1 <= y < self.height
        &&& self.tile_at(x, y) != TileType::Wall
    }

    /// Whether a cell can be stepped onto: strictly inside the left/top
    /// border, inside the grid, and not a wall.
    pub fn is_exit_valid(&self, x: i32, y: i32) -> (r: bool)
        requires
            self.wf(),
        ensures
            r == self.spec_exit_valid(x as int, y as int),
    {
        if x < 1 || x > self.width - 1 || y < 1 || y > self.height - 1 {
            return false;
        }
        let idx = self.xy_idx(x, y);
        self.tiles[idx] != TileType::Wall
    }
}


/// Room-placement policy: how many candidates are attempted, and the range
/// of room extents drawn for each.
pub const MAX_ROOMS: i32 = 20;

pub const MIN_SIZE: i32 = 4;

pub const MAX_SIZE: i32 = 10;

impl GameMap {
    /// Generate a dungeon: up to `MAX_ROOMS` random rooms are attempted on an
    /// all-wall grid; a candidate overlapping an accepted room is skipped;
    /// each accepted room is carved and joined to the previously accepted
    /// room's center by an L-shaped corridor of random orientation. The
    /// result is enclosed by its border walls, its rooms never overlap, and
    /// every floor tile is reachable from the first room's center.
    #[verifier::rlimit(100)]
    pub fn new_map_rooms(width: i32, height: i32, rng: &mut rltk::RandomNumberGenerator) -> (m:
        GameMap)
        requires
            12 <= width <= 4096,
            12 <= height <= 4096,
        ensures
            m.wf(),
            m.width == width,
            m.height == height,
            m.unexplored(),
            m.rooms_wf(),
            m.rooms_disjoint(),
            m.rooms_carved(),
            m.connected(),
            m.borders_wall(),
            1 <= m.rooms@.len() <= MAX_ROOMS,
    {
        proof {
            assert(width * height <= 0x1000000) by (nonlinear_arith)
                requires
                    12 <= width <= 4096,
                    12 <= height <= 4096,
            ;
        }
        let n = (width as usize) * (height as usize);
        let mut map = GameMap {
            tiles: filled_tiles(n, TileType::Wall),
            rooms: Vec::new(),
            width,
            height,
            revealed_tiles: filled_bools(n, false),
            visible_tiles: filled_bools(n, false),
        };
        proof {
            assert(map.tiles@.len() == width * height);
            assert forall|a: int, b: int| map.spec_in_bounds(a, b) implies !map.spec_is_floor(
                a,
                b,
            ) by {
                lemma_idx_bounds(width as int, height as int, a, b);
                assert((height as int) * (width as int) == (width as int) * (height as int))
                    by (nonlinear_arith);
                assert(0 <= gidx(width as int, a, b) < map.tiles@.len());
                assert(map.tiles@[gidx(width as int, a, b)] == TileType::Wall);
            }
        }
        let mut i: i32 = 0;
        while i < MAX_ROOMS
            invariant
                12 <= width <= 4096,
                12 <= height <= 4096,
                0 <= i <= MAX_ROOMS,
                map.wf(),
                map.width == width,
                map.height == height,
                map.unexplored(),
                map.rooms_wf(),
                map.rooms_disjoint(),
                map.rooms_carved(),
                map.connected(),
                map.borders_wall(),
                map.rooms@.len() <= i,
                i >= 1 ==> map.rooms@.len() >= 1,
                map.rooms@.len() == 0 ==> map.all_wall(),
            decreases MAX_ROOMS - i,
        {
            let w = rng_range(rng, MIN_SIZE, MAX_SIZE);
            let h = rng_range(rng, MIN_SIZE, MAX_SIZE);
            let x = roll_dice(rng, 1, width - w - 1) - 1;
            let y = roll_dice(rng, 1, height - h - 1) - 1;

            let new_room = Rect::new(x, y, w, h);
            let mut ok = true;
            let mut j: usize = 0;
            while j < map.rooms.len()
                invariant
                    j <= map.rooms@.len(),
                    ok <==> forall|k: int|
                        0 <= k < j ==> !new_room.spec_intersect(#[trigger] map.rooms@[k]),
                decreases map.rooms@.len() - j,
            {
                if new_room.intersect(&map.rooms[j]) {
                    ok = false;
                }
                j = j + 1;
            }

            if ok {
                let ghost gw = width as int;
                let ghost gh = height as int;
                let ghost m_pre = map;
                proof {
                    lemma_center_margins(new_room);
                }
                map.carve_room(&new_room);
                let ghost m1 = map;

                if !map.rooms.is_empty() {
                    let (new_x, new_y) = new_room.center();
                    let (pre_x, pre_y) = map.rooms[map.rooms.len() - 1].center();
                    let ghost prev = m_pre.rooms@[m_pre.rooms@.len() - 1];
                    let ghost pc: (int, int) = (pre_x as int, pre_y as int);
                    let ghost nc: (int, int) = (new_x as int, new_y as int);
                    proof {
                        lemma_center_margins(prev);
                        assert(pc == prev.spec_center());
                        assert(nc == new_room.spec_center());
                        assert(prev.interior_contains(pc.0, pc.1));
                        assert(floor_at(m_pre.tiles@, gw, pc.0, pc.1));
                    }
                    if rng_range(rng, 0, 2) == 0 {
                        map.carve_h_tunnel(pre_x, new_x, pre_y);
                        let ghost m1h = map;
                        map.carve_v_tunnel(pre_y, new_y, new_x);
                        proof {
                            connect_after_tunnel(m_pre, m1, m1h, map, new_room, prev, pc, nc,
                                pc.1, nc.0);
                        }
                    } else {
                        map.carve_v_tunnel(pre_y, new_y, pre_x);
                        let ghost m1v = map;
                        map.carve_h_tunnel(pre_x, new_x, new_y);
                        proof {
                            connect_after_tunnel(m_pre, m1, m1v, map, new_room, prev, pc, nc,
                                nc.1, pc.0);
                        }
                    }
                } else {
                    proof {
                        let ghost nc = new_room.spec_center();
                        assert forall|a: int, b: int|
                            new_room.interior_contains(a, b) implies in_grid(gw, gh, a, b)
                            && floor_at(map.tiles@, gw, a, b) by {
                            assert(m_pre.spec_in_bounds(a, b));
                        }
                        assert forall|a: int, b: int|
                            in_grid(gw, gh, a, b) && floor_at(map.tiles@, gw, a, b)
                            implies new_room.interior_contains(a, b) || floor_at(
                            m_pre.tiles@,
                            gw,
                            a,
                            b,
                        ) by {
                            assert(m_pre.spec_in_bounds(a, b));
                        }
                        assert forall|a: int, b: int|
                            in_grid(gw, gh, a, b) implies !floor_at(m_pre.tiles@, gw, a, b) by {
                            assert(m_pre.spec_in_bounds(a, b));
                            assert(!m_pre.spec_is_floor(a, b));
                        }
                        lemma_connect_first(m_pre.tiles@, map.tiles@, gw, gh, new_room, nc);
                        assert forall|a: int, b: int|
                            in_grid(gw, gh, a, b) && (a == 0 || b == 0 || a == gw - 1 || b == gh
                                - 1) implies !floor_at(map.tiles@, gw, a, b) by {
                            assert(!new_room.interior_contains(a, b));
                            assert(!m_pre.spec_is_floor(a, b));
                        }
                    }
                }
                map.rooms.push(new_room);
                proof {
                    assert(map.rooms@[map.rooms@.len() - 1] == new_room);
                    assert forall|k: int| 0 <= k < map.rooms@.len() implies map.room_ok(
                        #[trigger] map.rooms@[k],
                    ) by {
                        if k < map.rooms@.len() - 1 {
                            assert(map.rooms@[k] == m_pre.rooms@[k]);
                            assert(m_pre.room_ok(m_pre.rooms@[k]));
                        }
                    }
                    assert forall|a: int, b: int|
                        0 <= a < map.rooms@.len() && 0 <= b < map.rooms@.len() && a < b
                        implies !(#[trigger] map.rooms@[a]).spec_intersect(
                        #[trigger] map.rooms@[b],
                    ) by {
                        if b < map.rooms@.len() - 1 {
                            assert(map.rooms@[a] == m_pre.rooms@[a]);
                            assert(map.rooms@[b] == m_pre.rooms@[b]);
                        } else {
                            assert(map.rooms@[b] == new_room);
                            assert(map.rooms@[a] == m_pre.rooms@[a]);
                            assert(!new_room.spec_intersect(m_pre.rooms@[a]));
                        }
                    }
                    assert forall|k: int, a: int, b: int|
                        0 <= k < map.rooms@.len() && #[trigger] map.rooms@[k].interior_contains(
                            a,
                            b,
                        ) implies map.spec_is_floor(a, b) by {
                        if k < map.rooms@.len() - 1 {
                            assert(map.rooms@[k] == m_pre.rooms@[k]);
                            assert(m_pre.spec_is_floor(a, b));
                            assert(m_pre.spec_in_bounds(a, b));
                        }
                    }
                    assert(map.connected()) by {
                        assert(map.rooms@[0] == (if m_pre.rooms@.len() == 0 {
                            new_room
                        } else {
                            m_pre.rooms@[0]
                        }));
                    }
                }
            }
            i = i + 1;
        }
        map
    }
}

/// The connectivity argument for one accepted room joined by an L-shaped
/// tunnel: relates the grid before carving (`m_pre`), after the room
/// (`m1`), after the first tunnel leg (`m_mid`) and after the second
/// (`m2`), and re-establishes that every floor tile is reachable from the
/// first accepted room's center.
#[verifier::rlimit(100)]
proof fn connect_after_tunnel(
    m_pre: GameMap,
    m1: GameMap,
    m_mid: GameMap,
    m2: GameMap,
    new_room: Rect,
    prev: Rect,
    pc: (int, int),
    nc: (int, int),
    hy: int,
    vx: int,
)
    requires
        m_pre.wf(),
        m_pre.rooms@.len() > 0,
        m_pre.rooms_wf(),
        m_pre.rooms_carved(),
        m_pre.connected(),
        m_pre.borders_wall(),
        m1.width == m_pre.width,
        m1.height == m_pre.height,
        m2.width == m_pre.width,
        m2.height == m_pre.height,
        m_mid.width == m_pre.width,
        m_mid.height == m_pre.height,
        prev == m_pre.rooms@[m_pre.rooms@.len() - 1],
        pc == prev.spec_center(),
        nc == new_room.spec_center(),
        m_pre.room_ok(new_room),
        // the carved room
        forall|a: int, b: int|
            m_pre.spec_in_bounds(a, b) ==> m1.tile_at(a, b) == (if new_room.interior_contains(
                a,
                b,
            ) {
                TileType::Floor
            } else {
                m_pre.tile_at(a, b)
            }),
        // the two tunnel legs, in either orientation order
        (forall|a: int, b: int|
            m_pre.spec_in_bounds(a, b) ==> m_mid.tile_at(a, b) == (if b == hy && seg_min(
                pc.0,
                nc.0,
            ) <= a <= seg_max(pc.0, nc.0) {
                TileType::Floor
            } else {
                m1.tile_at(a, b)
            })) && (forall|a: int, b: int|
            m_pre.spec_in_bounds(a, b) ==> m2.tile_at(a, b) == (if a == vx && seg_min(pc.1, nc.1)
                <= b <= seg_max(pc.1, nc.1) {
                TileType::Floor
            } else {
                m_mid.tile_at(a, b)
            })) || (forall|a: int, b: int|
            m_pre.spec_in_bounds(a, b) ==> m_mid.tile_at(a, b) == (if a == vx && seg_min(
                pc.1,
                nc.1,
            ) <= b <= seg_max(pc.1, nc.1) {
                TileType::Floor
            } else {
                m1.tile_at(a, b)
            })) && (forall|a: int, b: int|
            m_pre.spec_in_bounds(a, b) ==> m2.tile_at(a, b) == (if b == hy && seg_min(pc.0, nc.0)
                <= a <= seg_max(pc.0, nc.0) {
                TileType::Floor
            } else {
                m_mid.tile_at(a, b)
            })),
        (hy == pc.1 && vx == nc.0) || (hy == nc.1 && vx == pc.0),
    ensures
        forall|x: int, y: int|
            in_grid(m_pre.width as int, m_pre.height as int, x, y) && floor_at(
                m2.tiles@,
                m_pre.width as int,
                x,
                y,
            ) ==> reachable(
                m2.tiles@,
                m_pre.width as int,
                m_pre.height as int,
                m_pre.spec_first_center(),
                (x, y),
            ),
        forall|x: int, y: int|
            in_grid(m_pre.width as int, m_pre.height as int, x, y) && floor_at(
                m_pre.tiles@,
                m_pre.width as int,
                x,
                y,
            ) ==> floor_at(m2.tiles@, m_pre.width as int, x, y),
        forall|x: int, y: int|
            in_grid(m_pre.width as int, m_pre.height as int, x, y) && (x == 0 || y == 0 || x
                == m_pre.width - 1 || y == m_pre.height - 1) ==> !floor_at(
                m2.tiles@,
                m_pre.width as int,
                x,
                y,
            ),
        forall|a: int, b: int|
            new_room.interior_contains(a, b) ==> floor_at(m2.tiles@, m_pre.width as int, a, b),
{
    let gw = m_pre.width as int;
    let gh = m_pre.height as int;
    let c0 = m_pre.spec_first_center();
    let xlo = seg_min(pc.0, nc.0);
    let xhi = seg_max(pc.0, nc.0);
    let ylo = seg_min(pc.1, nc.1);
    let yhi = seg_max(pc.1, nc.1);
    lemma_center_margins(prev);
    lemma_center_margins(new_room);
    assert(m_pre.room_ok(prev));
    // the two centers sit two tiles clear of their rooms' edges, hence
    // strictly inside the grid border
    assert(2 <= pc.0 <= gw - 4 && 2 <= pc.1 <= gh - 4);
    assert(2 <= nc.0 <= gw - 4 && 2 <= nc.1 <= gh - 4);
    assert(in_grid(gw, gh, pc.0, pc.1));
    assert(in_grid(gw, gh, nc.0, nc.1));
    assert(floor_at(m_pre.tiles@, gw, pc.0, pc.1)) by {
        assert(prev.interior_contains(pc.0, pc.1));
    }
    // carving a room and then two tunnel legs only ever adds floor
    assert forall|a: int, b: int|
        in_grid(gw, gh, a, b) && floor_at(m_pre.tiles@, gw, a, b) implies floor_at(
        m2.tiles@,
        gw,
        a,
        b,
    ) by {
        assert(m_pre.spec_in_bounds(a, b));
    }
    // and every floor tile afterwards is old floor, room interior, or tunnel
    assert forall|a: int, b: int|
        in_grid(gw, gh, a, b) && floor_at(m2.tiles@, gw, a, b) implies floor_at(
        m_pre.tiles@,
        gw,
        a,
        b,
    ) || new_room.interior_contains(a, b) || (b == hy && xlo <= a <= xhi) || (a == vx && ylo <= b
        <= yhi) by {
        assert(m_pre.spec_in_bounds(a, b));
    }
    assert forall|a: int, b: int|
        new_room.interior_contains(a, b) implies in_grid(gw, gh, a, b) && floor_at(
        m2.tiles@,
        gw,
        a,
        b,
    ) by {
        assert(m_pre.spec_in_bounds(a, b));
    }
    assert forall|a: int| xlo <= a <= xhi implies in_grid(gw, gh, a, hy) && floor_at(
        m2.tiles@,
        gw,
        a,
        hy,
    ) by {
        assert(m_pre.spec_in_bounds(a, hy));
    }
    assert forall|b: int| ylo <= b <= yhi implies in_grid(gw, gh, vx, b) && floor_at(
        m2.tiles@,
        gw,
        vx,
        b,
    ) by {
        assert(m_pre.spec_in_bounds(vx, b));
    }
    assert forall|x: int, y: int|
        in_grid(gw, gh, x, y) && floor_at(m_pre.tiles@, gw, x, y) implies reachable(
        m_pre.tiles@,
        gw,
        gh,
        c0,
        (x, y),
    ) by {
        assert(m_pre.spec_in_bounds(x, y) && m_pre.spec_is_floor(x, y));
    }
    lemma_connect_tunnel(m_pre.tiles@, m2.tiles@, gw, gh, new_room, c0, pc, nc, hy, vx);
    // the border ring is untouched: rooms keep a margin and tunnel legs run
    // between room centers, which sit two tiles clear of the border
    assert forall|a: int, b: int|
        in_grid(gw, gh, a, b) && (a == 0 || b == 0 || a == gw - 1 || b == gh - 1)
        implies !floor_at(m2.tiles@, gw, a, b) by {
        assert(m_pre.spec_in_bounds(a, b));
        assert(!new_room.interior_contains(a, b));
        assert(!(b == hy && xlo <= a <= xhi));
        assert(!(a == vx && ylo <= b <= yhi));
        assert(!m_pre.spec_is_floor(a, b));
    }
}


impl GameMap {
    /// Alternate generator: an open 80-by-50 field with a solid wall border
    /// and up to 200 randomly scattered single-tile wall obstacles (draws
    /// may repeat, so fewer distinct walls are possible); every other
    /// interior tile stays floor, and the fixed tile at (40, 25) is kept
    /// clear so the field always has a safe starting cell.
    pub fn new_map_test(rng: &mut rltk::RandomNumberGenerator) -> (m: GameMap)
        ensures
            m.wf(),
            m.width == 80,
            m.height == 50,
            m.unexplored(),
            m.rooms@.len() == 0,
            m.borders_wall(),
            m.spec_is_floor(40, 25),
            interior_wall_count(m.tiles@, 80, 50, 4000) <= 200,
    {
        let mut map = GameMap {
            tiles: filled_tiles(80 * 50, TileType::Floor),
            rooms: Vec::new(),
            width: 80,
            height: 50,
            revealed_tiles: filled_bools(80 * 50, false),
            visible_tiles: filled_bools(80 * 50, false),
        };
        let mut x: i32 = 0;
        while x < 80
            invariant
                0 <= x <= 80,
                map.wf(),
                map.width == 80,
                map.height == 50,
                map.unexplored(),
                map.rooms@.len() == 0,
                map.tile_at(40, 25) == TileType::Floor,
                forall|a: int, b: int|
                    1 <= a <= 78 && 1 <= b <= 48 ==> #[trigger] map.tile_at(a, b)
                        == TileType::Floor,
                forall|a: int|
                    0 <= a < x ==> #[trigger] map.tile_at(a, 0) == TileType::Wall && map.tile_at(
                        a,
                        49,
                    ) == TileType::Wall,
            decreases 80 - x,
        {
            map.set_tile(x, 0, TileType::Wall);
            map.set_tile(x, 49, TileType::Wall);
            x = x + 1;
        }
        let mut y: i32 = 0;
        while y < 50
            invariant
                0 <= y <= 50,
                map.wf(),
                map.width == 80,
                map.height == 50,
                map.unexplored(),
                map.rooms@.len() == 0,
                map.tile_at(40, 25) == TileType::Floor,
                forall|a: int, b: int|
                    1 <= a <= 78 && 1 <= b <= 48 ==> #[trigger] map.tile_at(a, b)
                        == TileType::Floor,
                forall|a: int|
                    0 <= a < 80 ==> #[trigger] map.tile_at(a, 0) == TileType::Wall && map.tile_at(
                        a,
                        49,
                    ) == TileType::Wall,
                forall|b: int|
                    0 <= b < y ==> #[trigger] map.tile_at(0, b) == TileType::Wall && map.tile_at(
                        79,
                        b,
                    ) == TileType::Wall,
            decreases 50 - y,
        {
            map.set_tile(0, y, TileType::Wall);
            map.set_tile(79, y, TileType::Wall);
            y = y + 1;
        }
        proof {
            assert forall|a: int, b: int|
                in_grid(80, 50, a, b) && (a == 0 || b == 0 || a == 79 || b == 49)
                implies map.tile_at(a, b) == TileType::Wall by {
                if b == 0 || b == 49 {
                    assert(map.tile_at(a, 0) == TileType::Wall && map.tile_at(a, 49)
                        == TileType::Wall);
                } else {
                    assert(map.tile_at(0, b) == TileType::Wall && map.tile_at(79, b)
                        == TileType::Wall);
                }
            }
        }
        proof {
            assert forall|k: int|
                0 <= k < 4000 && #[trigger] interior_cell(80, 50, k) implies map.tiles@[k]
                != TileType::Wall by {
                vstd::arithmetic::div_mod::lemma_fundamental_div_mod(k, 80);
                assert(map.tile_at(k % 80, k / 80) == TileType::Floor);
            }
            lemma_interior_wall_count_zero(map.tiles@, 80, 50, 4000);
        }
        let safe_idx = map.xy_idx(40, 25);
        let mut i: i32 = 0;
        while i < 200
            invariant
                0 <= i <= 200,
                map.wf(),
                map.width == 80,
                map.height == 50,
                map.unexplored(),
                map.rooms@.len() == 0,
                map.tile_at(40, 25) == TileType::Floor,
                safe_idx == gidx(80, 40, 25),
                interior_wall_count(map.tiles@, 80, 50, 4000) <= i,
                forall|a: int, b: int|
                    in_grid(80, 50, a, b) && (a == 0 || b == 0 || a == 79 || b == 49)
                        ==> #[trigger] map.tile_at(a, b) == TileType::Wall,
            decreases 200 - i,
        {
            let wx = roll_dice(rng, 1, 79);
            let wy = roll_dice(rng, 1, 49);
            let idx = map.xy_idx(wx, wy);
            if idx != safe_idx {
                proof {
                    if wx as int == 40 && wy as int == 25 {
                        assert(idx == gidx(80, 40, 25));
                    }
                }
                let ghost m_pre = map;
                map.set_tile(wx, wy, TileType::Wall);
                proof {
                    // the write touched one linear index, so the obstacle
                    // count grew by at most one
                    let j = gidx(80, wx as int, wy as int);
                    assert forall|k: int|
                        0 <= k < 4000 && k != j implies m_pre.tiles@[k]
                        == #[trigger] map.tiles@[k] by {
                        vstd::arithmetic::div_mod::lemma_fundamental_div_mod(k, 80);
                        let a = k % 80;
                        let b = k / 80;
                        assert(m_pre.spec_in_bounds(a, b));
                        assert(!(a == wx as int && b == wy as int));
                        assert(map.tile_at(a, b) == m_pre.tile_at(a, b));
                    }
                    lemma_interior_wall_count_update(m_pre.tiles@, map.tiles@, 80, 50, j, 4000);
                }
            }
            i = i + 1;
        }
        proof {
            assert forall|a: int, b: int|
                map.spec_in_bounds(a, b) && (a == 0 || b == 0 || a == map.width - 1 || b
                    == map.height - 1) implies !map.spec_is_floor(a, b) by {
                assert(map.tile_at(a, b) == TileType::Wall);
            }
            assert(map.tile_at(40, 25) == TileType::Floor);
        }
        map
    }

    pub open spec fn spec_is_opaque(self, idx: int) -> bool {
        self.tiles@[idx] == TileType::Wall
    }

    /// Whether a tile blocks sight.
    pub fn is_opaque(&self, idx: usize) -> (r: bool)
        requires
            self.wf(),
            idx < self.tiles@.len(),
        ensures
            r == self.spec_is_opaque(idx as int),
    {
        self.tiles[idx] == TileType::Wall
    }

    /// The up-to-four cardinal neighbours of a tile that can be stepped
    /// onto, in west, east, north, south order; each carries a unit
    /// traversal cost.
    pub open spec fn spec_exits(self, idx: int) -> Seq<int> {
        let x = idx % (self.width as int);
        let y = idx / (self.width as int);
        let s0 = Seq::<int>::empty();
        let s1 = if self.spec_exit_valid(x - 1, y) {
            s0.push(idx - 1)
        } else {
            s0
        };
        let s2 = if self.spec_exit_valid(x + 1, y) {
            s1.push(idx + 1)
        } else {
            s1
        };
        let s3 = if self.spec_exit_valid(x, y - 1) {
            s2.push(idx - self.width)
        } else {
            s2
        };
        if self.spec_exit_valid(x, y + 1) {
            s3.push(idx + self.width)
        } else {
            s3
        }
    }

    /// Enumerate the walkable cardinal neighbours of a tile.
    pub fn get_available_exits(&self, idx: usize) -> (exits: Vec<usize>)
        requires
            self.wf(),
            idx < self.tiles@.len(),
        ensures
            exits@.map_values(|e: usize| e as int) == self.spec_exits(idx as int),
    {
        proof {
            vstd::arithmetic::div_mod::lemma_fundamental_div_mod(
                idx as int,
                self.width as int,
            );
            vstd::arithmetic::div_mod::lemma_mod_bound(idx as int, self.width as int);
            assert(idx / (self.width as usize) < self.height as int) by (nonlinear_arith)
                requires
                    0 < self.width,
                    idx < self.tiles@.len(),
                    self.tiles@.len() == self.width * self.height,
                    idx / (self.width as usize) == (idx as int) / (self.width as int),
            ;
            assert(self.tiles@.len() <= 0x1000000) by (nonlinear_arith)
                requires
                    0 < self.width <= 4096,
                    0 < self.height <= 4096,
                    self.tiles@.len() == self.width * self.height,
            ;
        }
        let w = self.width as usize;
        let x = (idx % w) as i32;
        let y = (idx / w) as i32;
        proof {
            let gw = self.width as int;
            assert(gw * ((idx as int) / gw) == ((idx as int) / gw) * gw) by (nonlinear_arith);
            assert(idx == gidx(gw, x as int, y as int));
            assert((y - 1) * gw == y * gw - gw && (y + 1) * gw == y * gw + gw) by (nonlinear_arith);
        }
        let mut exits: Vec<usize> = Vec::new();
        let ghost s0 = exits@.map_values(|e: usize| e as int);
        if self.is_exit_valid(x - 1, y) {
            exits.push(idx - 1);
        }
        let ghost s1 = exits@.map_values(|e: usize| e as int);
        proof {
            lemma_idx_bounds(self.width as int, self.height as int, x as int, y as int);
            if self.spec_exit_valid(x - 1, y as int) {
                assert(s1 =~= s0.push(idx - 1));
            } else {
                assert(s1 =~= s0);
            }
        }
        if self.is_exit_valid(x + 1, y) {
            exits.push(idx + 1);
        }
        let ghost s2 = exits@.map_values(|e: usize| e as int);
        proof {
            if self.spec_exit_valid(x + 1 as int, y as int) {
                assert(s2 =~= s1.push(idx + 1));
            } else {
                assert(s2 =~= s1);
            }
        }
        if self.is_exit_valid(x, y - 1) {
            proof {
                assert(gidx(self.width as int, x as int, y - 1) == idx - self.width);
            }
            exits.push(idx - w);
        }
        let ghost s3 = exits@.map_values(|e: usize| e as int);
        proof {
            if self.spec_exit_valid(x as int, y - 1) {
                assert(s3 =~= s2.push(idx - self.width));
            } else {
                assert(s3 =~= s2);
            }
        }
        if self.is_exit_valid(x, y + 1) {
            proof {
                lemma_idx_bounds(self.width as int, self.height as int, x as int, y + 1);
                assert(gidx(self.width as int, x as int, y + 1) == idx + self.width);
            }
            exits.push(idx + w);
        }
        proof {
            let sf = exits@.map_values(|e: usize| e as int);
            if self.spec_exit_valid(x as int, y + 1) {
                assert(sf =~= s3.push(idx + self.width));
            } else {
                assert(sf =~= s3);
            }
        }
        exits
    }

    /// The squared Euclidean distance between two tiles given by linear
    /// index; the caller can take the square root where a true distance is
    /// wanted.
    pub fn pathing_distance_squared(&self, idx1: usize, idx2: usize) -> (d: i32)
        requires
            self.wf(),
            idx1 < self.tiles@.len(),
            idx2 < self.tiles@.len(),
        ensures
            ({
                let w = self.width as int;
                let dx = idx1 as int % w - idx2 as int % w;
                let dy = idx1 as int / w - idx2 as int / w;
                d == dx * dx + dy * dy
            }),
    {
        proof {
            vstd::arithmetic::div_mod::lemma_fundamental_div_mod(idx1 as int, self.width as int);
            vstd::arithmetic::div_mod::lemma_fundamental_div_mod(idx2 as int, self.width as int);
            vstd::arithmetic::div_mod::lemma_mod_bound(idx1 as int, self.width as int);
            vstd::arithmetic::div_mod::lemma_mod_bound(idx2 as int, self.width as int);
            assert(idx1 / (self.width as usize) < 4096 && idx2 / (self.width as usize)
                < 4096) by (nonlinear_arith)
                requires
                    0 < self.width <= 4096,
                    0 < self.height <= 4096,
                    idx1 < self.tiles@.len(),
                    idx2 < self.tiles@.len(),
                    self.tiles@.len() == self.width * self.height,
                    idx1 / (self.width as usize) == (idx1 as int) / (self.width as int),
                    idx2 / (self.width as usize) == (idx2 as int) / (self.width as int),
            ;
        }
        let w = self.width as usize;
        let x1 = (idx1 % w) as i32;
        let y1 = (idx1 / w) as i32;
        let x2 = (idx2 % w) as i32;
        let y2 = (idx2 / w) as i32;
        let dx = x1 - x2;
        let dy = y1 - y2;
        proof {
            assert(dx * dx + dy * dy <= 2 * 4096 * 4096 && dx * dx >= 0 && dy * dy
                >= 0) by (nonlinear_arith)
                requires
                    -4096 <= dx <= 4096,
                    -4096 <= dy <= 4096,
            ;
        }
        dx * dx + dy * dy
    }
}

} // verus!
