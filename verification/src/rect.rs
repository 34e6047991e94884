use vstd::prelude::*;

verus! {

/// An axis-aligned rectangle used for dungeon rooms. A valid room has
/// `x1 < x2` and `y1 < y2`.
#[derive(PartialEq, Eq, Structural, Clone, Copy, Debug)]
pub struct Rect {
    pub x1: i32,
    pub y1: i32,
    pub x2: i32,
    pub y2: i32,
}

impl Rect {
    /// A structurally valid rectangle: nonempty extent on both axes.
    pub open spec fn wf(self) -> bool {
        self.x1 < self.x2 && self.y1 < self.y2
    }

    /// Construct a rectangle from its top-left corner and extents.
    pub fn new(x: i32, y: i32, w: i32, h: i32) -> (r: Rect)
        requires
            0 < w,
            0 < h,
            x + w <= i32::MAX,
            y + h <= i32::MAX,
        ensures
            r.x1 == x,
            r.y1 == y,
            r.x2 == x + w,
            r.y2 == y + h,
            r.wf(),
    {
        Rect { x1: x, y1: y, x2: x + w, y2: y + h }
    }

    /// The cells carved to floor for a room: everything strictly inside the
    /// left/top edge, through the right/bottom edge.
    pub open spec fn interior_contains(self, x: int, y: int) -> bool {
        self.x1 + 1 <= x <= self.x2 && self.y1 + 1 <= y <= self.y2
    }

    /// Whether two rectangles overlap on both axes (edges touching counts
    /// as overlap here; rooms carved from non-intersecting rectangles keep
    /// a one-tile wall between their interiors).
    pub open spec fn spec_intersect(self, other: Rect) -> bool {
        self.x1 <= other.x2 && self.x2 >= other.x1 && self.y1 <= other.y2 && self.y2 >= other.y1
    }

    /// Overlap test used to reject room candidates.
    pub fn intersect(&self, other: &Rect) -> (r: bool)
        ensures
            r == self.spec_intersect(*other),
    {
        self.x1 <= other.x2 && self.x2 >= other.x1 && self.y1 <= other.y2 && self.y2 >= other.y1
    }

    /// The integer midpoint, rounding toward the lower-right on ties.
    pub open spec fn spec_center(self) -> (int, int) {
        ((self.x1 + self.x2) / 2, (self.y1 + self.y2) / 2)
    }

    /// The rectangle's center, rounding toward the lower-right on ties.
    pub fn center(&self) -> (c: (i32, i32))
        requires
            0 <= self.x1,
            0 <= self.x2,
            0 <= self.y1,
            0 <= self.y2,
            self.x1 + self.x2 <= i32::MAX,
            self.y1 + self.y2 <= i32::MAX,
        ensures
            c.0 == self.spec_center().0,
            c.1 == self.spec_center().1,
    {
        ((self.x1 + self.x2) / 2, (self.y1 + self.y2) / 2)
    }
}

/// The center of a rectangle at least four tiles wide and tall lies in its
/// carved interior, two tiles clear of the rectangle's edges.
pub proof fn lemma_center_margins(r: Rect)
    requires
        r.x2 - r.x1 >= 4,
        r.y2 - r.y1 >= 4,
    ensures
        r.x1 + 2 <= r.spec_center().0 <= r.x2 - 2,
        r.y1 + 2 <= r.spec_center().1 <= r.y2 - 2,
        r.interior_contains(r.spec_center().0, r.spec_center().1),
{
    let cx = (r.x1 + r.x2) / 2;
    let cy = (r.y1 + r.y2) / 2;
    assert(r.x1 + 2 <= cx <= r.x2 - 2);
    assert(r.y1 + 2 <= cy <= r.y2 - 2);
}

} // verus!
