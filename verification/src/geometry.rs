//! Axis-aligned room rectangles and the straight corridor segments carved
//! between their centers.

use vstd::prelude::*;

verus! {

/// An axis-aligned rectangle in grid coordinates, used for room placement.
/// The closed ranges `[x1, x2]` and `[y1, y2]` are the rectangle including its
/// one-tile border; only the open interior is ever carved to floor.
#[derive(Clone, Copy, Debug, PartialEq, Eq, Structural)]
pub struct Rect {
    pub x1: i32,
    pub y1: i32,
    pub x2: i32,
    pub y2: i32,
}

impl Rect {
    /// Nonnegative coordinates and a nonempty extent on both axes.
    pub open spec fn wf(self) -> bool {
        0 <= self.x1 < self.x2 && 0 <= self.y1 < self.y2
    }

    /// The integer midpoint, biased toward the lower corner by truncating
    /// division; corridor endpoints depend on this exact bias.
    pub open spec fn center_spec(self) -> (int, int) {
        ((self.x1 + self.x2) / 2, (self.y1 + self.y2) / 2)
    }

    /// Closed-interval overlap on both axes: rectangles sharing only a border
    /// edge or corner still count as intersecting, which is what guarantees a
    /// one-tile separating wall between any two accepted rooms.
    pub open spec fn intersects_spec(self, other: Rect) -> bool {
        self.x1 <= other.x2 && self.x2 >= other.x1 && self.y1 <= other.y2 && self.y2 >= other.y1
    }

    /// `(x, y)` lies strictly inside the rectangle (the carved part).
    pub open spec fn contains_interior(self, x: int, y: int) -> bool {
        self.x1 < x < self.x2 && self.y1 < y < self.y2
    }

    /// `(x, y)` lies in the closed rectangle, border included.
    pub open spec fn contains_closed(self, x: int, y: int) -> bool {
        self.x1 <= x <= self.x2 && self.y1 <= y <= self.y2
    }

    /// `(x, y)` lies on the one-tile border of the rectangle.
    pub open spec fn on_border(self, x: int, y: int) -> bool {
        self.contains_closed(x, y) && !self.contains_interior(x, y)
    }

    /// Builds the rectangle with corners `(x, y)` and `(x + w, y + h)`.
    /// The caller guarantees a positive extent and that the result fits the
    /// grid; no bounds check happens here.
    pub fn new(x: i32, y: i32, w: i32, h: i32) -> (r: Rect)
        requires
            0 <= x,
            0 <= y,
            0 < w,
            0 < h,
            x + w <= i32::MAX,
            y + h <= i32::MAX,
        ensures
            r == (Rect { x1: x, y1: y, x2: (x + w) as i32, y2: (y + h) as i32 }),
            r.wf(),
    {
        Rect { x1: x, y1: y, x2: x + w, y2: y + h }
    }

    /// The truncated integer midpoint of the rectangle.
    pub fn center(&self) -> (c: (i32, i32))
        requires
            self.wf(),
            self.x1 + self.x2 <= i32::MAX,
            self.y1 + self.y2 <= i32::MAX,
        ensures
            (c.0 as int, c.1 as int) == self.center_spec(),
            self.x1 <= c.0 <= self.x2,
            self.y1 <= c.1 <= self.y2,
    {
        let center_x = (((self.x1 + self.x2) as u32) / 2) as i32;
        let center_y = (((self.y1 + self.y2) as u32) / 2) as i32;
        (center_x, center_y)
    }

    /// Returns true iff the two rectangles overlap under the closed-interval
    /// test of `intersects_spec`.
    pub fn intersects_with(&self, other: &Rect) -> (r: bool)
        ensures
            r == self.intersects_spec(*other),
    {
        (self.x1 <= other.x2)
            && (self.x2 >= other.x1)
            && (self.y1 <= other.y2)
            && (self.y2 >= other.y1)
    }
}

/// Rectangles that fail the closed-interval intersection test share no point,
/// border included: every pair of accepted rooms is separated on some axis.
pub proof fn lemma_separated(a: Rect, b: Rect, x: int, y: int)
    requires
        !a.intersects_spec(b),
    ensures
        !(a.contains_closed(x, y) && b.contains_closed(x, y)),
{
}

/// One horizontal or vertical corridor segment: the carved line runs between
/// `a` and `b` (in either order, ends included) at the fixed `cross`
/// coordinate on the other axis.
pub struct Segment {
    pub horizontal: bool,
    pub a: int,
    pub b: int,
    pub cross: int,
}

/// `v` lies between `a` and `b` inclusively, whichever order they arrive in.
pub open spec fn in_between(a: int, b: int, v: int) -> bool {
    a <= v <= b || b <= v <= a
}

/// `(x, y)` lies on the carved line of the segment.
pub open spec fn on_segment(s: Segment, x: int, y: int) -> bool {
    if s.horizontal {
        y == s.cross && in_between(s.a, s.b, x)
    } else {
        x == s.cross && in_between(s.a, s.b, y)
    }
}

} // verus!
