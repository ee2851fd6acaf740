//! Rectangles in a single top-left-origin integer pixel space, with the
//! point-membership and disjointness notions the layout proofs are stated in.

use vstd::prelude::*;

verus! {

/// Largest magnitude any coordinate, width or height may take. Keeping every
/// rectangle inside this box keeps all layout arithmetic far from overflow.
pub const COORD_LIMIT: i64 = 65536;

#[derive(Debug, Clone, Copy, PartialEq, Eq, Structural)]
pub struct Rect {
    pub x: i64,
    pub y: i64,
    pub width: i64,
    pub height: i64,
}

impl Rect {
    /// A rectangle the layout engine is willing to work with: non-negative
    /// extent, both edges within the coordinate box.
    pub open spec fn wf(self) -> bool {
        &&& -COORD_LIMIT <= self.x
        &&& self.x + self.width <= COORD_LIMIT
        &&& -COORD_LIMIT <= self.y
        &&& self.y + self.height <= COORD_LIMIT
        &&& 0 <= self.width
        &&& 0 <= self.height
    }

    /// Right edge (exclusive).
    pub open spec fn x2(self) -> int {
        self.x + self.width
    }

    /// Bottom edge (exclusive).
    pub open spec fn y2(self) -> int {
        self.y + self.height
    }

    /// Half-open membership: edges on the right and bottom belong to the
    /// neighbour. This is the notion tiling and non-overlap are stated in.
    pub open spec fn has_point(self, px: int, py: int) -> bool {
        &&& self.x <= px < self.x2()
        &&& self.y <= py < self.y2()
    }

    /// Closed membership, used by the snap zones: a window centre resting
    /// exactly on a zone border still counts as inside the zone.
    pub open spec fn has_point_closed(self, px: int, py: int) -> bool {
        &&& self.x <= px <= self.x2()
        &&& self.y <= py <= self.y2()
    }

    /// No point lies in both rectangles.
    pub open spec fn disjoint(self, other: Rect) -> bool {
        forall|px: int, py: int| !(self.has_point(px, py) && other.has_point(px, py))
    }

    /// One rectangle lies entirely within another.
    pub open spec fn inside(self, outer: Rect) -> bool {
        forall|px: int, py: int| self.has_point(px, py) ==> outer.has_point(px, py)
    }

    pub fn new(x: i64, y: i64, width: i64, height: i64) -> (r: Rect)
        ensures
            r == (Rect { x, y, width, height }),
    {
        Rect { x, y, width, height }
    }

    /// The centre point, rounding half-pixels left and up.
    pub fn center(&self) -> (c: (i64, i64))
        requires
            self.wf(),
        ensures
            c.0 == self.x + self.width / 2,
            c.1 == self.y + self.height / 2,
    {
        (self.x + self.width / 2, self.y + self.height / 2)
    }

    /// Fields loosely bounded: enough for membership arithmetic, without
    /// demanding a non-negative extent (degenerate rectangles hold nothing).
    pub open spec fn loose_wf(self) -> bool {
        &&& -4 * COORD_LIMIT <= self.x <= 4 * COORD_LIMIT
        &&& -4 * COORD_LIMIT <= self.y <= 4 * COORD_LIMIT
        &&& -4 * COORD_LIMIT <= self.width <= 4 * COORD_LIMIT
        &&& -4 * COORD_LIMIT <= self.height <= 4 * COORD_LIMIT
    }

    /// The rectangle's area in square pixels.
    pub fn area(&self) -> (a: i64)
        requires
            self.wf(),
        ensures
            a == self.width * self.height,
    {
        proof {
            assert(self.width * self.height <= 2 * COORD_LIMIT * (2 * COORD_LIMIT))
                by (nonlinear_arith)
                requires
                    0 <= self.width <= 2 * COORD_LIMIT,
                    0 <= self.height <= 2 * COORD_LIMIT,
            ;
            assert(self.width * self.height >= 0) by (nonlinear_arith)
                requires
                    0 <= self.width,
                    0 <= self.height,
            ;
        }
        self.width * self.height
    }

    /// Executable well-formedness test.
    pub fn is_wf(&self) -> (b: bool)
        ensures
            b == self.wf(),
    {
        self.x >= -COORD_LIMIT && self.width >= 0 && self.x <= COORD_LIMIT - self.width
            && self.y >= -COORD_LIMIT && self.height >= 0 && self.y <= COORD_LIMIT - self.height
    }

    /// Half-open membership test.
    pub fn contains(&self, px: i64, py: i64) -> (b: bool)
        requires
            self.loose_wf(),
            -4 * COORD_LIMIT <= px <= 4 * COORD_LIMIT,
            -4 * COORD_LIMIT <= py <= 4 * COORD_LIMIT,
        ensures
            b == self.has_point(px as int, py as int),
    {
        px >= self.x && px < self.x + self.width && py >= self.y && py < self.y + self.height
    }

    /// Closed membership test (snap zones).
    pub fn contains_closed(&self, px: i64, py: i64) -> (b: bool)
        requires
            self.loose_wf(),
            -4 * COORD_LIMIT <= px <= 4 * COORD_LIMIT,
            -4 * COORD_LIMIT <= py <= 4 * COORD_LIMIT,
        ensures
            b == self.has_point_closed(px as int, py as int),
    {
        px >= self.x && px <= self.x + self.width && py >= self.y && py <= self.y + self.height
    }

    /// What a tile loses to the gap: half the gap on each side.
    pub open spec fn spec_inset(self, gap: int) -> Rect {
        Rect {
            x: (self.x + gap / 2) as i64,
            y: (self.y + gap / 2) as i64,
            width: (self.width - gap) as i64,
            height: (self.height - gap) as i64,
        }
    }

    /// Shrink by half the gap on every side, so that adjacent tiles end up a
    /// full gap apart.
    pub fn inset(&self, gap: i64) -> (r: Rect)
        requires
            self.wf(),
            0 <= gap <= COORD_LIMIT,
        ensures
            r == self.spec_inset(gap as int),
    {
        Rect {
            x: self.x + gap / 2,
            y: self.y + gap / 2,
            width: self.width - gap,
            height: self.height - gap,
        }
    }


    /// The rectangle pressed into another: each edge is moved to the nearest
    /// point of the enclosing rectangle, so the result always lies inside it;
    /// a rectangle already inside comes back unchanged.
    pub open spec fn spec_clamp_into(self, s: Rect) -> Rect {
        let x1 = if self.x < s.x {
            s.x as int
        } else if self.x > s.x + s.width {
            s.x + s.width
        } else {
            self.x as int
        };
        let y1 = if self.y < s.y {
            s.y as int
        } else if self.y > s.y + s.height {
            s.y + s.height
        } else {
            self.y as int
        };
        let x2 = if self.x + self.width < x1 {
            x1
        } else if self.x + self.width > s.x + s.width {
            s.x + s.width
        } else {
            self.x + self.width
        };
        let y2 = if self.y + self.height < y1 {
            y1
        } else if self.y + self.height > s.y + s.height {
            s.y + s.height
        } else {
            self.y + self.height
        };
        Rect { x: x1 as i64, y: y1 as i64, width: (x2 - x1) as i64, height: (y2 - y1) as i64 }
    }

    /// Press the rectangle into another.
    pub fn clamp_into(&self, s: &Rect) -> (r: Rect)
        requires
            s.wf(),
            -0x1_0000_0000_0000 <= self.x <= 0x1_0000_0000_0000,
            -0x1_0000_0000_0000 <= self.y <= 0x1_0000_0000_0000,
            -0x1_0000_0000_0000 <= self.width <= 0x1_0000_0000_0000,
            -0x1_0000_0000_0000 <= self.height <= 0x1_0000_0000_0000,
        ensures
            r == self.spec_clamp_into(*s),
    {
        let sx2 = s.x + s.width;
        let sy2 = s.y + s.height;
        let x1 = if self.x < s.x {
            s.x
        } else if self.x > sx2 {
            sx2
        } else {
            self.x
        };
        let y1 = if self.y < s.y {
            s.y
        } else if self.y > sy2 {
            sy2
        } else {
            self.y
        };
        let rx2 = self.x + self.width;
        let ry2 = self.y + self.height;
        let x2 = if rx2 < x1 {
            x1
        } else if rx2 > sx2 {
            sx2
        } else {
            rx2
        };
        let y2 = if ry2 < y1 {
            y1
        } else if ry2 > sy2 {
            sy2
        } else {
            ry2
        };
        Rect { x: x1, y: y1, width: x2 - x1, height: y2 - y1 }
    }

    /// A pressed rectangle lies inside the enclosing one, edge to edge.
    pub proof fn lemma_clamp_inside(self, s: Rect)
        requires
            s.wf(),
        ensures
            self.spec_clamp_into(s).x >= s.x,
            self.spec_clamp_into(s).y >= s.y,
            self.spec_clamp_into(s).x + self.spec_clamp_into(s).width <= s.x + s.width,
            self.spec_clamp_into(s).y + self.spec_clamp_into(s).height <= s.y + s.height,
            self.spec_clamp_into(s).width >= 0,
            self.spec_clamp_into(s).height >= 0,
            self.spec_clamp_into(s).wf(),
    {
    }

    /// The inverse of `spec_inset` for even gaps: grow by half the gap on
    /// every side.
    pub open spec fn spec_grow(self, gap: int) -> Rect {
        Rect {
            x: (self.x - gap / 2) as i64,
            y: (self.y - gap / 2) as i64,
            width: (self.width + gap) as i64,
            height: (self.height + gap) as i64,
        }
    }

    /// Growing an inset tile by the same gap restores the tile exactly, as
    /// long as the gap splits evenly into its two half-gap sides.
    pub proof fn lemma_grow_inverts_inset(self, gap: int)
        requires
            self.wf(),
            0 <= gap <= COORD_LIMIT,
            gap % 2 == 0,
        ensures
            self.spec_inset(gap).spec_grow(gap) == self,
    {
    }
}

} // verus!
