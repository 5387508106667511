//! Axis-aligned bounding boxes and their algebra: overlap, containment,
//! directional predicates, union, intersection, area and enlargement.
//!
//! Coordinates are `i64` fixed-point units. Every operation is exact; there
//! is no rounding and no tolerance.

use vstd::prelude::*;
use crate::utils::RostGisError;

verus! {

/// Largest coordinate magnitude the algebra accepts. Keeping every
/// coordinate in `[-COORD_LIMIT, COORD_LIMIT]` lets areas and squared
/// center distances be computed exactly in `i64`, inside this library and
/// inside the tree that indexes the boxes.
pub const COORD_LIMIT: i64 = 100_000_000;

/// An axis-aligned rectangle given by its lower-left and upper-right
/// corners. A box may degenerate to a segment or a point (`min == max` on
/// one or both axes). Equality is exact component-wise equality.
#[derive(Clone, Copy, Debug, PartialEq, Eq, Structural)]
pub struct BBox {
    pub min_x: i64,
    pub min_y: i64,
    pub max_x: i64,
    pub max_y: i64,
}

/// True when the four corner values make a valid box: ordered on both axes
/// and within the coordinate limit.
pub open spec fn valid_corners(min_x: i64, min_y: i64, max_x: i64, max_y: i64) -> bool {
    &&& -COORD_LIMIT <= min_x <= max_x <= COORD_LIMIT
    &&& -COORD_LIMIT <= min_y <= max_y <= COORD_LIMIT
}

impl BBox {
    /// A well-formed box: corners ordered on both axes, coordinates within
    /// the limit.
    pub open spec fn wf(self) -> bool {
        valid_corners(self.min_x, self.min_y, self.max_x, self.max_y)
    }

    /// Boxes overlap unless they are separated on some axis; touching
    /// edges count as overlapping.
    pub open spec fn spec_overlaps(self, other: BBox) -> bool {
        !(self.max_x < other.min_x || other.max_x < self.min_x || self.max_y < other.min_y
            || other.max_y < self.min_y)
    }

    /// `self` contains `other` when it covers it on both axes.
    pub open spec fn spec_contains(self, other: BBox) -> bool {
        self.min_x <= other.min_x && self.min_y <= other.min_y && self.max_x >= other.max_x
            && self.max_y >= other.max_y
    }

    /// Strictly to the left of `other`.
    pub open spec fn spec_left(self, other: BBox) -> bool {
        self.max_x < other.min_x
    }

    /// Strictly to the right of `other`.
    pub open spec fn spec_right(self, other: BBox) -> bool {
        self.min_x > other.max_x
    }

    /// Strictly below `other`.
    pub open spec fn spec_below(self, other: BBox) -> bool {
        self.max_y < other.min_y
    }

    /// Strictly above `other`.
    pub open spec fn spec_above(self, other: BBox) -> bool {
        self.min_y > other.max_y
    }

    /// Does not extend to the right of `other`: the negation of the
    /// opposite strict predicate, so touching and overlap are permitted.
    pub open spec fn spec_overleft(self, other: BBox) -> bool {
        !self.spec_right(other)
    }

    /// Does not extend to the left of `other`.
    pub open spec fn spec_overright(self, other: BBox) -> bool {
        !self.spec_left(other)
    }

    /// Does not extend above `other`.
    pub open spec fn spec_overbelow(self, other: BBox) -> bool {
        !self.spec_above(other)
    }

    /// Does not extend below `other`.
    pub open spec fn spec_overabove(self, other: BBox) -> bool {
        !self.spec_below(other)
    }

    /// The smallest box containing both: component-wise minimum of the
    /// lower corners and maximum of the upper corners.
    pub open spec fn spec_union(self, other: BBox) -> BBox {
        BBox {
            min_x: if self.min_x <= other.min_x {
                self.min_x
            } else {
                other.min_x
            },
            min_y: if self.min_y <= other.min_y {
                self.min_y
            } else {
                other.min_y
            },
            max_x: if self.max_x >= other.max_x {
                self.max_x
            } else {
                other.max_x
            },
            max_y: if self.max_y >= other.max_y {
                self.max_y
            } else {
                other.max_y
            },
        }
    }

    /// Component-wise maximum of the lower corners and minimum of the
    /// upper corners; a valid box exactly when the two boxes overlap.
    pub open spec fn spec_intersection(self, other: BBox) -> BBox {
        BBox {
            min_x: if self.min_x >= other.min_x {
                self.min_x
            } else {
                other.min_x
            },
            min_y: if self.min_y >= other.min_y {
                self.min_y
            } else {
                other.min_y
            },
            max_x: if self.max_x <= other.max_x {
                self.max_x
            } else {
                other.max_x
            },
            max_y: if self.max_y <= other.max_y {
                self.max_y
            } else {
                other.max_y
            },
        }
    }

    /// Width times height. A degenerate box (a segment or a point) has
    /// zero area.
    pub open spec fn spec_area(self) -> int {
        (self.max_x - self.min_x) * (self.max_y - self.min_y)
    }

    /// The marginal area cost of absorbing `other` into `self`.
    pub open spec fn spec_enlargement(self, other: BBox) -> int {
        self.spec_union(other).spec_area() - self.spec_area()
    }

    /// Four times the squared Euclidean distance from the center of the
    /// box to the point: doubled coordinates keep the center exact for
    /// boxes of odd extent. Scaling by a constant preserves every
    /// distance comparison.
    pub open spec fn spec_center_dist_sq(self, px: i64, py: i64) -> int {
        let dx = self.min_x + self.max_x - 2 * px;
        let dy = self.min_y + self.max_y - 2 * py;
        dx * dx + dy * dy
    }

    /// Validates four corner values and builds the box, or reports an
    /// invalid-geometry condition: corners out of order on some axis, or
    /// a coordinate beyond the supported limit.
    pub fn new(min_x: i64, min_y: i64, max_x: i64, max_y: i64) -> (r: Result<BBox, RostGisError>)
        ensures
            valid_corners(min_x, min_y, max_x, max_y) <==> r is Ok,
            r matches Ok(b) ==> b == (BBox { min_x, min_y, max_x, max_y }) && b.wf(),
            r matches Err(e) ==> e.message@ == "Invalid bounding box"@,
    {
        if min_x <= max_x && min_y <= max_y && -COORD_LIMIT <= min_x && max_x <= COORD_LIMIT
            && -COORD_LIMIT <= min_y && max_y <= COORD_LIMIT {
            Ok(BBox { min_x, min_y, max_x, max_y })
        } else {
            Err(RostGisError::new("Invalid bounding box"))
        }
    }

    /// Checks whether two bounding boxes overlap; touching edges count.
    pub fn overlaps(&self, other: &BBox) -> (r: bool)
        ensures
            r == self.spec_overlaps(*other),
    {
        !(self.max_x < other.min_x || other.max_x < self.min_x || self.max_y < other.min_y
            || other.max_y < self.min_y)
    }

    /// Checks whether this box contains another.
    pub fn contains(&self, other: &BBox) -> (r: bool)
        ensures
            r == self.spec_contains(*other),
    {
        self.min_x <= other.min_x && self.min_y <= other.min_y && self.max_x >= other.max_x
            && self.max_y >= other.max_y
    }

    /// Checks whether this box is contained by another.
    pub fn within(&self, other: &BBox) -> (r: bool)
        ensures
            r == other.spec_contains(*self),
    {
        other.contains(self)
    }

    /// Checks whether this box is strictly left of another.
    pub fn left(&self, other: &BBox) -> (r: bool)
        ensures
            r == self.spec_left(*other),
    {
        self.max_x < other.min_x
    }

    /// Checks whether this box is strictly right of another.
    pub fn right(&self, other: &BBox) -> (r: bool)
        ensures
            r == self.spec_right(*other),
    {
        self.min_x > other.max_x
    }

    /// Checks whether this box is strictly below another.
    pub fn below(&self, other: &BBox) -> (r: bool)
        ensures
            r == self.spec_below(*other),
    {
        self.max_y < other.min_y
    }

    /// Checks whether this box is strictly above another.
    pub fn above(&self, other: &BBox) -> (r: bool)
        ensures
            r == self.spec_above(*other),
    {
        self.min_y > other.max_y
    }

    /// The area of the box.
    pub fn area(&self) -> (r: i64)
        requires
            self.wf(),
        ensures
            r == self.spec_area(),
    {
        let dx: i64 = self.max_x - self.min_x;
        let dy: i64 = self.max_y - self.min_y;
        proof {
            lemma_mul_bounds(dx as int, dy as int, 2 * (COORD_LIMIT as int), 2 * (
            COORD_LIMIT as int));
        }
        dx * dy
    }

    /// The smallest box containing both `self` and `other`.
    pub fn union(&self, other: &BBox) -> (r: BBox)
        ensures
            r == self.spec_union(*other),
            self.wf() && other.wf() ==> r.wf(),
    {
        BBox {
            min_x: if self.min_x <= other.min_x {
                self.min_x
            } else {
                other.min_x
            },
            min_y: if self.min_y <= other.min_y {
                self.min_y
            } else {
                other.min_y
            },
            max_x: if self.max_x >= other.max_x {
                self.max_x
            } else {
                other.max_x
            },
            max_y: if self.max_y >= other.max_y {
                self.max_y
            } else {
                other.max_y
            },
        }
    }

    /// The overlap of two boxes, or `None` when they are disjoint.
    pub fn intersection(&self, other: &BBox) -> (r: Option<BBox>)
        requires
            self.wf(),
            other.wf(),
        ensures
            r is Some <==> self.spec_overlaps(*other),
            r matches Some(b) ==> b == self.spec_intersection(*other) && b.wf(),
    {
        let min_x = if self.min_x >= other.min_x {
            self.min_x
        } else {
            other.min_x
        };
        let min_y = if self.min_y >= other.min_y {
            self.min_y
        } else {
            other.min_y
        };
        let max_x = if self.max_x <= other.max_x {
            self.max_x
        } else {
            other.max_x
        };
        let max_y = if self.max_y <= other.max_y {
            self.max_y
        } else {
            other.max_y
        };
        if min_x <= max_x && min_y <= max_y {
            Some(BBox { min_x, min_y, max_x, max_y })
        } else {
            None
        }
    }

    /// The marginal area cost of enlarging `self` to absorb `other`.
    pub fn enlargement(&self, other: &BBox) -> (r: i64)
        requires
            self.wf(),
            other.wf(),
        ensures
            r == self.spec_enlargement(*other),
    {
        let u = self.union(other);
        proof {
            lemma_area_bounds(u);
            lemma_area_bounds(*self);
        }
        u.area() - self.area()
    }

    /// Four times the squared Euclidean distance from the box center to
    /// the given point.
    pub fn center_distance_sq(&self, px: i64, py: i64) -> (r: i64)
        requires
            self.wf(),
            -COORD_LIMIT <= px <= COORD_LIMIT,
            -COORD_LIMIT <= py <= COORD_LIMIT,
        ensures
            r == self.spec_center_dist_sq(px, py),
    {
        let dx: i64 = self.min_x + self.max_x - 2 * px;
        let dy: i64 = self.min_y + self.max_y - 2 * py;
        proof {
            lemma_square_bounds(dx as int, 4 * (COORD_LIMIT as int));
            lemma_square_bounds(dy as int, 4 * (COORD_LIMIT as int));
        }
        dx * dx + dy * dy
    }
}

/// A product of values in `[0, bx]` and `[0, by]` lies in `[0, bx * by]`.
pub proof fn lemma_mul_bounds(x: int, y: int, bx: int, by: int)
    requires
        0 <= x <= bx,
        0 <= y <= by,
    ensures
        0 <= x * y <= bx * by,
{
    assert(0 <= x * y <= bx * by) by (nonlinear_arith)
        requires
            0 <= x <= bx,
            0 <= y <= by,
    ;
}

/// The square of a value of magnitude at most `b` lies in `[0, b * b]`.
pub proof fn lemma_square_bounds(x: int, b: int)
    requires
        -b <= x <= b,
    ensures
        0 <= x * x <= b * b,
{
    assert(0 <= x * x <= b * b) by (nonlinear_arith)
        requires
            -b <= x <= b,
    ;
}

/// The area of a well-formed box is non-negative and bounded by the area
/// of the whole coordinate plane.
pub proof fn lemma_area_bounds(b: BBox)
    requires
        b.wf(),
    ensures
        0 <= b.spec_area() <= 4 * (COORD_LIMIT as int) * (COORD_LIMIT as int),
{
    lemma_mul_bounds(
        b.max_x - b.min_x,
        b.max_y - b.min_y,
        2 * (COORD_LIMIT as int),
        2 * (COORD_LIMIT as int),
    );
    assert((2 * (COORD_LIMIT as int)) * (2 * (COORD_LIMIT as int)) == 4 * (COORD_LIMIT as int) * (
    COORD_LIMIT as int)) by (nonlinear_arith);
}

/// The union of two well-formed boxes is well formed.
pub proof fn lemma_union_wf(a: BBox, b: BBox)
    requires
        a.wf(),
        b.wf(),
    ensures
        a.spec_union(b).wf(),
{
}

/// Overlap is symmetric.
pub proof fn lemma_overlaps_symmetric(a: BBox, b: BBox)
    ensures
        a.spec_overlaps(b) == b.spec_overlaps(a),
{
}

/// The union of two boxes contains both of them.
pub proof fn lemma_union_contains_both(a: BBox, b: BBox)
    ensures
        a.spec_union(b).spec_contains(a),
        a.spec_union(b).spec_contains(b),
{
}

/// A box covering another has at least its area.
pub proof fn lemma_area_contains_monotone(outer: BBox, inner: BBox)
    requires
        outer.wf(),
        inner.wf(),
        outer.spec_contains(inner),
    ensures
        outer.spec_area() >= inner.spec_area(),
{
    assert((outer.max_x - outer.min_x) * (outer.max_y - outer.min_y) >= (inner.max_x
        - inner.min_x) * (inner.max_y - inner.min_y)) by (nonlinear_arith)
        requires
            0 <= inner.max_x - inner.min_x <= outer.max_x - outer.min_x,
            0 <= inner.max_y - inner.min_y <= outer.max_y - outer.min_y,
    ;
}

/// The union of two well-formed boxes is at least as large as either.
pub proof fn lemma_union_area_monotone(a: BBox, b: BBox)
    requires
        a.wf(),
        b.wf(),
    ensures
        a.spec_union(b).spec_area() >= a.spec_area(),
        a.spec_union(b).spec_area() >= b.spec_area(),
{
    lemma_union_contains_both(a, b);
    lemma_area_contains_monotone(a.spec_union(b), a);
    lemma_area_contains_monotone(a.spec_union(b), b);
}

/// Two boxes that contain each other are component-wise equal, and
/// conversely.
pub proof fn lemma_contains_antisymmetric(a: BBox, b: BBox)
    ensures
        a.spec_contains(b) && b.spec_contains(a) <==> a == b,
{
}

/// Containment implies overlap, provided the contained box is well
/// formed.
pub proof fn lemma_contains_implies_overlaps(a: BBox, b: BBox)
    requires
        b.min_x <= b.max_x,
        b.min_y <= b.max_y,
        a.spec_contains(b),
    ensures
        a.spec_overlaps(b),
{
}

/// Enlargement is never negative for well-formed boxes.
pub proof fn lemma_enlargement_nonnegative(a: BBox, b: BBox)
    requires
        a.wf(),
        b.wf(),
    ensures
        a.spec_enlargement(b) >= 0,
{
    lemma_union_area_monotone(a, b);
}

/// Absorbing a box that is already covered costs nothing.
pub proof fn lemma_enlargement_zero_when_contains(a: BBox, b: BBox)
    requires
        a.spec_contains(b),
    ensures
        a.spec_enlargement(b) == 0,
{
    assert(a.spec_union(b) == a);
}

} // verus!
