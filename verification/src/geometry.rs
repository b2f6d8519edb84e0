//! Axis-aligned rectangles over the mathematical integers: the model that
//! the contracts of every bounds type speak of.
use vstd::prelude::*;

verus! {

/// An axis-aligned rectangle with integer corners.
///
/// A rectangle is a pair of closed intervals, one per axis: two rectangles
/// that share only an edge or a corner still meet, in a rectangle of zero
/// area.
pub ghost struct Rect {
    pub min_x: int,
    pub min_y: int,
    pub max_x: int,
    pub max_y: int,
}

pub open spec fn max_int(a: int, b: int) -> int {
    if a >= b {
        a
    } else {
        b
    }
}

pub open spec fn min_int(a: int, b: int) -> int {
    if a <= b {
        a
    } else {
        b
    }
}

impl Rect {
    /// The minimum corner is not beyond the maximum corner.
    pub open spec fn wf(self) -> bool {
        self.min_x <= self.max_x && self.min_y <= self.max_y
    }

    pub open spec fn width(self) -> int {
        self.max_x - self.min_x
    }

    pub open spec fn height(self) -> int {
        self.max_y - self.min_y
    }

    /// Number of unit cells that the rectangle covers.
    pub open spec fn area(self) -> int {
        self.width() * self.height()
    }

    /// The point `(x, y)` lies in the rectangle, edges included.
    pub open spec fn contains_point(self, x: int, y: int) -> bool {
        self.min_x <= x <= self.max_x && self.min_y <= y <= self.max_y
    }

    /// Every point of `other` lies in `self`.
    pub open spec fn contains(self, other: Rect) -> bool {
        &&& self.min_x <= other.min_x
        &&& self.min_y <= other.min_y
        &&& other.max_x <= self.max_x
        &&& other.max_y <= self.max_y
    }

    /// Componentwise maximum of the minimum corners and minimum of the
    /// maximum corners. It is the common part of the two rectangles when
    /// they meet, and is not well formed when they do not.
    pub open spec fn meet(self, other: Rect) -> Rect {
        Rect {
            min_x: max_int(self.min_x, other.min_x),
            min_y: max_int(self.min_y, other.min_y),
            max_x: min_int(self.max_x, other.max_x),
            max_y: min_int(self.max_y, other.max_y),
        }
    }

    /// The two rectangles have at least one point in common.
    pub open spec fn overlaps(self, other: Rect) -> bool {
        self.meet(other).wf()
    }

    /// The common part of two rectangles, if they have one.
    pub open spec fn intersection(self, other: Rect) -> Option<Rect> {
        if self.overlaps(other) {
            Some(self.meet(other))
        } else {
            None
        }
    }
}

/// Two well-formed rectangles overlap exactly when some point lies in both.
pub proof fn lemma_overlap_is_shared_point(a: Rect, b: Rect)
    requires
        a.wf(),
        b.wf(),
    ensures
        a.overlaps(b) <==> exists|x: int, y: int|
            #[trigger] a.contains_point(x, y) && b.contains_point(x, y),
{
    if a.overlaps(b) {
        let m = a.meet(b);
        assert(a.contains_point(m.min_x, m.min_y) && b.contains_point(m.min_x, m.min_y));
    }
}

/// The common part of two rectangles holds exactly the points of both.
pub proof fn lemma_meet_is_common_part(a: Rect, b: Rect, x: int, y: int)
    ensures
        a.meet(b).contains_point(x, y) <==> a.contains_point(x, y) && b.contains_point(x, y),
{
}

/// The common part of two rectangles that overlap lies in both, and holds
/// every rectangle that lies in both.
pub proof fn lemma_meet_is_greatest(a: Rect, b: Rect, c: Rect)
    requires
        a.overlaps(b),
    ensures
        a.contains(a.meet(b)),
        b.contains(a.meet(b)),
        a.contains(c) && b.contains(c) ==> a.meet(b).contains(c),
{
}

/// Intersection does not depend on the order of its operands.
pub proof fn lemma_intersection_commutes(a: Rect, b: Rect)
    ensures
        a.intersection(b) == b.intersection(a),
{
}

/// Intersecting a well-formed rectangle with itself gives it back.
pub proof fn lemma_intersection_idempotent(a: Rect)
    requires
        a.wf(),
    ensures
        a.intersection(a) == Some(a),
{
}

} // verus!
