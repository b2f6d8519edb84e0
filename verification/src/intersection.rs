//! Intersection of geometries, with an explicit failure when they lie apart.
use vstd::prelude::*;
use crate::errors::{no_intersection, RusterioError};

verus! {

/// Geometries that can be cut down to their common part.
///
/// Rectangles are closed: two that touch along an edge or at a corner
/// overlap, and their common part has zero area. Only rectangles that lie
/// strictly apart on some axis fail to intersect.
pub trait Intersection: Sized {
    type Output;

    /// The two geometries have a point in common.
    spec fn overlaps(&self, rhs: &Self) -> bool;

    /// `out` is the common part of the two geometries.
    spec fn is_common_part(&self, rhs: &Self, out: Self::Output) -> bool;

    /// The common part of `self` and `rhs`, or the no-intersection error
    /// when they do not overlap.
    fn intersection(&self, rhs: &Self) -> (r: Result<Self::Output, RusterioError>)
        ensures
            self.overlaps(rhs) ==> r is Ok && self.is_common_part(rhs, r->Ok_0),
            !self.overlaps(rhs) ==> r == Err::<Self::Output, RusterioError>(no_intersection()),
    ;
}

} // verus!
