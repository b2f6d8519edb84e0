//! Rectangles in the three spaces of a read: geographic space, the unified
//! view grid, and a band's native pixel grid.
use vstd::prelude::*;
use crate::crs_geo::CrsGeometry;
use crate::errors::{IntersectionError, RusterioError};
use crate::geometry::Rect;
use crate::intersection::Intersection;
use crate::numeric::{checked_lcm, lcm, try_cast};
use crate::transforms::{
    fits_pixels,
    in_coord_range,
    lemma_floor_ceil,
    lemma_round_up,
    Affine,
    GeoReadTransform,
    ViewReadTransform,
    COORD_LIMIT,
};

verus! {

/// The interface that every bounds type shares.
pub trait Bounds: Sized {
    /// The integer type of one coordinate.
    type Coord: Copy;

    /// The rectangle that the bounds stand for.
    spec fn rect(&self) -> Rect;

    /// The mathematical value of a coordinate.
    spec fn coord(c: Self::Coord) -> int;

    /// The minimum corner, `(x, y)`.
    fn min(&self) -> (c: (Self::Coord, Self::Coord))
        ensures
            Self::coord(c.0) == self.rect().min_x,
            Self::coord(c.1) == self.rect().min_y,
            self.rect().wf(),
    ;

    /// The maximum corner, `(x, y)`.
    fn max(&self) -> (c: (Self::Coord, Self::Coord))
        ensures
            Self::coord(c.0) == self.rect().max_x,
            Self::coord(c.1) == self.rect().max_y,
            self.rect().wf(),
    ;

    /// Extent along the x axis.
    fn width(&self) -> (w: Self::Coord)
        ensures
            Self::coord(w) == self.rect().width(),
            self.rect().wf(),
    ;

    /// Extent along the y axis.
    fn height(&self) -> (h: Self::Coord)
        ensures
            Self::coord(h) == self.rect().height(),
            self.rect().wf(),
    ;

    /// `(width, height)`.
    fn shape(&self) -> (s: (Self::Coord, Self::Coord))
        ensures
            Self::coord(s.0) == self.rect().width(),
            Self::coord(s.1) == self.rect().height(),
            self.rect().wf(),
    ;
}

/// Bounds in a pixel space: the sides are whole numbers of pixels.
pub trait PixelBounds: Bounds {
    /// The top-left pixel of the window.
    fn offset(&self) -> (o: (usize, usize))
        ensures
            o.0 == self.rect().min_x,
            o.1 == self.rect().min_y,
            self.rect().wf(),
    ;

    /// Number of pixels within the bounds: width times height.
    fn size(&self) -> (n: usize)
        requires
            self.rect().area() <= usize::MAX,
        ensures
            n == self.rect().area(),
    ;
}

/// A rectangle of pixels, the common representation of view and read bounds.
#[derive(Debug, Clone, Copy, PartialEq, Eq)]
struct PixelRect {
    min: (usize, usize),
    max: (usize, usize),
}

impl PixelRect {
    #[verifier::type_invariant]
    spec fn inv(&self) -> bool {
        self.min.0 <= self.max.0 && self.min.1 <= self.max.1
    }

    spec fn rect(&self) -> Rect {
        Rect {
            min_x: self.min.0 as int,
            min_y: self.min.1 as int,
            max_x: self.max.0 as int,
            max_y: self.max.1 as int,
        }
    }

    fn new(offset: (usize, usize), shape: (usize, usize)) -> (r: Self)
        requires
            offset.0 + shape.0 <= usize::MAX,
            offset.1 + shape.1 <= usize::MAX,
        ensures
            r.rect() == (Rect {
                min_x: offset.0 as int,
                min_y: offset.1 as int,
                max_x: offset.0 + shape.0,
                max_y: offset.1 + shape.1,
            }),
    {
        PixelRect { min: offset, max: (offset.0 + shape.0, offset.1 + shape.1) }
    }

    fn from_corners(min: (usize, usize), max: (usize, usize)) -> (r: Self)
        requires
            min.0 <= max.0,
            min.1 <= max.1,
        ensures
            r.rect() == (Rect {
                min_x: min.0 as int,
                min_y: min.1 as int,
                max_x: max.0 as int,
                max_y: max.1 as int,
            }),
    {
        PixelRect { min, max }
    }

    fn min(&self) -> (c: (usize, usize))
        ensures
            c.0 == self.rect().min_x,
            c.1 == self.rect().min_y,
            self.rect().wf(),
    {
        proof {
            use_type_invariant(self);
        }
        self.min
    }

    fn max(&self) -> (c: (usize, usize))
        ensures
            c.0 == self.rect().max_x,
            c.1 == self.rect().max_y,
            self.rect().wf(),
    {
        proof {
            use_type_invariant(self);
        }
        self.max
    }

    fn shape(&self) -> (s: (usize, usize))
        ensures
            s.0 == self.rect().width(),
            s.1 == self.rect().height(),
            self.rect().wf(),
    {
        proof {
            use_type_invariant(self);
        }
        (self.max.0 - self.min.0, self.max.1 - self.min.1)
    }

    fn size(&self) -> (n: usize)
        requires
            self.rect().area() <= usize::MAX,
        ensures
            n == self.rect().area(),
    {
        let s = self.shape();
        s.0 * s.1
    }

    fn intersection(&self, rhs: &Self) -> (r: Result<Self, RusterioError>)
        ensures
            self.rect().overlaps(rhs.rect()) ==> r is Ok && r->Ok_0.rect() == self.rect().meet(
                rhs.rect(),
            ),
            !self.rect().overlaps(rhs.rect()) ==> r == Err::<Self, RusterioError>(
                crate::errors::no_intersection(),
            ),
    {
        proof {
            use_type_invariant(self);
            use_type_invariant(rhs);
        }
        if self.max.0 < rhs.min.0 || self.max.1 < rhs.min.1 {
            return Err(RusterioError::NoIntersection(IntersectionError::NoIntersection));
        }
        if self.min.0 > rhs.max.0 || self.min.1 > rhs.max.1 {
            return Err(RusterioError::NoIntersection(IntersectionError::NoIntersection));
        }
        let min_x = if self.min.0 > rhs.min.0 {
            self.min.0
        } else {
            rhs.min.0
        };
        let min_y = if self.min.1 > rhs.min.1 {
            self.min.1
        } else {
            rhs.min.1
        };
        let max_x = if self.max.0 < rhs.max.0 {
            self.max.0
        } else {
            rhs.max.0
        };
        let max_y = if self.max.1 < rhs.max.1 {
            self.max.1
        } else {
            rhs.max.1
        };
        Ok(PixelRect { min: (min_x, min_y), max: (max_x, max_y) })
    }
}

/// Along one axis: the native pixels, from the first to one past the last,
/// under the view pixels from `lo` up to `hi`, or `None` where an end is
/// below zero or does not fit in `usize`.
fn axis_window(origin: usize, ratio: usize, mirrored: bool, lo: usize, hi: usize) -> (r: Option<
    (usize, usize),
>)
    requires
        ratio >= 1,
        lo <= hi,
    ensures
        ({
            let start = crate::transforms::window_start(
                origin as int,
                ratio as int,
                mirrored,
                lo as int,
                hi as int,
            );
            let end = crate::transforms::window_end(
                origin as int,
                ratio as int,
                mirrored,
                lo as int,
                hi as int,
            );
            &&& start <= end
            &&& r is Some <==> 0 <= start && end <= usize::MAX
            &&& r matches Some(ends) ==> ends.0 == start && ends.1 == end
        }),
{
    proof {
        lemma_round_up(hi as int, ratio as int);
        crate::transforms::lemma_extent_of_window(lo as int, hi as int, ratio as int);
    }
    let up: usize = if hi % ratio == 0 {
        0
    } else {
        1
    };
    let first = lo / ratio;
    let last = hi / ratio + up;
    if mirrored {
        match origin.checked_sub(last) {
            Some(start) => Some((start, origin - first)),
            None => None,
        }
    } else {
        match origin.checked_add(last) {
            Some(end) => Some((origin + first, end)),
            None => None,
        }
    }
}

/// Pixel bounds of the viewing window, on the unified view grid.
///
/// The offset is the top-left pixel of the window, counted from the top-left
/// pixel of the full view; the shape is width by height in view pixels.
#[derive(Debug, Clone, Copy, PartialEq, Eq)]
pub struct ViewBounds(PixelRect);

impl View for ViewBounds {
    type V = Rect;

    closed spec fn view(&self) -> Rect {
        self.0.rect()
    }
}

impl ViewBounds {
    /// The window of `shape` pixels, `(width, height)`, whose top-left pixel
    /// is `offset`.
    pub fn new(offset: (usize, usize), shape: (usize, usize)) -> (r: Self)
        requires
            offset.0 + shape.0 <= usize::MAX,
            offset.1 + shape.1 <= usize::MAX,
        ensures
            r@ == (Rect {
                min_x: offset.0 as int,
                min_y: offset.1 as int,
                max_x: offset.0 + shape.0,
                max_y: offset.1 + shape.1,
            }),
    {
        ViewBounds(PixelRect::new(offset, shape))
    }

    /// The window of a band's native grid that lies under this window of
    /// the view grid: the ends go through `transform` and are rounded
    /// outward, so that the native window covers the view window. Along a
    /// mirrored axis the native pixels are counted down from the
    /// transform's origin. The cast error is returned when an end is below
    /// zero or does not fit in `usize`.
    pub fn as_read_bounds(&self, transform: &ViewReadTransform) -> (r: Result<
        ReadBounds,
        RusterioError,
    >)
        ensures
            r is Ok <==> fits_pixels(transform@.read_window(self@)),
            r matches Ok(b) ==> b@ == transform@.read_window(self@),
            r matches Err(e) ==> e == RusterioError::Uncastable,
            transform@.wf(),
            self@.wf(),
    {
        let ratio = transform.ratio();
        let origin = transform.origin();
        let mirrored = transform.mirrored();
        let lo = self.0.min();
        let hi = self.0.max();
        proof {
            lemma_round_up(hi.0 as int, ratio.0 as int);
            lemma_round_up(hi.1 as int, ratio.1 as int);
            crate::transforms::lemma_extent_of_window(lo.0 as int, hi.0 as int, ratio.0 as int);
            crate::transforms::lemma_extent_of_window(lo.1 as int, hi.1 as int, ratio.1 as int);
        }
        let (min_x, max_x) = match axis_window(origin.0, ratio.0, mirrored.0, lo.0, hi.0) {
            Some(ends) => ends,
            None => {
                return Err(RusterioError::Uncastable);
            },
        };
        let (min_y, max_y) = match axis_window(origin.1, ratio.1, mirrored.1, lo.1, hi.1) {
            Some(ends) => ends,
            None => {
                return Err(RusterioError::Uncastable);
            },
        };
        Ok(ReadBounds(PixelRect::from_corners((min_x, min_y), (max_x, max_y))))
    }
}

impl Bounds for ViewBounds {
    type Coord = usize;

    open spec fn rect(&self) -> Rect {
        self@
    }

    open spec fn coord(c: usize) -> int {
        c as int
    }

    fn min(&self) -> (c: (usize, usize)) {
        self.0.min()
    }

    fn max(&self) -> (c: (usize, usize)) {
        self.0.max()
    }

    fn width(&self) -> (w: usize) {
        self.0.shape().0
    }

    fn height(&self) -> (h: usize) {
        self.0.shape().1
    }

    fn shape(&self) -> (s: (usize, usize)) {
        self.0.shape()
    }
}

impl PixelBounds for ViewBounds {
    fn offset(&self) -> (o: (usize, usize)) {
        self.0.min()
    }

    fn size(&self) -> (n: usize) {
        self.0.size()
    }
}

impl Intersection for ViewBounds {
    type Output = ViewBounds;

    open spec fn overlaps(&self, rhs: &Self) -> bool {
        self@.overlaps(rhs@)
    }

    open spec fn is_common_part(&self, rhs: &Self, out: ViewBounds) -> bool {
        out@ == self@.meet(rhs@)
    }

    fn intersection(&self, rhs: &Self) -> (r: Result<ViewBounds, RusterioError>) {
        match self.0.intersection(&rhs.0) {
            Ok(rect) => Ok(ViewBounds(rect)),
            Err(e) => Err(e),
        }
    }
}

/// Pixel bounds of the reading window, on one band's native grid.
///
/// The offset is the top-left native pixel of the window; the shape is width
/// by height in native pixels.
#[derive(Debug, Clone, Copy, PartialEq, Eq)]
pub struct ReadBounds(PixelRect);

impl View for ReadBounds {
    type V = Rect;

    closed spec fn view(&self) -> Rect {
        self.0.rect()
    }
}

impl ReadBounds {
    /// The window of `shape` native pixels, `(width, height)`, whose
    /// top-left pixel is `offset`.
    pub fn new(offset: (usize, usize), shape: (usize, usize)) -> (r: Self)
        requires
            offset.0 + shape.0 <= usize::MAX,
            offset.1 + shape.1 <= usize::MAX,
        ensures
            r@ == (Rect {
                min_x: offset.0 as int,
                min_y: offset.1 as int,
                max_x: offset.0 + shape.0,
                max_y: offset.1 + shape.1,
            }),
    {
        ReadBounds(PixelRect::new(offset, shape))
    }
}

impl Bounds for ReadBounds {
    type Coord = usize;

    open spec fn rect(&self) -> Rect {
        self@
    }

    open spec fn coord(c: usize) -> int {
        c as int
    }

    fn min(&self) -> (c: (usize, usize)) {
        self.0.min()
    }

    fn max(&self) -> (c: (usize, usize)) {
        self.0.max()
    }

    fn width(&self) -> (w: usize) {
        self.0.shape().0
    }

    fn height(&self) -> (h: usize) {
        self.0.shape().1
    }

    fn shape(&self) -> (s: (usize, usize)) {
        self.0.shape()
    }
}

impl PixelBounds for ReadBounds {
    fn offset(&self) -> (o: (usize, usize)) {
        self.0.min()
    }

    fn size(&self) -> (n: usize) {
        self.0.size()
    }
}

impl Intersection for ReadBounds {
    type Output = ReadBounds;

    open spec fn overlaps(&self, rhs: &Self) -> bool {
        self@.overlaps(rhs@)
    }

    open spec fn is_common_part(&self, rhs: &Self, out: ReadBounds) -> bool {
        out@ == self@.meet(rhs@)
    }

    fn intersection(&self, rhs: &Self) -> (r: Result<ReadBounds, RusterioError>) {
        match self.0.intersection(&rhs.0) {
            Ok(rect) => Ok(ReadBounds(rect)),
            Err(e) => Err(e),
        }
    }
}

/// A rectangle in geographic space, with integer corners in the caller's
/// unit. No coordinate is beyond `COORD_LIMIT` in magnitude.
#[derive(Debug, Clone, Copy, PartialEq, Eq)]
pub struct GeoRect {
    min: (i64, i64),
    max: (i64, i64),
}

impl View for GeoRect {
    type V = Rect;

    closed spec fn view(&self) -> Rect {
        Rect {
            min_x: self.min.0 as int,
            min_y: self.min.1 as int,
            max_x: self.max.0 as int,
            max_y: self.max.1 as int,
        }
    }
}

/// Every corner coordinate of `r` can be a geographic coordinate.
pub open spec fn in_geo_range(r: Rect) -> bool {
    &&& in_coord_range(r.min_x)
    &&& in_coord_range(r.min_y)
    &&& in_coord_range(r.max_x)
    &&& in_coord_range(r.max_y)
}

impl GeoRect {
    #[verifier::type_invariant]
    spec fn inv(&self) -> bool {
        self@.wf() && in_geo_range(self@)
    }

    /// The rectangle with the opposite corners `c1` and `c2`, in any order.
    pub fn new(c1: (i64, i64), c2: (i64, i64)) -> (r: Self)
        requires
            in_coord_range(c1.0 as int),
            in_coord_range(c1.1 as int),
            in_coord_range(c2.0 as int),
            in_coord_range(c2.1 as int),
        ensures
            r@ == (Rect {
                min_x: crate::geometry::min_int(c1.0 as int, c2.0 as int),
                min_y: crate::geometry::min_int(c1.1 as int, c2.1 as int),
                max_x: crate::geometry::max_int(c1.0 as int, c2.0 as int),
                max_y: crate::geometry::max_int(c1.1 as int, c2.1 as int),
            }),
    {
        let (min_x, max_x) = if c1.0 <= c2.0 {
            (c1.0, c2.0)
        } else {
            (c2.0, c1.0)
        };
        let (min_y, max_y) = if c1.1 <= c2.1 {
            (c1.1, c2.1)
        } else {
            (c2.1, c1.1)
        };
        GeoRect { min: (min_x, min_y), max: (max_x, max_y) }
    }
}

impl Bounds for GeoRect {
    type Coord = i64;

    open spec fn rect(&self) -> Rect {
        self@
    }

    open spec fn coord(c: i64) -> int {
        c as int
    }

    fn min(&self) -> (c: (i64, i64))
        ensures
            in_geo_range(self@),
    {
        proof {
            use_type_invariant(self);
        }
        self.min
    }

    fn max(&self) -> (c: (i64, i64))
        ensures
            in_geo_range(self@),
    {
        proof {
            use_type_invariant(self);
        }
        self.max
    }

    fn width(&self) -> (w: i64) {
        proof {
            use_type_invariant(self);
        }
        self.max.0 - self.min.0
    }

    fn height(&self) -> (h: i64) {
        proof {
            use_type_invariant(self);
        }
        self.max.1 - self.min.1
    }

    fn shape(&self) -> (s: (i64, i64)) {
        proof {
            use_type_invariant(self);
        }
        (self.max.0 - self.min.0, self.max.1 - self.min.1)
    }
}

impl Intersection for GeoRect {
    type Output = GeoRect;

    open spec fn overlaps(&self, rhs: &Self) -> bool {
        self@.overlaps(rhs@)
    }

    open spec fn is_common_part(&self, rhs: &Self, out: GeoRect) -> bool {
        out@ == self@.meet(rhs@)
    }

    fn intersection(&self, rhs: &Self) -> (r: Result<GeoRect, RusterioError>) {
        proof {
            use_type_invariant(self);
            use_type_invariant(rhs);
        }
        if self.max.0 < rhs.min.0 || self.max.1 < rhs.min.1 {
            return Err(RusterioError::NoIntersection(IntersectionError::NoIntersection));
        }
        if self.min.0 > rhs.max.0 || self.min.1 > rhs.max.1 {
            return Err(RusterioError::NoIntersection(IntersectionError::NoIntersection));
        }
        let min_x = if self.min.0 > rhs.min.0 {
            self.min.0
        } else {
            rhs.min.0
        };
        let min_y = if self.min.1 > rhs.min.1 {
            self.min.1
        } else {
            rhs.min.1
        };
        let max_x = if self.max.0 < rhs.max.0 {
            self.max.0
        } else {
            rhs.max.0
        };
        let max_y = if self.max.1 < rhs.max.1 {
            self.max.1
        } else {
            rhs.max.1
        };
        Ok(GeoRect { min: (min_x, min_y), max: (max_x, max_y) })
    }
}

/// The shape `(width, height)` of the unified view grid for a region and the
/// pixel-to-geographic transforms of the band groups to show: along each
/// axis the least common multiple of the extents of the groups' native
/// windows that cover the region. `None` where a window does not fit pixel
/// coordinates or a multiple does not fit in `usize`.
pub open spec fn unified_shape(region: Rect, groups: Seq<Affine>) -> Option<(nat, nat)>
    decreases groups.len(),
{
    if groups.len() == 0 {
        Some((1nat, 1nat))
    } else {
        match unified_shape(region, groups.drop_last()) {
            None => None,
            Some(acc) => {
                let cover = groups.last().preimage_cover(region);
                let w = lcm(acc.0, cover.width() as nat);
                let h = lcm(acc.1, cover.height() as nat);
                if fits_pixels(cover) && cover.wf() && w <= usize::MAX && h <= usize::MAX {
                    Some((w, h))
                } else {
                    None
                }
            },
        }
    }
}

/// Once the unified shape of some of the groups fails, that of all of them
/// fails.
pub proof fn lemma_unified_shape_prefix(region: Rect, groups: Seq<Affine>, n: int)
    requires
        0 <= n <= groups.len(),
        unified_shape(region, groups.take(n)) is None,
    ensures
        unified_shape(region, groups) is None,
    decreases groups.len() - n,
{
    if n < groups.len() {
        assert(groups.take(n + 1).drop_last() =~= groups.take(n));
        lemma_unified_shape_prefix(region, groups, n + 1);
    } else {
        assert(groups.take(n) =~= groups);
    }
}

/// The pixel-to-geographic maps of a list of transforms.
pub open spec fn affines(transforms: Seq<&GeoReadTransform>) -> Seq<Affine> {
    transforms.map_values(|t: &GeoReadTransform| t@)
}

/// Geographic bounds of a raster or of a view: a rectangle in the
/// coordinates of a reference system.
///
/// The origin, the top-left pixel's corner in pixel space, is the minimum
/// corner; the shape is width by height in the unit of the coordinates.
#[derive(Debug)]
pub struct GeoBounds(pub CrsGeometry<GeoRect>);

impl Clone for GeoBounds {
    fn clone(&self) -> (r: Self)
        ensures
            r@ == self@,
            r.spec_crs() == self.spec_crs(),
    {
        GeoBounds(CrsGeometry::new(self.0.crs().to_owned(), *self.0.geometry()))
    }
}

impl View for GeoBounds {
    type V = Rect;

    open spec fn view(&self) -> Rect {
        self.0.spec_geometry()@
    }
}

impl GeoBounds {
    /// The identifier of the reference system of the coordinates.
    pub open spec fn spec_crs(&self) -> Seq<char> {
        self.0.spec_crs()
    }

    /// The minimum corner.
    pub fn origin(&self) -> (c: (i64, i64))
        ensures
            c.0 == self@.min_x,
            c.1 == self@.min_y,
    {
        self.0.geometry().min()
    }

    pub fn crs(&self) -> (r: &str)
        ensures
            r@ == self.spec_crs(),
    {
        self.0.crs()
    }

    /// The smallest window of a band group's native grid that covers these
    /// bounds: the corners go through `transform` and are rounded outward,
    /// down for the minimum and up for the maximum. The cast error is
    /// returned when a corner is negative or does not fit in `usize`.
    pub fn as_read_bounds(&self, transform: &GeoReadTransform) -> (r: Result<
        ReadBounds,
        RusterioError,
    >)
        ensures
            r is Ok <==> fits_pixels(transform@.preimage_cover(self@)),
            r matches Ok(b) ==> b@ == transform@.preimage_cover(self@),
            r matches Err(e) ==> e == RusterioError::Uncastable,
            transform@.preimage_cover(self@).wf(),
    {
        let (lo, hi) = transform.cover(self);
        proof {
            let t = transform@;
            let n = t.preimage_num(self@.min_x, self@.min_y);
            lemma_floor_ceil(n.0, t.preimage_den());
            lemma_floor_ceil(n.1, t.preimage_den());
        }
        let min_x = try_cast(lo.0)?;
        let min_y = try_cast(lo.1)?;
        let max_x = try_cast(hi.0)?;
        let max_y = try_cast(hi.1)?;
        Ok(ReadBounds(PixelRect::from_corners((min_x, min_y), (max_x, max_y))))
    }

    /// The bounds of the full view of a raster over these geographic
    /// bounds, for the band groups with the given transforms.
    ///
    /// The view starts at `(0, 0)`. Its shape along each axis is the least
    /// common multiple of the extents of the groups' native windows over
    /// the bounds, so that every group's pixels fill whole blocks of view
    /// pixels. The cast error is returned when a window does not fit pixel
    /// coordinates or the shape does not fit in `usize`. There has to be a
    /// group at least.
    pub fn build_raster_view_bounds(&self, transforms: &[&GeoReadTransform]) -> (r: Result<
        ViewBounds,
        RusterioError,
    >)
        requires
            transforms@.len() > 0,
        ensures
            r is Ok <==> unified_shape(self@, affines(transforms@)) is Some,
            r matches Ok(b) ==> ({
                let shape = unified_shape(self@, affines(transforms@))->Some_0;
                b@ == Rect { min_x: 0, min_y: 0, max_x: shape.0 as int, max_y: shape.1 as int }
            }),
            r matches Err(e) ==> e == RusterioError::Uncastable,
    {
        let ghost groups = affines(transforms@);
        let mut shape: (usize, usize) = (1, 1);
        let mut i: usize = 0;
        assert(groups.take(0) =~= Seq::<Affine>::empty());
        while i < transforms.len()
            invariant
                i <= transforms@.len(),
                groups == affines(transforms@),
                unified_shape(self@, groups.take(i as int)) == Some(
                    (shape.0 as nat, shape.1 as nat),
                ),
            decreases transforms@.len() - i,
        {
            assert(groups.take(i + 1).drop_last() =~= groups.take(i as int));
            assert(groups.take(i + 1).last() == transforms@[i as int]@);
            let read_shape = match self.as_read_bounds(transforms[i]) {
                Ok(read_bounds) => read_bounds.shape(),
                Err(e) => {
                    proof {
                        lemma_unified_shape_prefix(self@, groups, i + 1);
                    }
                    return Err(e);
                },
            };
            let width = checked_lcm(shape.0, read_shape.0);
            let height = checked_lcm(shape.1, read_shape.1);
            match (width, height) {
                (Some(w), Some(h)) => {
                    shape = (w, h);
                },
                _ => {
                    proof {
                        lemma_unified_shape_prefix(self@, groups, i + 1);
                    }
                    return Err(RusterioError::Uncastable);
                },
            }
            i = i + 1;
        }
        assert(groups.take(i as int) =~= groups);
        Ok(ViewBounds::new((0, 0), shape))
    }
}

impl From<CrsGeometry<GeoRect>> for GeoBounds {
    fn from(value: CrsGeometry<GeoRect>) -> (r: Self) {
        GeoBounds(value)
    }
}

impl vstd::std_specs::convert::FromSpecImpl<CrsGeometry<GeoRect>> for GeoBounds {
    open spec fn obeys_from_spec() -> bool {
        true
    }

    open spec fn from_spec(value: CrsGeometry<GeoRect>) -> Self {
        GeoBounds(value)
    }
}

impl Bounds for GeoBounds {
    type Coord = i64;

    open spec fn rect(&self) -> Rect {
        self@
    }

    open spec fn coord(c: i64) -> int {
        c as int
    }

    fn min(&self) -> (c: (i64, i64))
        ensures
            in_geo_range(self@),
    {
        self.0.geometry().min()
    }

    fn max(&self) -> (c: (i64, i64))
        ensures
            in_geo_range(self@),
    {
        self.0.geometry().max()
    }

    fn width(&self) -> (w: i64) {
        self.0.geometry().width()
    }

    fn height(&self) -> (h: i64) {
        self.0.geometry().height()
    }

    fn shape(&self) -> (s: (i64, i64)) {
        self.0.geometry().shape()
    }
}

impl Intersection for GeoBounds {
    type Output = GeoBounds;

    open spec fn overlaps(&self, rhs: &Self) -> bool {
        self@.overlaps(rhs@)
    }

    /// The common part keeps the reference system of `self`.
    open spec fn is_common_part(&self, rhs: &Self, out: GeoBounds) -> bool {
        out@ == self@.meet(rhs@) && out.spec_crs() == self.spec_crs()
    }

    fn intersection(&self, rhs: &Self) -> (r: Result<GeoBounds, RusterioError>) {
        match self.0.intersection(&rhs.0) {
            Ok(geometry) => Ok(GeoBounds(geometry)),
            Err(e) => Err(e),
        }
    }
}

} // verus!
