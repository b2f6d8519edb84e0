//! Views: a window of the unified pixel grid of a selection of bands.
use vstd::prelude::*;
use vstd::view::View as _;
use vstd::arithmetic::div_mod::{lemma_fundamental_div_mod, lemma_mod_multiples_basic};
use std::rc::Rc;
use crate::band::{BandInfo, BandReader};
use crate::bounds::{unified_shape, Bounds, GeoBounds, GeoRect, ViewBounds};
use crate::errors::RusterioError;
use crate::geometry::Rect;
use crate::intersection::Intersection;
use crate::numeric::{lcm, lemma_lcm_is_multiple};
use crate::raster::band::RasterBand;
use crate::raster::group::RasterGroupInfo;
use crate::sharing::share_rc;
use crate::transforms::{
    aligned,
    fits_pixels,
    Affine,
    GeoReadTransform,
    PixelScale,
    ViewReadTransform,
};
use crate::view::band::ViewBand;
use crate::DataType;

pub mod band;
pub mod chunking;
pub mod read;

verus! {

/// What a view of some bands over a region is: the bounds of the full
/// view, and for each band the map from the view grid to its native grid.
pub ghost struct ViewPlan {
    pub bounds: Rect,
    pub scales: Seq<PixelScale>,
    /// Whether the view's columns run towards falling x, and its rows
    /// towards growing y.
    pub orientation: (bool, bool),
}

/// The grids of all the groups run the same way.
pub open spec fn agree(groups: Seq<Affine>) -> bool {
    forall|k: int| 0 <= k < groups.len() ==> (#[trigger] groups[k]).mirrored() == groups[0].mirrored()
}

/// The orientation of the view of some groups: that of their grids, where
/// they all run the same way, so that each band is laid as it is stored;
/// and else that of a north-up raster, with the bands that run otherwise
/// laid mirrored.
pub open spec fn view_orientation(groups: Seq<Affine>) -> (bool, bool) {
    if groups.len() > 0 && agree(groups) {
        groups[0].mirrored()
    } else {
        (false, false)
    }
}

/// The grids of all the groups run along the geographic axes, and their
/// native windows over `region` cover one and the same part of geographic
/// space, so that a block of view pixels lies in one native pixel of every
/// band.
pub open spec fn registered(region: Rect, groups: Seq<Affine>) -> bool {
    forall|k: int|
        0 <= k < groups.len() ==> (#[trigger] groups[k]).axis_aligned()
            && groups[k].cover_extent_in_range(region) && groups[k].cover_extent(region)
            == groups[0].cover_extent(region)
}

/// The view of the bands whose groups have the pixel-to-geographic
/// transforms `groups`, one per band, over `region`.
///
/// The view has the unified shape of the groups and starts at `(0, 0)`.
/// There is none where that shape cannot be had, where it is empty because
/// the region covers no pixel of some band, where a group's grid does not
/// run along the geographic axes, and where the native windows of the
/// groups do not cover the same part of geographic space: bands that do
/// not line up are refused, not shifted. The view runs as its bands do
/// where they agree; a band whose columns or rows run against those of the
/// view is laid mirrored.
pub open spec fn view_plan(region: Rect, groups: Seq<Affine>) -> Option<ViewPlan> {
    match unified_shape(region, groups) {
        None => None,
        Some(shape) => {
            if shape.0 > 0 && shape.1 > 0 && registered(region, groups) {
                let bounds = Rect {
                    min_x: 0,
                    min_y: 0,
                    max_x: shape.0 as int,
                    max_y: shape.1 as int,
                };
                Some(
                    ViewPlan {
                        bounds,
                        scales: Seq::new(
                            groups.len(),
                            |k: int|
                                PixelScale::of_group(
                                    bounds,
                                    groups[k],
                                    region,
                                    view_orientation(groups),
                                )->Some_0,
                        ),
                        orientation: view_orientation(groups),
                    },
                )
            } else {
                None
            }
        },
    }
}

/// A multiple of a multiple is a multiple.
proof fn lemma_multiple_of_multiple(x: int, y: int, z: int)
    requires
        y > 0,
        z > 0,
        x % y == 0,
        y % z == 0,
    ensures
        x % z == 0,
{
    lemma_fundamental_div_mod(x, y);
    lemma_fundamental_div_mod(y, z);
    let q = x / y;
    let p = y / z;
    assert(x == (q * p) * z) by (nonlinear_arith)
        requires
            x == y * q,
            y == z * p,
    ;
    lemma_mod_multiples_basic(q * p, z);
}

/// A unified shape that is not empty is made of whole blocks of every
/// group's native window: each window fits pixel coordinates, is not empty,
/// and its extents divide those of the shape.
pub proof fn lemma_unified_shape_aligned(region: Rect, groups: Seq<Affine>, k: int)
    requires
        0 <= k < groups.len(),
        unified_shape(region, groups) is Some,
        unified_shape(region, groups)->Some_0.0 > 0,
        unified_shape(region, groups)->Some_0.1 > 0,
    ensures
        ({
            let shape = unified_shape(region, groups)->Some_0;
            let cover = groups[k].preimage_cover(region);
            &&& fits_pixels(cover)
            &&& cover.wf()
            &&& aligned(shape.0 as int, cover.width())
            &&& aligned(shape.1 as int, cover.height())
        }),
    decreases groups.len(),
{
    let shape = unified_shape(region, groups)->Some_0;
    let acc = unified_shape(region, groups.drop_last())->Some_0;
    let last = groups.last().preimage_cover(region);
    let w = last.width() as nat;
    let h = last.height() as nat;
    assert(shape.0 == lcm(acc.0, w) && shape.1 == lcm(acc.1, h));
    lemma_lcm_is_multiple(acc.0, w);
    lemma_lcm_is_multiple(acc.1, h);
    if k == groups.len() - 1 {
    } else {
        assert(groups.drop_last()[k] == groups[k]);
        lemma_unified_shape_aligned(region, groups.drop_last(), k);
        let cover = groups[k].preimage_cover(region);
        lemma_multiple_of_multiple(shape.0 as int, acc.0 as int, cover.width());
        lemma_multiple_of_multiple(shape.1 as int, acc.1 as int, cover.height());
    }
}

/// Where the unified shape of some groups exists, the native window of
/// each of them fits pixel coordinates.
pub proof fn lemma_unified_shape_fits(region: Rect, groups: Seq<Affine>, k: int)
    requires
        0 <= k < groups.len(),
        unified_shape(region, groups) is Some,
    ensures
        fits_pixels(groups[k].preimage_cover(region)),
        groups[k].preimage_cover(region).wf(),
    decreases groups.len(),
{
    if k < groups.len() - 1 {
        assert(groups.drop_last()[k] == groups[k]);
        lemma_unified_shape_fits(region, groups.drop_last(), k);
    }
}

/// A band of a group that is among the groups already does not change the
/// unified shape: the shape of all the selected bands is the shape of their
/// distinct groups.
pub proof fn lemma_unified_shape_repeat(region: Rect, groups: Seq<Affine>, k: int)
    requires
        0 <= k < groups.len(),
    ensures
        unified_shape(region, groups.push(groups[k])) == unified_shape(region, groups),
{
    let more = groups.push(groups[k]);
    assert(more.drop_last() =~= groups);
    assert(more.last() == groups[k]);
    if unified_shape(region, groups) is Some {
        let shape = unified_shape(region, groups)->Some_0;
        let cover = groups[k].preimage_cover(region);
        lemma_unified_shape_fits(region, groups, k);
        lemma_unified_shape_divides(region, groups, k);
        if cover.width() > 0 {
            crate::numeric::lemma_lcm_absorbs_divisor(shape.0, cover.width() as nat);
        }
        if cover.height() > 0 {
            crate::numeric::lemma_lcm_absorbs_divisor(shape.1, cover.height() as nat);
        }
    }
}

/// The extents of the native window of every group divide those of the
/// unified shape.
pub proof fn lemma_unified_shape_divides(region: Rect, groups: Seq<Affine>, k: int)
    requires
        0 <= k < groups.len(),
        unified_shape(region, groups) is Some,
    ensures
        ({
            let shape = unified_shape(region, groups)->Some_0;
            let cover = groups[k].preimage_cover(region);
            &&& crate::numeric::divides(cover.width() as nat, shape.0)
            &&& crate::numeric::divides(cover.height() as nat, shape.1)
            &&& cover.width() == 0 ==> shape.0 == 0
            &&& cover.height() == 0 ==> shape.1 == 0
        }),
    decreases groups.len(),
{
    let shape = unified_shape(region, groups)->Some_0;
    let acc = unified_shape(region, groups.drop_last())->Some_0;
    let last = groups.last().preimage_cover(region);
    let w = last.width() as nat;
    let h = last.height() as nat;
    lemma_lcm_is_multiple(acc.0, w);
    lemma_lcm_is_multiple(acc.1, h);
    if k < groups.len() - 1 {
        assert(groups.drop_last()[k] == groups[k]);
        lemma_unified_shape_divides(region, groups.drop_last(), k);
        let cover = groups[k].preimage_cover(region);
        lemma_unified_shape_fits(region, groups.drop_last(), k);
        lemma_divides_chain(cover.width() as nat, acc.0, shape.0);
        lemma_divides_chain(cover.height() as nat, acc.1, shape.1);
    }
}

/// What divides a number divides its multiples.
proof fn lemma_divides_chain(z: nat, y: nat, x: nat)
    requires
        crate::numeric::divides(z, y),
        crate::numeric::divides(y, x),
    ensures
        crate::numeric::divides(z, x),
        z == 0 ==> x == 0,
{
    if z > 0 && y > 0 {
        lemma_multiple_of_multiple(x as int, y as int, z as int);
    } else if z > 0 {
        lemma_mod_multiples_basic(0, z as int);
    }
}

/// The view of a single band is the band's own native window over the
/// region, as it is stored: the same shape, one view pixel per native
/// pixel, nothing mirrored, the view's pixel `(0, 0)` under the window's
/// first pixel.
pub proof fn lemma_single_band_view(region: Rect, group: Affine)
    requires
        group.axis_aligned(),
        fits_pixels(group.preimage_cover(region)),
        group.preimage_cover(region).width() > 0,
        group.preimage_cover(region).height() > 0,
        group.cover_extent_in_range(region),
    ensures
        ({
            let cover = group.preimage_cover(region);
            view_plan(region, seq![group]) == Some(
                ViewPlan {
                    bounds: Rect {
                        min_x: 0,
                        min_y: 0,
                        max_x: cover.width(),
                        max_y: cover.height(),
                    },
                    scales: seq![
                        PixelScale {
                            ratio: (1, 1),
                            origin: (cover.min_x, cover.min_y),
                            mirrored: (false, false),
                        },
                    ],
                    orientation: group.mirrored(),
                },
            )
        }),
{
    let cover = group.preimage_cover(region);
    let groups = seq![group];
    assert(groups.drop_last() =~= Seq::<Affine>::empty());
    assert(groups.last() == group);
    assert(groups[0] == group);
    assert(agree(groups));
    assert(unified_shape(region, groups.drop_last()) == Some((1nat, 1nat)));
    crate::numeric::lemma_lcm_with_one(cover.width() as nat);
    crate::numeric::lemma_lcm_with_one(cover.height() as nat);
    let plan = view_plan(region, groups)->Some_0;
    vstd::arithmetic::div_mod::lemma_div_by_self(cover.width());
    vstd::arithmetic::div_mod::lemma_div_by_self(cover.height());
    vstd::arithmetic::div_mod::lemma_mod_self_0(cover.width());
    vstd::arithmetic::div_mod::lemma_mod_self_0(cover.height());
    assert(plan.scales =~= seq![
        PixelScale::of_group(plan.bounds, group, region, group.mirrored())->Some_0,
    ]);
}

/// Where the grids of all the selected bands run the same way, no band
/// is laid mirrored: each is read as it is stored.
pub proof fn lemma_agreeing_bands_are_not_mirrored(region: Rect, groups: Seq<Affine>, k: int)
    requires
        0 <= k < groups.len(),
        agree(groups),
        view_plan(region, groups) is Some,
    ensures
        view_plan(region, groups)->Some_0.orientation == groups[k].mirrored(),
        view_plan(region, groups)->Some_0.scales[k].mirrored == (false, false),
{
    assert(groups[k].mirrored() == groups[0].mirrored());
    assert(groups[k].axis_aligned());
    lemma_unified_shape_aligned(region, groups, k);
}

/// The orientation of the view of the groups with the given transforms, or
/// `None` where a group's grid does not run along the geographic axes.
fn orientation_of(transforms: &[&GeoReadTransform]) -> (r: Option<(bool, bool)>)
    requires
        transforms@.len() > 0,
    ensures
        ({
            let groups = crate::bounds::affines(transforms@);
            match r {
                Some(orientation) => {
                    &&& orientation == view_orientation(groups)
                    &&& forall|k: int| 0 <= k < groups.len() ==> (#[trigger] groups[k]).axis_aligned()
                },
                None => exists|k: int| 0 <= k < groups.len() && !(#[trigger] groups[k]).axis_aligned(),
            }
        }),
{
    let ghost groups = crate::bounds::affines(transforms@);
    let first = match transforms[0].orientation() {
        Some(first) => first,
        None => {
            assert(!groups[0].axis_aligned());
            return None;
        },
    };
    let mut same = true;
    let mut k: usize = 1;
    while k < transforms.len()
        invariant
            1 <= k <= transforms@.len(),
            groups == crate::bounds::affines(transforms@),
            first == groups[0].mirrored(),
            forall|j: int| 0 <= j < k ==> (#[trigger] groups[j]).axis_aligned(),
            same <==> forall|j: int| 0 <= j < k ==> (#[trigger] groups[j]).mirrored() == first,
        decreases transforms@.len() - k,
    {
        match transforms[k].orientation() {
            Some(grid) => {
                if grid.0 != first.0 || grid.1 != first.1 {
                    assert(groups[k as int].mirrored() != first);
                    same = false;
                }
            },
            None => {
                assert(!groups[k as int].axis_aligned());
                return None;
            },
        }
        k = k + 1;
    }
    if same {
        Some(first)
    } else {
        Some((false, false))
    }
}

/// Whether two geographic rectangles are the same.
fn same_extent(a: &GeoRect, b: &GeoRect) -> (r: bool)
    ensures
        r == (a@ == b@),
{
    let (a_min, a_max) = (a.min(), a.max());
    let (b_min, b_max) = (b.min(), b.max());
    a_min.0 == b_min.0 && a_min.1 == b_min.1 && a_max.0 == b_max.0 && a_max.1 == b_max.1
}

/// The pixel-to-geographic maps of the groups of a list of bands with their
/// groups.
pub open spec fn group_affines<T: DataType, I: BandInfo, R: BandReader<T>>(
    bands: Seq<(&RasterGroupInfo, &RasterBand<T, I, R>)>,
) -> Seq<Affine> {
    Seq::new(bands.len(), |k: int| bands[k].0.transform@)
}

/// A view with the information of its bands.
pub type InfoView<T, I, R> = View<T, I, R>;

/// A view whose bands can be read from several threads at once.
pub type ReadView<T, R> = crate::view::read::SendSyncView<T, R>;

/// A window of the unified pixel grid of some bands of a raster.
///
/// A view is cheap to clip and to copy: the bands are shared.
pub struct View<T: DataType, I: BandInfo, R: BandReader<T>> {
    bounds: ViewBounds,
    bands: Rc<Vec<ViewBand<T, I, R>>>,
    orientation: (bool, bool),
}

impl<T: DataType, I: BandInfo, R: BandReader<T>> Clone for View<T, I, R> {
    /// The same window of the same bands; the bands are shared, not copied.
    fn clone(&self) -> (r: Self)
        ensures
            r.spec_bounds() == self.spec_bounds(),
            r.spec_bands() == self.spec_bands(),
            r.spec_orientation() == self.spec_orientation(),
    {
        View { bounds: self.bounds, bands: share_rc(&self.bands), orientation: self.orientation }
    }
}

impl<T: DataType, I: BandInfo, R: BandReader<T>> View<T, I, R> {
    /// The window that the view shows, in view pixels.
    pub closed spec fn spec_bounds(&self) -> Rect {
        self.bounds@
    }

    /// The bands of the view, in the order of the selection.
    pub closed spec fn spec_bands(&self) -> Seq<ViewBand<T, I, R>> {
        (*self.bands)@
    }

    /// Whether the view's columns run towards falling x, and its rows
    /// towards growing y.
    pub closed spec fn spec_orientation(&self) -> (bool, bool) {
        self.orientation
    }

    /// Whether the view's columns run towards falling x, and its rows
    /// towards growing y: `(false, false)` for a view that runs as a
    /// north-up raster does.
    pub fn orientation(&self) -> (r: (bool, bool))
        ensures
            r == self.spec_orientation(),
    {
        self.orientation
    }

    /// The full view of the bands `selected_bands`, each given with the
    /// information of its group, over the geographic region `bounds`.
    ///
    /// The view grid is the coarsest on which every band's native pixels
    /// are whole blocks of view pixels. The cast error is returned where
    /// `view_plan` has no view. There has to be a band at least.
    pub fn new(bounds: GeoBounds, selected_bands: Vec<(&RasterGroupInfo, &RasterBand<T, I, R>)>) -> (r:
        Result<Self, RusterioError>)
        requires
            selected_bands@.len() > 0,
        ensures
            match view_plan(bounds@, group_affines(selected_bands@)) {
                Some(plan) => {
                    &&& r is Ok
                    &&& r->Ok_0.spec_bounds() == plan.bounds
                    &&& r->Ok_0.spec_orientation() == plan.orientation
                    &&& r->Ok_0.spec_bands().len() == selected_bands@.len()
                    &&& forall|k: int|
                        0 <= k < selected_bands@.len() ==> {
                            &&& (#[trigger] r->Ok_0.spec_bands()[k]).transform@ == plan.scales[k]
                            &&& r->Ok_0.spec_bands()[k].info == selected_bands@[k].1.info
                            &&& r->Ok_0.spec_bands()[k].reader == selected_bands@[k].1.reader
                        }
                },
                None => r == Err::<Self, RusterioError>(RusterioError::Uncastable),
            },
    {
        let ghost groups = group_affines(selected_bands@);
        let mut transforms: Vec<&GeoReadTransform> = Vec::with_capacity(selected_bands.len());
        let mut k: usize = 0;
        while k < selected_bands.len()
            invariant
                k <= selected_bands@.len(),
                transforms@.len() == k,
                forall|j: int| 0 <= j < k ==> transforms@[j]@ == selected_bands@[j].0.transform@,
            decreases selected_bands@.len() - k,
        {
            transforms.push(&selected_bands[k].0.transform);
            k = k + 1;
        }
        assert(crate::bounds::affines(transforms@) =~= groups);
        let orientation = match orientation_of(transforms.as_slice()) {
            Some(orientation) => orientation,
            None => {
                assert(!registered(bounds@, groups));
                return Err(RusterioError::Uncastable);
            },
        };
        let view_bounds = match bounds.build_raster_view_bounds(transforms.as_slice()) {
            Ok(view_bounds) => view_bounds,
            Err(e) => {
                return Err(e);
            },
        };
        let ghost shape = unified_shape(bounds@, groups)->Some_0;
        let mut bands: Vec<ViewBand<T, I, R>> = Vec::with_capacity(selected_bands.len());
        let mut k: usize = 0;
        while k < selected_bands.len()
            invariant
                k <= selected_bands@.len(),
                groups == group_affines(selected_bands@),
                unified_shape(bounds@, groups) == Some(shape),
                view_bounds@ == (Rect {
                    min_x: 0,
                    min_y: 0,
                    max_x: shape.0 as int,
                    max_y: shape.1 as int,
                }),
                k > 0 ==> shape.0 > 0 && shape.1 > 0,
                bands@.len() == k,
                orientation == view_orientation(groups),
                forall|j: int| 0 <= j < groups.len() ==> (#[trigger] groups[j]).axis_aligned(),
                forall|j: int|
                    0 <= j < k ==> {
                        &&& Some((#[trigger] bands@[j]).transform@) == PixelScale::of_group(
                            view_bounds@,
                            groups[j],
                            bounds@,
                            orientation,
                        )
                        &&& bands@[j].info == selected_bands@[j].1.info
                        &&& bands@[j].reader == selected_bands@[j].1.reader
                    },
            decreases selected_bands@.len() - k,
        {
            let (group_info, raster_band) = selected_bands[k];
            let transform = match ViewReadTransform::new_oriented(
                &view_bounds,
                &bounds,
                &group_info.transform,
                orientation,
            ) {
                Ok(transform) => transform,
                Err(e) => {
                    proof {
                        if shape.0 > 0 && shape.1 > 0 {
                            lemma_unified_shape_aligned(bounds@, groups, k as int);
                            assert(groups[k as int].axis_aligned());
                        }
                    }
                    return Err(e);
                },
            };
            bands.push(ViewBand::from((transform, raster_band)));
            k = k + 1;
        }
        let mut first: Option<GeoRect> = None;
        let mut k: usize = 0;
        while k < selected_bands.len()
            invariant
                k <= selected_bands@.len(),
                groups == group_affines(selected_bands@),
                k > 0 ==> first is Some,
                first matches Some(e) ==> e@ == groups[0].cover_extent(bounds@),
                forall|j: int| 0 <= j < groups.len() ==> (#[trigger] groups[j]).axis_aligned(),
                forall|j: int|
                    0 <= j < k ==> (#[trigger] groups[j]).cover_extent_in_range(bounds@)
                        && groups[j].cover_extent(bounds@) == groups[0].cover_extent(bounds@),
            decreases selected_bands@.len() - k,
        {
            let extent = match selected_bands[k].0.transform.cover_extent(&bounds) {
                Ok(extent) => extent,
                Err(e) => {
                    assert(!groups[k as int].cover_extent_in_range(bounds@));
                    return Err(e);
                },
            };
            match first {
                None => {
                    first = Some(extent);
                },
                Some(e) => {
                    if !same_extent(&e, &extent) {
                        assert(groups[k as int].cover_extent(bounds@) != groups[0].cover_extent(
                            bounds@,
                        ));
                        return Err(RusterioError::Uncastable);
                    }
                },
            }
            k = k + 1;
        }
        Ok(View { bounds: view_bounds, bands: Rc::new(bands), orientation })
    }

    /// The part of the view inside `bounds`, with the same bands. The
    /// no-intersection error is returned where `bounds` and the view's own
    /// bounds do not overlap. Clipping a view to its own bounds gives a view
    /// with the same bounds.
    pub fn clip(&self, bounds: ViewBounds) -> (r: Result<Self, RusterioError>)
        ensures
            self.spec_bounds().overlaps(bounds@) ==> r is Ok && r->Ok_0.spec_bounds()
                == self.spec_bounds().meet(bounds@) && r->Ok_0.spec_bands() == self.spec_bands()
                && r->Ok_0.spec_orientation() == self.spec_orientation(),
            !self.spec_bounds().overlaps(bounds@) ==> r == Err::<Self, RusterioError>(
                crate::errors::no_intersection(),
            ),
            bounds@ == self.spec_bounds() ==> r is Ok && r->Ok_0.spec_bounds()
                == self.spec_bounds(),
    {
        let _ = self.bounds.shape();
        match self.bounds.intersection(&bounds) {
            Ok(bounds) => Ok(
                View { bounds, bands: share_rc(&self.bands), orientation: self.orientation },
            ),
            Err(e) => Err(e),
        }
    }

    /// The window that the view shows.
    pub fn view_bounds(&self) -> (r: &ViewBounds)
        ensures
            r@ == self.spec_bounds(),
    {
        &self.bounds
    }

    /// The bands of the view.
    pub fn view_bands(&self) -> (r: &[ViewBand<T, I, R>])
        ensures
            r@ == self.spec_bands(),
    {
        self.bands.as_slice()
    }

    /// `(width, height)` of the view's window.
    pub fn bounds_shape(&self) -> (r: (usize, usize))
        ensures
            r.0 == self.spec_bounds().width(),
            r.1 == self.spec_bounds().height(),
            self.spec_bounds().wf(),
    {
        self.bounds.shape()
    }

    /// Shape of the array that a read gives: `[bands, height, width]`.
    pub fn array_shape(&self) -> (r: [usize; 3])
        ensures
            r@[0] == self.spec_bands().len(),
            r@[1] == self.spec_bounds().height(),
            r@[2] == self.spec_bounds().width(),
            self.spec_bounds().wf(),
    {
        let (width, height) = self.bounds_shape();
        [self.bands.len(), height, width]
    }
}

} // verus!
