//! Rasters: band groups of different native resolutions over one
//! geographic extent.
use vstd::prelude::*;
use vstd::view::View as _;
use crate::band::{BandInfo, BandReader};
use crate::bounds::GeoBounds;
use crate::errors::{no_intersection, RusterioError};
use crate::file::File;
use crate::geometry::Rect;
use crate::indexes::Indexes;
use crate::intersection::Intersection;
use crate::metadata::Metadata;
use crate::raster::band::{flat_group_bands, RasterBand, RasterBands};
use crate::raster::group::{RasterGroup, RasterGroupInfo};
use crate::transforms::{Affine, ReadGeoTransform};
use crate::view::{view_plan, View};
use crate::DataType;

pub mod band;
pub mod group;

verus! {

/// The common part of all the rectangles, folded from the first on; none
/// once two of them do not overlap, and none for no rectangle.
pub open spec fn stacked_bounds(rects: Seq<Rect>) -> Option<Rect>
    decreases rects.len(),
{
    if rects.len() == 0 {
        None
    } else if rects.len() == 1 {
        Some(rects[0])
    } else {
        match stacked_bounds(rects.drop_last()) {
            None => None,
            Some(acc) => acc.intersection(rects.last()),
        }
    }
}

/// Once the first `n` rectangles have no common part, all of them have
/// none.
pub proof fn lemma_stacked_bounds_prefix(rects: Seq<Rect>, n: int)
    requires
        1 <= n <= rects.len(),
        stacked_bounds(rects.take(n)) is None,
    ensures
        stacked_bounds(rects) is None,
    decreases rects.len() - n,
{
    if n < rects.len() {
        assert(rects.take(n + 1).drop_last() =~= rects.take(n));
        lemma_stacked_bounds_prefix(rects, n + 1);
    } else {
        assert(rects.take(n) =~= rects);
    }
}

/// Stacking two extents gives their common part: none where they lie
/// apart, and else the rectangle between the greater of the minimum corners
/// and the lesser of the maximum corners.
pub proof fn lemma_stacked_bounds_of_two(a: Rect, b: Rect)
    ensures
        stacked_bounds(seq![a, b]) == a.intersection(b),
        !a.overlaps(b) ==> stacked_bounds(seq![a, b]) is None,
        a.overlaps(b) ==> stacked_bounds(seq![a, b]) == Some(a.meet(b)),
{
    let s = seq![a, b];
    assert(s.drop_last() =~= seq![a]);
    assert(s.last() == b);
    assert(stacked_bounds(seq![a]) == Some(a));
}

/// The extent of a stack is the common part of all the extents: it holds
/// exactly the points that lie in every one of them.
pub proof fn lemma_stacked_bounds_is_common_part(rects: Seq<Rect>, x: int, y: int)
    requires
        stacked_bounds(rects) is Some,
    ensures
        stacked_bounds(rects)->Some_0.contains_point(x, y) <==> forall|k: int|
            0 <= k < rects.len() ==> (#[trigger] rects[k]).contains_point(x, y),
    decreases rects.len(),
{
    let all = stacked_bounds(rects)->Some_0;
    if rects.len() > 1 {
        let before = rects.drop_last();
        let acc = stacked_bounds(before)->Some_0;
        lemma_stacked_bounds_is_common_part(before, x, y);
        assert(all == acc.meet(rects.last()));
        if all.contains_point(x, y) {
            assert forall|k: int| 0 <= k < rects.len() implies (#[trigger] rects[k]).contains_point(
                x,
                y,
            ) by {
                if k < before.len() {
                    assert(before[k] == rects[k]);
                }
            }
        }
        if forall|k: int| 0 <= k < rects.len() ==> (#[trigger] rects[k]).contains_point(x, y) {
            assert forall|k: int| 0 <= k < before.len() implies (
            #[trigger] before[k]).contains_point(x, y) by {
                assert(before[k] == rects[k]);
            }
            assert(rects[rects.len() - 1].contains_point(x, y));
        }
    } else {
        assert(all == rects[0]);
    }
}

/// The groups of all the rasters, raster after raster.
pub open spec fn stacked_groups<T: DataType, I: BandInfo, R: BandReader<T>>(
    rasters: Seq<Raster<T, I, R>>,
) -> Seq<RasterGroup<T, I, R>>
    decreases rasters.len(),
{
    if rasters.len() == 0 {
        Seq::empty()
    } else {
        stacked_groups(rasters.drop_last()) + rasters.last().spec_groups()
    }
}

/// The geographic bounds of the rasters, in order.
pub open spec fn bounds_of<T: DataType, I: BandInfo, R: BandReader<T>>(
    rasters: Seq<Raster<T, I, R>>,
) -> Seq<Rect> {
    Seq::new(rasters.len(), |k: int| rasters[k].spec_bounds())
}

/// A collection of band groups over one geographic extent: one logical
/// dataset, whatever the native resolutions of its bands.
pub struct Raster<T: DataType, I: BandInfo, R: BandReader<T>> {
    /// Bounds of the full raster, in geographic space with the raster's
    /// reference system.
    bounds: GeoBounds,
    bands: RasterBands<T, I, R>,
}

impl<T: DataType, I: BandInfo, R: BandReader<T>> Raster<T, I, R> {
    /// The geographic extent of the raster.
    pub closed spec fn spec_bounds(&self) -> Rect {
        self.bounds@
    }

    /// The identifier of the reference system of the extent.
    pub closed spec fn spec_crs(&self) -> Seq<char> {
        self.bounds.spec_crs()
    }

    /// The band groups, in order.
    pub closed spec fn spec_groups(&self) -> Seq<RasterGroup<T, I, R>> {
        self.bands@
    }

    /// The bands of all the groups, each with the information of its
    /// group: the order in which a selection counts the bands.
    pub open spec fn spec_bands(&self) -> Seq<(RasterGroupInfo, RasterBand<T, I, R>)> {
        flat_group_bands(self.spec_groups())
    }

    /// The raster with the given extent and band groups.
    pub fn init(bounds: GeoBounds, bands: RasterBands<T, I, R>) -> (r: Self)
        ensures
            r.spec_bounds() == bounds@,
            r.spec_crs() == bounds.spec_crs(),
            r.spec_groups() == bands@,
    {
        Self { bounds, bands }
    }

    /// The raster of one band group, from what a file declares: its
    /// extent, its pixel-to-geographic transform, its description and
    /// metadata, and its bands. The error for a singular transform is
    /// returned where the transform cannot be inverted.
    pub fn from_parts(
        bounds: GeoBounds,
        transform: ReadGeoTransform,
        description: String,
        metadata: Metadata,
        bands: Vec<RasterBand<T, I, R>>,
    ) -> (r: Result<Self, RusterioError>)
        ensures
            transform@.det() == 0 ==> r == Err::<Self, RusterioError>(
                RusterioError::NonInvertibleTransform,
            ),
            transform@.det() != 0 ==> {
                &&& r is Ok
                &&& r->Ok_0.spec_bounds() == bounds@
                &&& r->Ok_0.spec_crs() == bounds.spec_crs()
                &&& r->Ok_0.spec_groups().len() == 1
                &&& r->Ok_0.spec_groups()[0].bands == bands
                &&& r->Ok_0.spec_groups()[0].info.transform@ == transform@
                &&& r->Ok_0.spec_groups()[0].info.transform.spec_crs() == transform.spec_crs()
                &&& r->Ok_0.spec_groups()[0].info.description == description
                &&& r->Ok_0.spec_groups()[0].info.metadata == metadata
            },
    {
        let transform = match transform.inverse() {
            Ok(transform) => transform,
            Err(e) => {
                return Err(e);
            },
        };
        let info = RasterGroupInfo { description, transform, metadata };
        Ok(Self::init(bounds, RasterBands::from(RasterGroup { info, bands })))
    }

    /// What `new` returns for a file that declares its answers: the first
    /// failure among the transform, the extent, the description and the
    /// picked bands, in that order and as it is; else the error for a
    /// singular transform; and else the raster of one group with the
    /// declared extent, transform, description, metadata and bands.
    pub open spec fn made_of<F: File<T, I, R>>(
        file: &F,
        selection: crate::indexes::Selection,
        r: Result<Self, RusterioError>,
    ) -> bool {
        let picked = selection.resolve(file.declared_count() as nat);
        match file.declared_transform() {
            Err(e) => r == Err::<Self, RusterioError>(e),
            Ok(transform) => match file.declared_bounds() {
                Err(e) => r == Err::<Self, RusterioError>(e),
                Ok(bounds) => match file.declared_description() {
                    Err(e) => r == Err::<Self, RusterioError>(e),
                    Ok(description) => match crate::file::first_failure(
                        |i: usize| file.declared_band(i),
                        picked,
                    ) {
                        Some(e) => r == Err::<Self, RusterioError>(e),
                        None => if transform.0.det() == 0 {
                            r == Err::<Self, RusterioError>(RusterioError::NonInvertibleTransform)
                        } else {
                            &&& r is Ok
                            &&& r->Ok_0.spec_bounds() == bounds.0
                            &&& r->Ok_0.spec_crs() == bounds.1
                            &&& r->Ok_0.spec_groups().len() == 1
                            &&& r->Ok_0.spec_groups()[0].info.transform@ == transform.0
                            &&& r->Ok_0.spec_groups()[0].info.transform.spec_crs() == transform.1
                            &&& r->Ok_0.spec_groups()[0].info.description@ == description
                            &&& r->Ok_0.spec_groups()[0].info.metadata.spec_description()
                                == file.declared_metadata().0
                            &&& r->Ok_0.spec_groups()[0].info.metadata@
                                == file.declared_metadata().1
                            &&& r->Ok_0.spec_groups()[0].bands@.len() == picked.len()
                            &&& forall|k: int|
                                0 <= k < picked.len() ==> file.declared_band(picked[k]) == Ok::<
                                    RasterBand<T, I, R>,
                                    RusterioError,
                                >(#[trigger] r->Ok_0.spec_groups()[0].bands@[k])
                        },
                    },
                },
            },
        }
    }

    /// The raster of the one band group of `file`, with the bands that
    /// `band_indexes` selects among those of the file.
    ///
    /// The file is asked for its transform, its extent, its description,
    /// its metadata and its bands, in that order; the first failure is
    /// returned, and the error for a singular transform where the file's
    /// transform cannot be inverted. Whether the raster can be had is the
    /// file's to decide; where it is had, it has one group, which holds as
    /// many bands as the selection picks among the bands that the file
    /// counts. Of a file that declares its answers, `made_of` says what is
    /// returned: the first failing answer as it is, or the raster made of
    /// the answers.
    pub fn new<F: File<T, I, R>>(file: &F, band_indexes: Indexes) -> (r: Result<
        Self,
        RusterioError,
    >)
        ensures
            r matches Ok(raster) ==> {
                &&& raster.spec_groups().len() == 1
                &&& exists|count: usize|
                    raster.spec_groups()[0].bands@.len() == #[trigger] band_indexes@.count(
                        count as nat,
                    )
            },
            file.declares() ==> Self::made_of(file, band_indexes@, r),
    {
        let ghost selection = band_indexes@;
        let transform = file.transform()?;
        let bounds = file.geo_bounds()?;
        let description = file.description()?;
        let metadata = file.metadata();
        let raster_bands = file.bands(band_indexes)?;
        let ghost count = choose|count: usize|
            raster_bands@.len() == #[trigger] selection.count(count as nat);
        let r = Self::from_parts(bounds, transform, description, metadata, raster_bands);
        proof {
            if r is Ok {
                assert(r->Ok_0.spec_groups()[0].bands@.len() == selection.count(count as nat));
            }
        }
        r
    }

    /// The one raster made of all of `rasters`: its extent is the common
    /// part of their extents, in the reference system of the first, and its
    /// groups are theirs, raster after raster. The no-intersection error
    /// is returned as soon as an extent does not overlap the common part of
    /// those before it.
    pub fn stack(rasters: Vec<Raster<T, I, R>>) -> (r: Result<Raster<T, I, R>, RusterioError>)
        requires
            rasters@.len() > 0,
        ensures
            match stacked_bounds(bounds_of(rasters@)) {
                Some(bounds) => {
                    &&& r is Ok
                    &&& r->Ok_0.spec_bounds() == bounds
                    &&& r->Ok_0.spec_crs() == rasters@[0].spec_crs()
                    &&& r->Ok_0.spec_groups() == stacked_groups(rasters@)
                },
                None => r == Err::<Self, RusterioError>(no_intersection()),
            },
    {
        let ghost all = rasters@;
        let ghost rects = bounds_of(all);
        let mut rest = rasters;
        let first = rest.remove(0);
        let mut stack_geo_bounds = first.bounds;
        let mut stack_bands = first.bands;
        let ghost mut n: int = 1;
        proof {
            assert(rects.take(1) =~= seq![rects[0]]);
            assert(all.take(1).drop_last() =~= Seq::empty());
            assert(all.take(1).last() == all[0]);
            assert(stacked_groups(all.take(1).drop_last()) =~= Seq::empty());
            assert(stacked_groups(all.take(1)) =~= all[0].spec_groups());
        }
        while rest.len() > 0
            invariant
                1 <= n <= all.len(),
                all == rasters@,
                rects == bounds_of(all),
                rest@ == all.skip(n),
                stacked_bounds(rects.take(n)) == Some(stack_geo_bounds@),
                stack_geo_bounds.spec_crs() == all[0].spec_crs(),
                stack_bands@ == stacked_groups(all.take(n)),
            decreases rest@.len(),
        {
            let next = rest.remove(0);
            proof {
                assert(next == all[n]);
                assert(rest@ =~= all.skip(n + 1));
                assert(rects.take(n + 1).drop_last() =~= rects.take(n));
                assert(rects.take(n + 1).last() == next.spec_bounds());
                assert(all.take(n + 1).drop_last() =~= all.take(n));
                assert(all.take(n + 1).last() == next);
                assert(stacked_bounds(rects.take(n + 1)) == stack_geo_bounds@.intersection(
                    next.spec_bounds(),
                ));
            }
            let geo_bounds = next.bounds;
            let mut bands = next.bands;
            stack_geo_bounds = match stack_geo_bounds.intersection(&geo_bounds) {
                Ok(bounds) => bounds,
                Err(e) => {
                    proof {
                        lemma_stacked_bounds_prefix(rects, n + 1);
                    }
                    return Err(e);
                },
            };
            stack_bands.append(&mut bands);
            proof {
                n = n + 1;
            }
        }
        proof {
            assert(rects.take(n) =~= rects);
            assert(all.take(n) =~= all);
        }
        Ok(Self::init(stack_geo_bounds, stack_bands))
    }

    /// The region that a view of the raster shows: the raster's extent, or
    /// its common part with the bounds that were asked for, if any.
    pub open spec fn view_region(&self, bounds: Option<GeoBounds>) -> Option<Rect> {
        match bounds {
            Some(bounds) => self.spec_bounds().intersection(bounds@),
            None => Some(self.spec_bounds()),
        }
    }

    /// The pixel-to-geographic maps of the groups of the bands at the
    /// positions `picked`.
    pub open spec fn picked_affines(&self, picked: Seq<usize>) -> Seq<Affine> {
        Seq::new(picked.len(), |k: int| self.spec_bands()[picked[k] as int].0.transform@)
    }

    /// The full view of the bands that `band_indexes` selects, over the
    /// raster's extent or, where `bounds` are given, over the common part
    /// of the two.
    ///
    /// The no-intersection error is returned where the bounds do not
    /// overlap the raster's extent, whatever the selection, and the cast
    /// error where the region has no view. Where the region exists, the
    /// selection has to pick a band at least, and bands of the raster only.
    pub fn view(&self, bounds: Option<GeoBounds>, band_indexes: Indexes) -> (r: Result<
        View<T, I, R>,
        RusterioError,
    >)
        requires
            self.view_region(bounds) is Some ==> band_indexes@.in_range(self.spec_bands().len())
                && band_indexes@.count(self.spec_bands().len()) > 0,
        ensures
            match self.view_region(bounds) {
                None => r == Err::<View<T, I, R>, RusterioError>(no_intersection()),
                Some(region) => {
                    let picked = band_indexes@.resolve(self.spec_bands().len());
                    match view_plan(region, self.picked_affines(picked)) {
                        None => r == Err::<View<T, I, R>, RusterioError>(
                            RusterioError::Uncastable,
                        ),
                        Some(plan) => {
                            &&& r is Ok
                            &&& r->Ok_0.spec_bounds() == plan.bounds
                            &&& r->Ok_0.spec_orientation() == plan.orientation
                            &&& r->Ok_0.spec_bands().len() == picked.len()
                            &&& forall|k: int|
                                0 <= k < picked.len() ==> {
                                    &&& (#[trigger] r->Ok_0.spec_bands()[k]).transform@
                                        == plan.scales[k]
                                    &&& r->Ok_0.spec_bands()[k].info == self.spec_bands()[picked[k] as int].1.info
                                    &&& r->Ok_0.spec_bands()[k].reader
                                        == self.spec_bands()[picked[k] as int].1.reader
                                }
                        },
                    }
                },
            },
    {
        let mut view_geo_bounds = self.bounds.clone();
        if let Some(geo_bounds) = bounds {
            view_geo_bounds = match view_geo_bounds.intersection(&geo_bounds) {
                Ok(bounds) => bounds,
                Err(e) => {
                    return Err(e);
                },
            };
        }
        let group_bands = self.bands.group_band();
        let ghost picked = band_indexes@.resolve(self.spec_bands().len());
        let view_group_info_bands = band_indexes.select_from(group_bands);
        proof {
            assert(crate::view::group_affines(view_group_info_bands@) =~= self.picked_affines(
                picked,
            ));
        }
        View::new(view_geo_bounds, view_group_info_bands)
    }

    /// The geographic extent of the raster.
    pub fn bounds(&self) -> (r: &GeoBounds)
        ensures
            r@ == self.spec_bounds(),
            r.spec_crs() == self.spec_crs(),
    {
        &self.bounds
    }

    /// The bands of the raster, by group.
    pub fn bands(&self) -> (r: &RasterBands<T, I, R>)
        ensures
            r@ == self.spec_groups(),
    {
        &self.bands
    }
}

} // verus!
