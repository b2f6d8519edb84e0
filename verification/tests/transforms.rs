use rusterio::bounds::{Bounds, GeoBounds, GeoRect, PixelBounds, ViewBounds};
use rusterio::crs_geo::CrsGeometry;
use rusterio::errors::RusterioError;
use rusterio::transforms::{
    AffineTransform, GeoReadTransform, ReadGeoTransform, ViewReadTransform, COORD_LIMIT,
};

fn geo(min: (i64, i64), max: (i64, i64)) -> GeoBounds {
    GeoBounds::from(CrsGeometry::new("EPSG:32633".to_string(), GeoRect::new(min, max)))
}

/// North-up pixels of `size` units, the top-left corner of pixel (0, 0) at
/// (0, 120).
fn north_up(size: i64) -> GeoReadTransform {
    ReadGeoTransform::new(size, 0, 0, 0, -size, 120, "EPSG:32633".to_string())
        .inverse()
        .unwrap()
}

/// Pixels of `size` units whose rows run north, the bottom-left corner of
/// pixel (0, 0) at (0, 0).
fn south_up(size: i64) -> GeoReadTransform {
    ReadGeoTransform::new(size, 0, 0, 0, size, 0, "EPSG:32633".to_string())
        .inverse()
        .unwrap()
}

/// Pixels of `size` units whose columns run west and whose rows run south,
/// the top-right corner of pixel (0, 0) at (120, 120).
fn west_up(size: i64) -> GeoReadTransform {
    ReadGeoTransform::new(-size, 0, 120, 0, -size, 120, "EPSG:32633".to_string())
        .inverse()
        .unwrap()
}

#[test]
fn a_singular_transform_has_no_inverse() {
    let flat = ReadGeoTransform::new(0, 0, 5, 0, 0, 7, "EPSG:32633".to_string());
    assert_eq!(flat.inverse().unwrap_err(), RusterioError::NonInvertibleTransform);
    let collapsed = ReadGeoTransform::new(2, 4, 0, 1, 2, 0, "EPSG:32633".to_string());
    assert_eq!(collapsed.inverse().unwrap_err(), RusterioError::NonInvertibleTransform);
}

#[test]
fn inverting_twice_gives_the_transform_back() {
    let transform = ReadGeoTransform::new(10, 0, 300, 0, -10, 500, "EPSG:32633".to_string());
    let inverse = transform.inverse().unwrap();
    assert_eq!(inverse.crs(), "EPSG:32633");
    let back = inverse.inverse();
    assert_eq!(back.crs(), "EPSG:32633");
    let bounds = geo((300, 400), (400, 500));
    let first = bounds.as_read_bounds(&inverse).unwrap();
    let second = bounds.as_read_bounds(&back.inverse().unwrap()).unwrap();
    assert_eq!(first, second);
    assert_eq!(first.min(), (0, 0));
    assert_eq!(first.max(), (10, 10));
}

#[test]
fn aligned_bounds_map_to_their_exact_pixel_window() {
    let bounds = geo((0, 0), (120, 120));
    assert_eq!(bounds.as_read_bounds(&north_up(10)).unwrap().shape(), (12, 12));
    assert_eq!(bounds.as_read_bounds(&north_up(20)).unwrap().shape(), (6, 6));
    assert_eq!(bounds.as_read_bounds(&north_up(60)).unwrap().shape(), (2, 2));
    let part = geo((20, 40), (60, 100));
    let window = part.as_read_bounds(&north_up(10)).unwrap();
    assert_eq!(window.offset(), (2, 2));
    assert_eq!(window.max(), (6, 8));
}

#[test]
fn bounds_between_pixels_are_rounded_outward() {
    let bounds = geo((5, 5), (35, 35));
    let window = bounds.as_read_bounds(&north_up(10)).unwrap();
    assert_eq!(window.min(), (0, 8));
    assert_eq!(window.max(), (4, 12));
    let window = bounds.as_read_bounds(&north_up(60)).unwrap();
    assert_eq!(window.min(), (0, 1));
    assert_eq!(window.max(), (1, 2));
}

#[test]
fn bounds_smaller_than_a_pixel_map_to_one_pixel() {
    let bounds = geo((12, 13), (14, 15));
    let window = bounds.as_read_bounds(&north_up(10)).unwrap();
    assert_eq!(window.offset(), (1, 10));
    assert_eq!(window.shape(), (1, 1));
    assert_eq!(window.size(), 1);
}

#[test]
fn bounds_on_a_pixel_edge_without_extent_map_to_no_pixel() {
    let bounds = geo((10, 20), (10, 40));
    let window = bounds.as_read_bounds(&north_up(10)).unwrap();
    assert_eq!(window.shape(), (0, 2));
}

#[test]
fn bounds_before_the_first_pixel_cannot_be_cast() {
    let left = geo((-20, 0), (10, 10));
    assert_eq!(left.as_read_bounds(&north_up(10)).unwrap_err(), RusterioError::Uncastable);
    let above = geo((0, 100), (10, 125));
    assert_eq!(above.as_read_bounds(&north_up(10)).unwrap_err(), RusterioError::Uncastable);
    let just_inside = geo((0, 0), (10, 120));
    assert!(just_inside.as_read_bounds(&north_up(10)).is_ok());
}

#[test]
fn a_transform_that_swaps_the_axes_is_inverted_too() {
    let swap = ReadGeoTransform::new(0, 10, 0, 10, 0, 0, "EPSG:32633".to_string())
        .inverse()
        .unwrap();
    let window = geo((0, 0), (20, 40)).as_read_bounds(&swap).unwrap();
    assert_eq!(window.min(), (0, 0));
    assert_eq!(window.max(), (4, 2));
}

#[test]
fn a_sheared_transform_covers_all_four_corners() {
    // x = px + py, y = py: the preimage of (x, y) is (x - y, y)
    let shear = ReadGeoTransform::new(1, 1, 0, 0, 1, 0, "EPSG:32633".to_string())
        .inverse()
        .unwrap();
    let window = geo((10, 0), (20, 5)).as_read_bounds(&shear).unwrap();
    assert_eq!(window.min(), (5, 0));
    assert_eq!(window.max(), (20, 5));
}

#[test]
fn the_view_has_the_least_common_multiple_of_the_windows() {
    let bounds = geo((0, 0), (120, 120));
    let t10 = north_up(10);
    let t20 = north_up(20);
    let t60 = north_up(60);
    let t15 = north_up(15);
    let view = bounds.build_raster_view_bounds(&[&t10, &t20, &t60]).unwrap();
    assert_eq!(view.offset(), (0, 0));
    assert_eq!(view.shape(), (12, 12));
    let view = bounds.build_raster_view_bounds(&[&t60, &t20]).unwrap();
    assert_eq!(view.shape(), (6, 6));
    let view = bounds.build_raster_view_bounds(&[&t10, &t15]).unwrap();
    assert_eq!(view.shape(), (24, 24));
    let view = bounds.build_raster_view_bounds(&[&t20]).unwrap();
    assert_eq!(view.shape(), (6, 6));
    let view = bounds.build_raster_view_bounds(&[&t20, &t20, &t20]).unwrap();
    assert_eq!(view.shape(), (6, 6));
}

#[test]
fn the_view_fails_where_a_window_cannot_be_cast() {
    let bounds = geo((-60, 0), (120, 120));
    let t10 = north_up(10);
    assert_eq!(
        bounds.build_raster_view_bounds(&[&t10]).unwrap_err(),
        RusterioError::Uncastable
    );
}

#[test]
fn a_band_transform_has_the_ratio_of_view_to_window() {
    let bounds = geo((0, 0), (120, 120));
    let view = ViewBounds::new((0, 0), (12, 12));
    let t = ViewReadTransform::new(&view, &bounds, &north_up(10)).unwrap();
    assert_eq!(t.ratio(), (1, 1));
    assert_eq!(t.origin(), (0, 0));
    let t = ViewReadTransform::new(&view, &bounds, &north_up(20)).unwrap();
    assert_eq!(t.ratio(), (2, 2));
    let t = ViewReadTransform::new(&view, &bounds, &north_up(60)).unwrap();
    assert_eq!(t.ratio(), (6, 6));
    let part = geo((60, 0), (120, 60));
    let view = ViewBounds::new((0, 0), (6, 6));
    let t = ViewReadTransform::new(&view, &part, &north_up(20)).unwrap();
    assert_eq!(t.ratio(), (2, 2));
    assert_eq!(t.origin(), (3, 3));
}

#[test]
fn a_band_transform_needs_whole_blocks() {
    let bounds = geo((0, 0), (120, 120));
    let view = ViewBounds::new((0, 0), (9, 12));
    assert_eq!(
        ViewReadTransform::new(&view, &bounds, &north_up(20)).unwrap_err(),
        RusterioError::Uncastable
    );
    let empty = ViewBounds::new((0, 0), (0, 12));
    assert_eq!(
        ViewReadTransform::new(&empty, &bounds, &north_up(20)).unwrap_err(),
        RusterioError::Uncastable
    );
    let line = geo((10, 0), (10, 120));
    let view = ViewBounds::new((0, 0), (12, 12));
    assert_eq!(
        ViewReadTransform::new(&view, &line, &north_up(10)).unwrap_err(),
        RusterioError::Uncastable
    );
    let outside = geo((-10, 0), (10, 120));
    assert_eq!(
        ViewReadTransform::new(&view, &outside, &north_up(10)).unwrap_err(),
        RusterioError::Uncastable
    );
}

#[test]
fn a_view_window_maps_to_the_pixels_that_it_touches() {
    let t = ViewReadTransform::from_ratio((6, 2), (2, 5));
    let window = ViewBounds::new((3, 1), (7, 4)).as_read_bounds(&t).unwrap();
    assert_eq!(window.min(), (2, 5));
    assert_eq!(window.max(), (4, 8));
    let aligned = ViewBounds::new((6, 2), (12, 4)).as_read_bounds(&t).unwrap();
    assert_eq!(aligned.min(), (3, 6));
    assert_eq!(aligned.max(), (5, 8));
    let unit = ViewReadTransform::from_ratio((1, 1), (10, 20));
    let same = ViewBounds::new((3, 1), (7, 4)).as_read_bounds(&unit).unwrap();
    assert_eq!(same.offset(), (13, 21));
    assert_eq!(same.shape(), (7, 4));
}

#[test]
fn a_view_window_beyond_the_pixel_range_cannot_be_cast() {
    let t = ViewReadTransform::from_ratio((1, 1), (usize::MAX - 3, 0));
    assert!(ViewBounds::new((0, 0), (3, 3)).as_read_bounds(&t).is_ok());
    assert_eq!(
        ViewBounds::new((0, 0), (4, 3)).as_read_bounds(&t).unwrap_err(),
        RusterioError::Uncastable
    );
}

#[test]
fn an_affine_transform_applies_its_coefficients() {
    let transform = AffineTransform::new(10, 2, 300, -3, -10, 500);
    assert_eq!(transform.coefficients(), (10, 2, 300, -3, -10, 500));
    assert_eq!(transform.apply(0, 0), Ok((300, 500)));
    assert_eq!(transform.apply(1, 0), Ok((310, 497)));
    assert_eq!(transform.apply(0, 1), Ok((302, 490)));
    assert_eq!(transform.apply(4, 7), Ok((354, 418)));
    assert_eq!(transform.apply(-2, -1), Ok((278, 516)));
}

#[test]
fn an_image_beyond_the_limit_cannot_be_cast() {
    let transform = AffineTransform::new(2, 0, 0, 0, 1, 0);
    assert_eq!(transform.apply(COORD_LIMIT / 2, 0), Ok((COORD_LIMIT, 0)));
    assert_eq!(transform.apply(COORD_LIMIT / 2 + 1, 0), Err(RusterioError::Uncastable));
    assert_eq!(transform.apply(-COORD_LIMIT, 0), Err(RusterioError::Uncastable));
}

#[test]
fn composing_applies_the_first_transform_first() {
    let scale = AffineTransform::new(2, 0, 0, 0, 3, 0);
    let shift = AffineTransform::new(1, 0, 10, 0, 1, 20);
    let scale_then_shift = scale.compose(&shift).unwrap();
    assert_eq!(scale_then_shift.coefficients(), (2, 0, 10, 0, 3, 20));
    assert_eq!(scale_then_shift.apply(1, 1), Ok((12, 23)));
    let shift_then_scale = shift.compose(&scale).unwrap();
    assert_eq!(shift_then_scale.coefficients(), (2, 0, 20, 0, 3, 60));
    assert_eq!(shift_then_scale.apply(1, 1), Ok((22, 63)));
    let turn = AffineTransform::new(0, -1, 0, 1, 0, 0);
    let general = AffineTransform::new(3, 1, 4, 1, 5, 9);
    let composed = general.compose(&turn).unwrap();
    for point in [(0, 0), (1, 0), (0, 1), (7, -3)] {
        let image = general.apply(point.0, point.1).unwrap();
        assert_eq!(composed.apply(point.0, point.1), turn.apply(image.0, image.1));
    }
}

#[test]
fn composition_is_associative_and_has_an_identity() {
    let a = AffineTransform::new(3, 1, 4, 1, 5, 9);
    let b = AffineTransform::new(2, 7, 1, 8, 2, 8);
    let c = AffineTransform::new(-1, 6, 1, 8, 0, -3);
    let identity = AffineTransform::new(1, 0, 0, 0, 1, 0);
    assert_eq!(
        a.compose(&b).unwrap().compose(&c).unwrap(),
        a.compose(&b.compose(&c).unwrap()).unwrap()
    );
    assert_eq!(a.compose(&identity).unwrap(), a);
    assert_eq!(identity.compose(&a).unwrap(), a);
}

#[test]
fn a_composition_beyond_the_limit_cannot_be_cast() {
    let big = AffineTransform::new(COORD_LIMIT, 0, 0, 0, 1, 0);
    let double = AffineTransform::new(2, 0, 0, 0, 1, 0);
    assert_eq!(big.compose(&double).unwrap_err(), RusterioError::Uncastable);
    assert!(big.compose(&AffineTransform::new(1, 0, 0, 0, 1, 0)).is_ok());
}

#[test]
fn the_extent_of_a_cover_is_the_image_of_its_corners() {
    let bounds = geo((5, 5), (35, 35));
    // the window of columns 0..4 and rows 8..12 of pixels of 10 units
    let extent = north_up(10).cover_extent(&bounds).unwrap();
    assert_eq!((extent.min(), extent.max()), ((0, 0), (40, 40)));
    let extent = north_up(20).cover_extent(&bounds).unwrap();
    assert_eq!((extent.min(), extent.max()), ((0, 0), (40, 40)));
    let extent = north_up(60).cover_extent(&bounds).unwrap();
    assert_eq!((extent.min(), extent.max()), ((0, 0), (60, 60)));
    let aligned = geo((20, 40), (60, 100));
    let extent = north_up(20).cover_extent(&aligned).unwrap();
    assert_eq!((extent.min(), extent.max()), ((20, 40), (60, 100)));
    // rows that run north cover the same part of space
    let extent = south_up(20).cover_extent(&aligned).unwrap();
    assert_eq!((extent.min(), extent.max()), ((20, 40), (60, 100)));
}

#[test]
fn a_read_geo_transform_gives_its_affine_transform() {
    let transform = ReadGeoTransform::new(10, 0, 300, 0, -10, 500, "EPSG:32633".to_string());
    assert_eq!(transform.transform().coefficients(), (10, 0, 300, 0, -10, 500));
    assert_eq!(transform.transform().apply(3, 2), Ok((330, 480)));
    assert_eq!(transform.crs(), "EPSG:32633");
}

#[test]
fn a_transform_knows_which_way_its_grid_runs() {
    assert_eq!(north_up(10).orientation(), Some((false, false)));
    assert_eq!(south_up(10).orientation(), Some((false, true)));
    assert_eq!(west_up(10).orientation(), Some((true, false)));
    let swap = ReadGeoTransform::new(0, 10, 0, 10, 0, 0, "EPSG:32633".to_string())
        .inverse()
        .unwrap();
    assert_eq!(swap.orientation(), None);
    let shear = ReadGeoTransform::new(1, 1, 0, 0, 1, 0, "EPSG:32633".to_string())
        .inverse()
        .unwrap();
    assert_eq!(shear.orientation(), None);
}

#[test]
fn a_band_whose_rows_run_north_is_laid_mirrored() {
    let bounds = geo((0, 0), (120, 120));
    let view = ViewBounds::new((0, 0), (12, 12));
    let t = ViewReadTransform::new(&view, &bounds, &south_up(20)).unwrap();
    assert_eq!(t.ratio(), (2, 2));
    assert_eq!(t.mirrored(), (false, true));
    // the top of the region is the end of the native rows
    assert_eq!(t.origin(), (0, 6));
    let part = geo((40, 20), (120, 80));
    let view = ViewBounds::new((0, 0), (8, 6));
    let t = ViewReadTransform::new(&view, &part, &south_up(20)).unwrap();
    assert_eq!(t.origin(), (2, 4));
    assert_eq!(t.mirrored(), (false, true));
    let t = ViewReadTransform::new(&view, &part, &west_up(20)).unwrap();
    assert_eq!(t.mirrored(), (true, false));
    // columns 0..4 of the grid, counted from the east, and rows 2..5
    assert_eq!(t.origin(), (4, 2));
}

#[test]
fn a_band_with_shear_or_rotation_has_no_view_transform() {
    let bounds = geo((0, 0), (20, 40));
    let swap = ReadGeoTransform::new(0, 10, 0, 10, 0, 0, "EPSG:32633".to_string())
        .inverse()
        .unwrap();
    let view = ViewBounds::new((0, 0), (4, 2));
    assert_eq!(
        ViewReadTransform::new(&view, &bounds, &swap).unwrap_err(),
        RusterioError::Uncastable
    );
}

#[test]
fn a_mirrored_window_is_counted_down_from_the_origin() {
    let t = ViewReadTransform::oriented((6, 2), (10, 20), (true, true));
    let window = ViewBounds::new((3, 1), (7, 4)).as_read_bounds(&t).unwrap();
    // columns 3..10 lie in the blocks 0 and 1, rows 1..5 in the blocks 0, 1 and 2
    assert_eq!(window.min(), (8, 17));
    assert_eq!(window.max(), (10, 20));
    let mixed = ViewReadTransform::oriented((6, 2), (10, 20), (false, true));
    let window = ViewBounds::new((3, 1), (7, 4)).as_read_bounds(&mixed).unwrap();
    assert_eq!(window.min(), (10, 17));
    assert_eq!(window.max(), (12, 20));
    let short = ViewReadTransform::oriented((1, 1), (2, 2), (true, false));
    assert!(ViewBounds::new((0, 0), (2, 2)).as_read_bounds(&short).is_ok());
    assert_eq!(
        ViewBounds::new((0, 0), (3, 2)).as_read_bounds(&short).unwrap_err(),
        RusterioError::Uncastable
    );
}

#[test]
fn a_view_that_runs_as_the_band_does_is_not_mirrored() {
    let bounds = geo((0, 0), (120, 120));
    let view = ViewBounds::new((0, 0), (12, 12));
    let t = ViewReadTransform::new_oriented(&view, &bounds, &south_up(20), (false, true)).unwrap();
    assert_eq!(t.ratio(), (2, 2));
    assert_eq!(t.mirrored(), (false, false));
    assert_eq!(t.origin(), (0, 0));
    let t = ViewReadTransform::new_oriented(&view, &bounds, &north_up(20), (false, true)).unwrap();
    assert_eq!(t.mirrored(), (false, true));
    assert_eq!(t.origin(), (0, 6));
    let t = ViewReadTransform::new_oriented(&view, &bounds, &west_up(20), (true, false)).unwrap();
    assert_eq!(t.mirrored(), (false, false));
    assert_eq!(t.origin(), (0, 0));
    let t = ViewReadTransform::new_oriented(&view, &bounds, &north_up(20), (false, false)).unwrap();
    assert_eq!(t.mirrored(), (false, false));
}
