use rusterio::bounds::{Bounds, GeoBounds, GeoRect, PixelBounds, ReadBounds, ViewBounds};
use rusterio::crs_geo::CrsGeometry;
use rusterio::errors::{IntersectionError, RusterioError};
use rusterio::intersection::Intersection;

fn geo(min: (i64, i64), max: (i64, i64)) -> GeoBounds {
    GeoBounds::from(CrsGeometry::new("EPSG:32633".to_string(), GeoRect::new(min, max)))
}

#[test]
fn view_bounds_offset_shape_and_size() {
    let bounds = ViewBounds::new((3, 4), (10, 20));
    assert_eq!(bounds.offset(), (3, 4));
    assert_eq!(bounds.min(), (3, 4));
    assert_eq!(bounds.max(), (13, 24));
    assert_eq!(bounds.shape(), (10, 20));
    assert_eq!(bounds.width(), 10);
    assert_eq!(bounds.height(), 20);
    assert_eq!(bounds.size(), 200);
}

#[test]
fn read_bounds_offset_shape_and_size() {
    let bounds = ReadBounds::new((1, 2), (3, 5));
    assert_eq!(bounds.offset(), (1, 2));
    assert_eq!(bounds.max(), (4, 7));
    assert_eq!(bounds.shape(), (3, 5));
    assert_eq!(bounds.size(), 15);
}

#[test]
fn overlapping_view_bounds_intersect_in_max_of_mins_and_min_of_maxes() {
    let a = ViewBounds::new((0, 0), (10, 10));
    let b = ViewBounds::new((4, 6), (10, 10));
    let common = a.intersection(&b).unwrap();
    assert_eq!(common.min(), (4, 6));
    assert_eq!(common.max(), (10, 10));
    let other_way = b.intersection(&a).unwrap();
    assert_eq!(other_way, common);
}

#[test]
fn contained_bounds_intersect_in_the_inner_one() {
    let outer = ReadBounds::new((0, 0), (100, 100));
    let inner = ReadBounds::new((10, 20), (5, 6));
    assert_eq!(outer.intersection(&inner).unwrap(), inner);
}

#[test]
fn disjoint_view_bounds_do_not_intersect() {
    let a = ViewBounds::new((0, 0), (10, 10));
    let right = ViewBounds::new((11, 0), (5, 5));
    let below = ViewBounds::new((0, 11), (5, 5));
    for other in [right, below] {
        match a.intersection(&other) {
            Err(RusterioError::NoIntersection(IntersectionError::NoIntersection)) => {}
            result => panic!("expected no intersection, got {:?}", result),
        }
        assert!(other.intersection(&a).is_err());
    }
}

#[test]
fn touching_bounds_intersect_in_an_empty_rectangle() {
    let a = ViewBounds::new((0, 0), (10, 10));
    let edge = ViewBounds::new((10, 2), (5, 5));
    let common = a.intersection(&edge).unwrap();
    assert_eq!(common.min(), (10, 2));
    assert_eq!(common.max(), (10, 7));
    assert_eq!(common.size(), 0);
    let corner = ViewBounds::new((10, 10), (1, 1));
    let common = a.intersection(&corner).unwrap();
    assert_eq!(common.shape(), (0, 0));
}

#[test]
fn bounds_intersect_with_themselves_in_themselves() {
    let a = ViewBounds::new((7, 9), (3, 2));
    assert_eq!(a.intersection(&a).unwrap(), a);
}

#[test]
fn geo_rect_orders_its_corners() {
    let rect = GeoRect::new((120, -5), (-30, 40));
    assert_eq!(rect.min(), (-30, -5));
    assert_eq!(rect.max(), (120, 40));
    assert_eq!(rect.shape(), (150, 45));
}

#[test]
fn geo_bounds_intersect_and_keep_the_left_crs() {
    let a = geo((0, 0), (100, 100));
    let b = GeoBounds::from(CrsGeometry::new(
        "EPSG:4326".to_string(),
        GeoRect::new((50, -20), (150, 60)),
    ));
    let common = a.intersection(&b).unwrap();
    assert_eq!(common.min(), (50, 0));
    assert_eq!(common.max(), (100, 60));
    assert_eq!(common.origin(), (50, 0));
    assert_eq!(common.width(), 50);
    assert_eq!(common.height(), 60);
    assert_eq!(common.crs(), "EPSG:32633");
}

#[test]
fn disjoint_geo_bounds_do_not_intersect() {
    let a = geo((0, 0), (100, 100));
    let b = geo((101, 0), (200, 100));
    assert_eq!(
        a.intersection(&b).unwrap_err(),
        RusterioError::NoIntersection(IntersectionError::NoIntersection)
    );
    let negative = geo((-50, -50), (-1, -1));
    assert!(a.intersection(&negative).is_err());
}

#[test]
fn crs_geometry_keeps_its_parts() {
    let geometry = CrsGeometry::new("EPSG:3857".to_string(), GeoRect::new((1, 2), (3, 4)));
    assert_eq!(geometry.crs(), "EPSG:3857");
    assert_eq!(geometry.geometry().min(), (1, 2));
    assert_eq!(geometry.geometry().max(), (3, 4));
}
