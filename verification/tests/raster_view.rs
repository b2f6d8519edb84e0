use std::rc::Rc;
use std::sync::Arc;

use rusterio::band::{BandInfo, BandReader};
use rusterio::bounds::{Bounds, GeoBounds, GeoRect, PixelBounds, ReadBounds, ViewBounds};
use rusterio::crs_geo::CrsGeometry;
use rusterio::errors::{IntersectionError, RusterioError};
use rusterio::file::File;
use rusterio::metadata::Metadata;
use rusterio::raster::band::RasterBand;
use rusterio::transforms::ReadGeoTransform;
use rusterio::view::band::ReadBand;
use rusterio::view::read::ReadPlan;
use rusterio::{Buffer, Indexes, Raster, SendSyncView, View};

#[derive(Debug)]
struct MemInfo {
    name: String,
}

impl BandInfo for MemInfo {
    fn name(&self) -> String {
        self.name.clone()
    }

    fn description(&self) -> Result<String, RusterioError> {
        Ok(format!("band {}", self.name))
    }

    fn metadata(&self) -> Result<Metadata, RusterioError> {
        let mut metadata = Metadata::new(self.name.clone());
        metadata.insert("BANDNAME".to_string(), self.name.clone());
        Ok(metadata)
    }
}

/// A band held in memory, row-major.
#[derive(Debug)]
struct MemBand {
    shape: (usize, usize),
    data: Vec<u16>,
    fails: bool,
    oversized: bool,
}

impl MemBand {
    fn new(shape: (usize, usize), base: u16) -> Self {
        let data = (0..shape.0 * shape.1).map(|i| base + i as u16).collect();
        MemBand { shape, data, fails: false, oversized: false }
    }
}

impl BandReader<u16> for MemBand {
    fn read_into_slice(&self, bounds: &ReadBounds, slice: &mut [u16]) -> Result<(), RusterioError> {
        if self.fails {
            return Err(RusterioError::GdalError("cannot read".to_string()));
        }
        let (x, y) = bounds.offset();
        let (width, height) = bounds.shape();
        if x + width > self.shape.0 || y + height > self.shape.1 {
            return Err(RusterioError::GdalError("window outside the band".to_string()));
        }
        for row in 0..height {
            for col in 0..width {
                slice[row * width + col] = self.data[(y + row) * self.shape.0 + x + col];
            }
        }
        Ok(())
    }

    fn read_to_buffer(&self, bounds: &ReadBounds) -> Result<Buffer<u16, 1>, RusterioError> {
        let size = bounds.size();
        let extra = if self.oversized { 1 } else { 0 };
        let mut buffer = Buffer::new([size + extra]);
        self.read_into_slice(bounds, &mut buffer.as_mut()[..size])?;
        Ok(buffer)
    }

    fn read_pixel(&self, offset: (usize, usize)) -> Result<u16, RusterioError> {
        if self.fails {
            return Err(RusterioError::GdalError("cannot read".to_string()));
        }
        if offset.0 >= self.shape.0 || offset.1 >= self.shape.1 {
            return Err(RusterioError::GdalError("pixel outside the band".to_string()));
        }
        Ok(self.data[offset.1 * self.shape.0 + offset.0])
    }
}

/// A file of one band group held in memory: north-up pixels of `pixel`
/// units whose top-left corner is the top-left corner of `extent`.
#[derive(Debug)]
struct MemFile {
    pixel: i64,
    extent: ((i64, i64), (i64, i64)),
    bases: Vec<u16>,
    singular: bool,
    south_up: bool,
    /// The answers that fail: "transform", "bounds", "description".
    failing: Vec<&'static str>,
}

impl MemFile {
    fn new(pixel: i64, extent: ((i64, i64), (i64, i64)), bases: &[u16]) -> Self {
        MemFile {
            pixel,
            extent,
            bases: bases.to_vec(),
            singular: false,
            south_up: false,
            failing: Vec::new(),
        }
    }

    fn shape(&self) -> (usize, usize) {
        (
            ((self.extent.1 .0 - self.extent.0 .0) / self.pixel) as usize,
            ((self.extent.1 .1 - self.extent.0 .1) / self.pixel) as usize,
        )
    }
}

impl File<u16, MemInfo, MemBand> for MemFile {
    fn open(path: &str) -> Result<Self, RusterioError> {
        Err(RusterioError::GdalError(format!("no file at {}", path)))
    }

    fn description(&self) -> Result<String, RusterioError> {
        if self.failing.contains(&"description") {
            return Err(RusterioError::GdalError("no description".to_string()));
        }
        Ok(format!("{} unit group", self.pixel))
    }

    fn geo_bounds(&self) -> Result<GeoBounds, RusterioError> {
        if self.failing.contains(&"bounds") {
            return Err(RusterioError::NoAreaOfUse);
        }
        Ok(geo(self.extent.0, self.extent.1))
    }

    fn transform(&self) -> Result<ReadGeoTransform, RusterioError> {
        if self.failing.contains(&"transform") {
            return Err(RusterioError::GdalError("no transform".to_string()));
        }
        let scale = if self.singular { 0 } else { self.pixel };
        if self.south_up {
            // row 0 is the southernmost
            return Ok(ReadGeoTransform::new(
                scale,
                0,
                self.extent.0 .0,
                0,
                scale,
                self.extent.0 .1,
                "EPSG:32633".to_string(),
            ));
        }
        Ok(ReadGeoTransform::new(
            scale,
            0,
            self.extent.0 .0,
            0,
            -scale,
            self.extent.1 .1,
            "EPSG:32633".to_string(),
        ))
    }

    fn num_bands(&self) -> usize {
        self.bases.len()
    }

    fn band(&self, index: usize) -> Result<RasterBand<u16, MemInfo, MemBand>, RusterioError> {
        let base = *self
            .bases
            .get(index)
            .ok_or_else(|| RusterioError::GdalError(format!("no band {}", index)))?;
        Ok(RasterBand::new(
            Rc::new(MemInfo { name: format!("B{}", base) }),
            Arc::new(MemBand::new(self.shape(), base)),
        ))
    }

    fn metadata(&self) -> Metadata {
        Metadata::new(format!("{} unit group", self.pixel))
    }
}

fn geo(min: (i64, i64), max: (i64, i64)) -> GeoBounds {
    GeoBounds::from(CrsGeometry::new("EPSG:32633".to_string(), GeoRect::new(min, max)))
}

const EXTENT: ((i64, i64), (i64, i64)) = ((0, 0), (120, 120));

fn raster(pixel: i64, bases: &[u16]) -> Raster<u16, MemInfo, MemBand> {
    Raster::new(&MemFile::new(pixel, EXTENT, bases), Indexes::all()).unwrap()
}

/// Bands of 12 x 12, 6 x 6 and 2 x 2 pixels over the same extent.
fn scene() -> Raster<u16, MemInfo, MemBand> {
    Raster::stack(vec![raster(10, &[1000]), raster(20, &[2000]), raster(60, &[3000])]).unwrap()
}

fn band_values(view: &View<u16, MemInfo, MemBand>) -> Vec<String> {
    view.view_bands().iter().map(|band| band.info.name()).collect()
}

#[test]
fn a_raster_of_a_file_has_the_selected_bands() {
    let file = MemFile::new(20, EXTENT, &[100, 200, 300]);
    let raster = Raster::new(&file, Indexes::from(([1], true))).unwrap();
    assert_eq!(raster.bounds().min(), (0, 0));
    assert_eq!(raster.bounds().max(), (120, 120));
    assert_eq!(raster.bounds().crs(), "EPSG:32633");
    let groups = raster.bands().groups();
    assert_eq!(groups.len(), 1);
    assert_eq!(groups[0].info.description, "20 unit group");
    assert_eq!(groups[0].info.metadata.description(), "20 unit group");
    let names: Vec<String> = raster.bands().iter().iter().map(|b| b.info.name()).collect();
    assert_eq!(names, vec!["B100", "B300"]);
}

#[test]
fn a_raster_of_a_file_with_a_singular_transform_fails() {
    let mut file = MemFile::new(20, EXTENT, &[100]);
    file.singular = true;
    match Raster::new(&file, Indexes::all()) {
        Err(RusterioError::NonInvertibleTransform) => {}
        _ => panic!("expected the error for a singular transform"),
    }
}

#[test]
fn a_raster_of_a_file_without_the_selected_band_fails() {
    let file = MemFile::new(20, EXTENT, &[100]);
    match Raster::new(&file, Indexes::from([3])) {
        Err(RusterioError::GdalError(message)) => assert_eq!(message, "no band 3"),
        _ => panic!("expected the file's error"),
    }
}

#[test]
fn stacking_keeps_the_groups_in_order() {
    let stacked = Raster::stack(vec![raster(10, &[1, 2]), raster(60, &[3]), raster(20, &[4, 5])])
        .unwrap();
    let descriptions: Vec<String> = stacked
        .bands()
        .groups()
        .iter()
        .map(|group| group.info.description.clone())
        .collect();
    assert_eq!(descriptions, vec!["10 unit group", "60 unit group", "20 unit group"]);
    let names: Vec<String> = stacked.bands().iter().iter().map(|b| b.info.name()).collect();
    assert_eq!(names, vec!["B1", "B2", "B3", "B4", "B5"]);
    let pairs = stacked.bands().group_band();
    assert_eq!(pairs.len(), 5);
    assert_eq!(pairs[2].0.description, "60 unit group");
    assert_eq!(pairs[4].0.description, "20 unit group");
    assert_eq!(pairs[4].1.info.name(), "B5");
}

#[test]
fn stacking_one_raster_gives_it_back() {
    let stacked = Raster::stack(vec![raster(20, &[1])]).unwrap();
    assert_eq!(stacked.bounds().min(), (0, 0));
    assert_eq!(stacked.bounds().max(), (120, 120));
    assert_eq!(stacked.bands().groups().len(), 1);
}

#[test]
fn stacking_rasters_with_disjoint_extents_fails() {
    let left = Raster::new(&MemFile::new(10, ((0, 0), (100, 100)), &[1]), Indexes::all()).unwrap();
    let right =
        Raster::new(&MemFile::new(10, ((200, 0), (300, 100)), &[2]), Indexes::all()).unwrap();
    match Raster::stack(vec![left, right]) {
        Err(RusterioError::NoIntersection(IntersectionError::NoIntersection)) => {}
        _ => panic!("expected no intersection"),
    }
}

#[test]
fn stacking_fails_as_soon_as_an_extent_lies_apart() {
    let a = Raster::new(&MemFile::new(10, ((0, 0), (100, 100)), &[1]), Indexes::all()).unwrap();
    let b = Raster::new(&MemFile::new(10, ((50, 50), (150, 150)), &[2]), Indexes::all()).unwrap();
    let c = Raster::new(&MemFile::new(10, ((0, 0), (40, 40)), &[3]), Indexes::all()).unwrap();
    assert!(Raster::stack(vec![a, b, c]).is_err());
}

#[test]
fn stacking_rasters_that_overlap_in_part_gives_their_common_extent() {
    let a = Raster::new(&MemFile::new(10, ((0, 0), (120, 120)), &[1]), Indexes::all()).unwrap();
    let b = Raster::new(&MemFile::new(20, ((60, 40), (180, 160)), &[2]), Indexes::all()).unwrap();
    let stacked = Raster::stack(vec![a, b]).unwrap();
    assert_eq!(stacked.bounds().min(), (60, 40));
    assert_eq!(stacked.bounds().max(), (120, 120));
    assert_eq!(stacked.bounds().crs(), "EPSG:32633");
    assert_eq!(stacked.bands().groups().len(), 2);
}

#[test]
fn three_resolutions_share_a_view_of_the_finest_grid() {
    let view = scene().view(None, Indexes::from([0, 1, 2])).unwrap();
    assert_eq!(view.array_shape(), [3, 12, 12]);
    assert_eq!(view.bounds_shape(), (12, 12));
    assert_eq!(view.view_bounds().offset(), (0, 0));
    let ratios: Vec<(usize, usize)> =
        view.view_bands().iter().map(|band| band.transform.ratio()).collect();
    assert_eq!(ratios, vec![(1, 1), (2, 2), (6, 6)]);
    assert_eq!(band_values(&view), vec!["B1000", "B2000", "B3000"]);
}

#[test]
fn reading_three_resolutions_replicates_each_pixel_into_its_block() {
    let view = scene().view(None, Indexes::from([0, 1, 2])).unwrap();
    let buffer = view.read().unwrap();
    assert_eq!(buffer.shape(), [3, 12, 12]);
    assert_eq!(buffer.len(), 3 * 12 * 12);
    let data = buffer.as_slice();
    for row in 0..12 {
        for col in 0..12 {
            let at = row * 12 + col;
            assert_eq!(data[at], 1000 + (row * 12 + col) as u16);
            assert_eq!(data[144 + at], 2000 + ((row / 2) * 6 + col / 2) as u16);
            assert_eq!(data[288 + at], 3000 + ((row / 6) * 2 + col / 6) as u16);
        }
    }
}

#[test]
fn reading_a_clipped_view_cuts_the_blocks_at_the_edges() {
    let view = scene().view(None, Indexes::from([2, 0, 1])).unwrap();
    let clipped = view.clip(ViewBounds::new((3, 1), (7, 4))).unwrap();
    assert_eq!(clipped.array_shape(), [3, 4, 7]);
    let buffer = clipped.read().unwrap();
    let data = buffer.as_slice();
    for row in 0..4 {
        for col in 0..7 {
            let (x, y) = (3 + col, 1 + row);
            let at = row * 7 + col;
            assert_eq!(data[at], 3000 + ((y / 6) * 2 + x / 6) as u16);
            assert_eq!(data[28 + at], 1000 + (y * 12 + x) as u16);
            assert_eq!(data[56 + at], 2000 + ((y / 2) * 6 + x / 2) as u16);
        }
    }
}

#[test]
fn a_single_band_is_read_as_it_is_stored() {
    let raster = raster(20, &[500]);
    let view = raster.view(None, Indexes::all()).unwrap();
    assert_eq!(view.array_shape(), [1, 6, 6]);
    assert_eq!(view.view_bands()[0].transform.ratio(), (1, 1));
    let reader = Arc::clone(&view.view_bands()[0].reader);
    let window = ViewBounds::new((1, 2), (4, 3));
    let buffer = view.clip(window).unwrap().read().unwrap();
    let mut direct = vec![0u16; 12];
    reader.read_into_slice(&ReadBounds::new((1, 2), (4, 3)), &mut direct).unwrap();
    assert_eq!(buffer.as_slice(), &direct[..]);
    let full = view.read().unwrap();
    let expected: Vec<u16> = (0..36).map(|i| 500 + i).collect();
    assert_eq!(full.as_slice(), &expected[..]);
}

#[test]
fn a_region_smaller_than_a_pixel_is_filled_with_that_pixel() {
    let raster = raster(60, &[3000]);
    let view = raster.view(Some(geo((70, 10), (80, 20))), Indexes::all()).unwrap();
    assert_eq!(view.array_shape(), [1, 1, 1]);
    let buffer = view.read().unwrap();
    // the region lies in the pixel of column 1 and row 1
    assert_eq!(buffer.as_slice(), &[3003]);
}

#[test]
fn a_coarse_pixel_under_the_whole_view_fills_its_band() {
    let view = scene().view(Some(geo((60, 60), (120, 120))), Indexes::from([0, 2])).unwrap();
    assert_eq!(view.array_shape(), [2, 6, 6]);
    let buffer = view.read().unwrap();
    let data = buffer.as_slice();
    for row in 0..6 {
        for col in 0..6 {
            assert_eq!(data[row * 6 + col], 1000 + (row * 12 + 6 + col) as u16);
        }
    }
    assert_eq!(&data[36..], &[3001u16; 36][..]);
}

#[test]
fn a_window_inside_one_coarse_pixel_fills_its_band() {
    let view = scene().view(None, Indexes::from([2, 1])).unwrap();
    assert_eq!(view.array_shape(), [2, 6, 6]);
    let clipped = view.clip(ViewBounds::new((3, 3), (3, 2))).unwrap();
    let buffer = clipped.read().unwrap();
    let data = buffer.as_slice();
    assert_eq!(&data[..6], &[3003u16; 6][..]);
    assert_eq!(&data[6..], &[2000 + 3 * 6 + 3, 2022, 2023, 2027, 2028, 2029]);
}

#[test]
fn a_view_over_a_region_starts_at_the_region() {
    let view = scene().view(Some(geo((40, 0), (200, 80))), Indexes::from([1])).unwrap();
    // columns 2..6 and rows 2..6 of the 6 x 6 band
    assert_eq!(view.array_shape(), [1, 4, 4]);
    assert_eq!(view.view_bands()[0].transform.origin(), (2, 2));
    let buffer = view.read().unwrap();
    let expected: Vec<u16> =
        (2..6).flat_map(|row| (2..6).map(move |col| 2000 + row * 6 + col)).collect();
    assert_eq!(buffer.as_slice(), &expected[..]);
}

#[test]
fn a_view_outside_the_raster_fails() {
    match scene().view(Some(geo((200, 200), (300, 300))), Indexes::all()) {
        Err(RusterioError::NoIntersection(IntersectionError::NoIntersection)) => {}
        _ => panic!("expected no intersection"),
    }
}

#[test]
fn a_view_of_a_region_without_area_fails() {
    match scene().view(Some(geo((120, 0), (200, 120))), Indexes::all()) {
        Err(RusterioError::Uncastable) => {}
        _ => panic!("expected the cast error"),
    }
}

#[test]
fn bands_that_do_not_line_up_over_a_region_are_refused() {
    // the 10 unit band covers 0..40, the 60 unit band 0..60
    match scene().view(Some(geo((5, 80), (35, 115))), Indexes::from([0, 2])) {
        Err(RusterioError::Uncastable) => {}
        _ => panic!("expected the cast error"),
    }
    // each band alone has a view of the region
    let fine = scene().view(Some(geo((5, 80), (35, 115))), Indexes::from([0])).unwrap();
    assert_eq!(fine.array_shape(), [1, 4, 4]);
    let coarse = scene().view(Some(geo((5, 80), (35, 115))), Indexes::from([2])).unwrap();
    assert_eq!(coarse.array_shape(), [1, 1, 1]);
    // and so have both where the region lies on the coarse grid
    let both = scene().view(Some(geo((3, 60), (57, 118))), Indexes::from([0, 2])).unwrap();
    assert_eq!(both.array_shape(), [2, 6, 6]);
}

#[test]
fn resolutions_that_are_no_multiples_need_a_region_that_fits_both() {
    let fine = Raster::new(&MemFile::new(10, EXTENT, &[1]), Indexes::all()).unwrap();
    let odd = Raster::new(&MemFile::new(15, EXTENT, &[2]), Indexes::all()).unwrap();
    let stacked = Raster::stack(vec![fine, odd]).unwrap();
    let view = stacked.view(None, Indexes::all()).unwrap();
    assert_eq!(view.array_shape(), [2, 24, 24]);
    let ratios: Vec<(usize, usize)> =
        view.view_bands().iter().map(|band| band.transform.ratio()).collect();
    assert_eq!(ratios, vec![(2, 2), (3, 3)]);
    // 0..100 is ten pixels of the one and six and two thirds of the other
    match stacked.view(Some(geo((0, 20), (100, 120))), Indexes::all()) {
        Err(RusterioError::Uncastable) => {}
        _ => panic!("expected the cast error"),
    }
    let view = stacked.view(Some(geo((0, 30), (90, 120))), Indexes::all()).unwrap();
    assert_eq!(view.array_shape(), [2, 18, 18]);
}

#[test]
fn clipping_a_view_to_its_own_bounds_keeps_the_bounds() {
    let view = scene().view(None, Indexes::all()).unwrap();
    let own = *view.view_bounds();
    let clipped = view.clip(own).unwrap();
    assert_eq!(*clipped.view_bounds(), own);
    assert_eq!(clipped.array_shape(), view.array_shape());
    let window = clipped.clip(ViewBounds::new((2, 3), (4, 5))).unwrap();
    let again = window.clip(*window.view_bounds()).unwrap();
    assert_eq!(*again.view_bounds(), *window.view_bounds());
    assert_eq!(again.view_bounds().offset(), (2, 3));
    assert_eq!(again.bounds_shape(), (4, 5));
}

#[test]
fn clipping_a_view_outside_its_bounds_fails() {
    let view = scene().view(None, Indexes::all()).unwrap();
    match view.clip(ViewBounds::new((13, 0), (2, 2))) {
        Err(RusterioError::NoIntersection(IntersectionError::NoIntersection)) => {}
        _ => panic!("expected no intersection"),
    }
    let partly = view.clip(ViewBounds::new((10, 10), (5, 5))).unwrap();
    assert_eq!(partly.view_bounds().offset(), (10, 10));
    assert_eq!(partly.bounds_shape(), (2, 2));
}

#[test]
fn an_empty_window_reads_an_empty_buffer() {
    let view = scene().view(None, Indexes::all()).unwrap();
    let edge = view.clip(ViewBounds::new((12, 0), (3, 3))).unwrap();
    assert_eq!(edge.array_shape(), [3, 3, 0]);
    let buffer = edge.read().unwrap();
    assert_eq!(buffer.len(), 0);
    assert_eq!(buffer.shape(), [3, 3, 0]);
}

#[test]
fn a_view_of_no_band_reads_an_empty_buffer() {
    let view: SendSyncView<u16, MemBand> =
        SendSyncView::new(ViewBounds::new((0, 0), (3, 2)), Vec::new());
    assert_eq!(view.array_shape(), [0, 2, 3]);
    assert_eq!(view.read().unwrap().len(), 0);
}

#[test]
fn a_view_outside_the_raster_fails_whatever_the_selection() {
    match scene().view(Some(geo((200, 200), (300, 300))), Indexes::from([7, 8])) {
        Err(RusterioError::NoIntersection(IntersectionError::NoIntersection)) => {}
        _ => panic!("expected no intersection"),
    }
    match scene().view(Some(geo((200, 200), (300, 300))), Indexes::from([])) {
        Err(RusterioError::NoIntersection(IntersectionError::NoIntersection)) => {}
        _ => panic!("expected no intersection"),
    }
}

#[test]
fn a_band_that_runs_against_the_others_is_read_mirrored() {
    let north = raster(10, &[1000]);
    let mut file = MemFile::new(20, EXTENT, &[2000]);
    file.south_up = true;
    let south = Raster::new(&file, Indexes::all()).unwrap();
    let stacked = Raster::stack(vec![north, south]).unwrap();
    // the bands do not agree: the view is laid north-up
    let view = stacked.view(None, Indexes::all()).unwrap();
    assert_eq!(view.orientation(), (false, false));
    assert_eq!(view.array_shape(), [2, 12, 12]);
    assert_eq!(view.view_bands()[0].transform.mirrored(), (false, false));
    let band = &view.view_bands()[1];
    assert_eq!(band.transform.ratio(), (2, 2));
    assert_eq!(band.transform.mirrored(), (false, true));
    assert_eq!(band.transform.origin(), (0, 6));
    let buffer = view.clone().read().unwrap();
    let data = buffer.as_slice();
    for row in 0..12 {
        for col in 0..12 {
            let at = row * 12 + col;
            assert_eq!(data[at], 1000 + (row * 12 + col) as u16);
            // the top row of the view is the last row of the band
            assert_eq!(data[144 + at], 2000 + ((5 - row / 2) * 6 + col / 2) as u16);
        }
    }
    let clipped = view.clip(ViewBounds::new((3, 1), (7, 4))).unwrap();
    let buffer = clipped.read().unwrap();
    let data = buffer.as_slice();
    for row in 0..4 {
        for col in 0..7 {
            let (x, y) = (3 + col, 1 + row);
            assert_eq!(data[28 + row * 7 + col], 2000 + ((5 - y / 2) * 6 + x / 2) as u16);
        }
    }
}

#[test]
fn a_single_band_whose_rows_run_north_is_read_as_it_is_stored() {
    let mut file = MemFile::new(20, EXTENT, &[2000]);
    file.south_up = true;
    let raster = Raster::new(&file, Indexes::all()).unwrap();
    let view = raster.view(None, Indexes::all()).unwrap();
    assert_eq!(view.array_shape(), [1, 6, 6]);
    assert_eq!(view.orientation(), (false, true));
    assert_eq!(view.view_bands()[0].transform.mirrored(), (false, false));
    assert_eq!(view.view_bands()[0].transform.origin(), (0, 0));
    let reader = Arc::clone(&view.view_bands()[0].reader);
    let full = view.clone().read().unwrap();
    let expected: Vec<u16> = (0..36).map(|i| 2000 + i).collect();
    assert_eq!(full.as_slice(), &expected[..]);
    let window = ViewBounds::new((1, 2), (4, 3));
    let buffer = view.clip(window).unwrap().read().unwrap();
    let mut direct = vec![0u16; 12];
    reader.read_into_slice(&ReadBounds::new((1, 2), (4, 3)), &mut direct).unwrap();
    assert_eq!(buffer.as_slice(), &direct[..]);
    // over a region: rows 2..6 of the band, columns 0..3, in the band's order
    let view = raster.view(Some(geo((0, 40), (60, 120))), Indexes::all()).unwrap();
    assert_eq!(view.array_shape(), [1, 4, 3]);
    let buffer = view.read().unwrap();
    let expected: Vec<u16> =
        (2..6u16).flat_map(|row| (0..3).map(move |col| 2000 + row * 6 + col)).collect();
    assert_eq!(buffer.as_slice(), &expected[..]);
}

#[test]
fn bands_that_all_run_north_are_read_as_they_are_stored() {
    let mut fine = MemFile::new(10, EXTENT, &[1000]);
    fine.south_up = true;
    let mut coarse = MemFile::new(20, EXTENT, &[2000]);
    coarse.south_up = true;
    let stacked = Raster::stack(vec![
        Raster::new(&fine, Indexes::all()).unwrap(),
        Raster::new(&coarse, Indexes::all()).unwrap(),
    ])
    .unwrap();
    let view = stacked.view(None, Indexes::all()).unwrap();
    assert_eq!(view.array_shape(), [2, 12, 12]);
    for band in view.view_bands() {
        assert_eq!(band.transform.mirrored(), (false, false));
    }
    let buffer = view.read().unwrap();
    let data = buffer.as_slice();
    for row in 0..12 {
        for col in 0..12 {
            let at = row * 12 + col;
            assert_eq!(data[at], 1000 + (row * 12 + col) as u16);
            assert_eq!(data[144 + at], 2000 + ((row / 2) * 6 + col / 2) as u16);
        }
    }
}

fn read_band(band: MemBand, ratio: (usize, usize)) -> ReadBand<u16, MemBand> {
    ReadBand {
        transform: rusterio::transforms::ViewReadTransform::from_ratio(ratio, (0, 0)),
        reader: Arc::new(band),
        pixel: std::marker::PhantomData,
    }
}

#[test]
fn the_plan_of_a_band_follows_the_shape_of_its_window() {
    let band = read_band(MemBand::new((2, 2), 0), (6, 6));
    match band.plan(&ViewBounds::new((6, 6), (5, 4))).unwrap() {
        ReadPlan::Pixel { offset } => assert_eq!(offset, (1, 1)),
        _ => panic!("expected a single pixel"),
    }
    match band.plan(&ViewBounds::new((0, 0), (12, 12))).unwrap() {
        ReadPlan::Chunked { read_bounds, .. } => {
            assert_eq!(read_bounds.offset(), (0, 0));
            assert_eq!(read_bounds.shape(), (2, 2));
        }
        _ => panic!("expected a chunked read"),
    }
    let unit = read_band(MemBand::new((12, 12), 0), (1, 1));
    match unit.plan(&ViewBounds::new((2, 3), (4, 5))).unwrap() {
        ReadPlan::Direct { read_bounds } => {
            assert_eq!(read_bounds.offset(), (2, 3));
            assert_eq!(read_bounds.shape(), (4, 5));
        }
        _ => panic!("expected a direct read"),
    }
    match unit.plan(&ViewBounds::new((2, 3), (1, 1))).unwrap() {
        ReadPlan::Pixel { offset } => assert_eq!(offset, (2, 3)),
        _ => panic!("expected a single pixel"),
    }
}

#[test]
fn a_failing_band_fails_the_whole_read() {
    let good = read_band(MemBand::new((12, 12), 7), (1, 1));
    let mut broken = MemBand::new((6, 6), 9);
    broken.fails = true;
    let bad = read_band(broken, (2, 2));
    let last = read_band(MemBand::new((12, 12), 11), (1, 1));
    let view = SendSyncView::new(ViewBounds::new((0, 0), (12, 12)), vec![good, bad, last]);
    match view.read() {
        Err(RusterioError::GdalError(message)) => assert_eq!(message, "cannot read"),
        _ => panic!("expected the reader's error"),
    }
}

#[test]
fn a_band_too_small_for_its_window_fails_the_read() {
    let small = read_band(MemBand::new((3, 3), 0), (2, 2));
    let view = SendSyncView::new(ViewBounds::new((0, 0), (12, 12)), vec![small]);
    match view.read() {
        Err(RusterioError::GdalError(message)) => assert_eq!(message, "window outside the band"),
        _ => panic!("expected the reader's error"),
    }
}

#[test]
fn a_reader_with_a_buffer_of_the_wrong_size_fails_the_read() {
    let mut band = MemBand::new((6, 6), 0);
    band.oversized = true;
    let view = SendSyncView::new(ViewBounds::new((0, 0), (12, 12)), vec![read_band(band, (2, 2))]);
    assert!(matches!(view.read(), Err(RusterioError::GdalError(_))));
}

#[test]
fn a_window_beyond_the_pixel_range_fails_the_read() {
    let band = ReadBand {
        transform: rusterio::transforms::ViewReadTransform::from_ratio((1, 1), (usize::MAX, 0)),
        reader: Arc::new(MemBand::new((2, 2), 0)),
        pixel: std::marker::PhantomData,
    };
    let view = SendSyncView::new(ViewBounds::new((0, 0), (2, 2)), vec![band]);
    assert!(matches!(view.read(), Err(RusterioError::Uncastable)));
}

#[test]
fn a_shared_view_reads_what_the_view_reads() {
    let view = scene().view(None, Indexes::from([1, 2])).unwrap();
    let window = ViewBounds::new((1, 1), (4, 3));
    let expected = view.clip(window).unwrap().read().unwrap();
    let shared = view.to_send_sync();
    assert_eq!(shared.array_shape(), [2, 6, 6]);
    assert_eq!(shared.bounds_shape(), (6, 6));
    assert_eq!(shared.bands().len(), 2);
    let clipped = shared.clip(window).unwrap();
    assert_eq!(clipped.bounds().offset(), (1, 1));
    let buffer = clipped.read().unwrap();
    assert_eq!(buffer.as_slice(), expected.as_slice());
    assert_eq!(buffer.shape(), [2, 3, 4]);
    let mut band_buff = vec![0u16; 12];
    clipped.bands()[0].read_into(clipped.bounds(), &mut band_buff).unwrap();
    assert_eq!(&band_buff[..], &buffer.as_slice()[..12]);
}

#[test]
fn band_information_is_shared_with_the_view() {
    let raster = raster(10, &[1, 2, 3]);
    let view = raster.view(None, Indexes::from(([0], true))).unwrap();
    assert_eq!(band_values(&view), vec!["B2", "B3"]);
    let band = &view.view_bands()[1];
    assert_eq!(band.info.description().unwrap(), "band B3");
    assert_eq!(band.info.metadata().unwrap().get("BANDNAME").unwrap(), "B3");
    let copy = raster.bands().iter()[2].share();
    assert!(Rc::ptr_eq(&copy.info, &band.info));
    assert!(Arc::ptr_eq(&copy.reader, &band.reader));
}

#[test]
fn a_failure_of_the_file_is_handed_on_as_it_is() {
    let mut file = MemFile::new(20, EXTENT, &[100]);
    file.failing = vec!["transform"];
    match Raster::new(&file, Indexes::all()) {
        Err(e) => assert_eq!(e, RusterioError::GdalError("no transform".to_string())),
        Ok(_) => panic!("expected the file's error"),
    }
    file.failing = vec!["bounds"];
    match Raster::new(&file, Indexes::all()) {
        Err(e) => assert_eq!(e, RusterioError::NoAreaOfUse),
        Ok(_) => panic!("expected the file's error"),
    }
    file.failing = vec!["description"];
    match Raster::new(&file, Indexes::all()) {
        Err(e) => assert_eq!(e, RusterioError::GdalError("no description".to_string())),
        Ok(_) => panic!("expected the file's error"),
    }
}

#[test]
fn the_first_failure_of_the_file_is_the_one_handed_on() {
    let mut file = MemFile::new(20, EXTENT, &[100]);
    file.failing = vec!["description", "bounds", "transform"];
    match Raster::new(&file, Indexes::from([5])) {
        Err(e) => assert_eq!(e, RusterioError::GdalError("no transform".to_string())),
        Ok(_) => panic!("expected the file's error"),
    }
    file.failing = vec!["description", "bounds"];
    match Raster::new(&file, Indexes::from([5])) {
        Err(e) => assert_eq!(e, RusterioError::NoAreaOfUse),
        Ok(_) => panic!("expected the file's error"),
    }
    file.failing = vec!["description"];
    match Raster::new(&file, Indexes::from([5])) {
        Err(e) => assert_eq!(e, RusterioError::GdalError("no description".to_string())),
        Ok(_) => panic!("expected the file's error"),
    }
    file.failing = Vec::new();
    file.singular = true;
    match Raster::new(&file, Indexes::from([5, 0])) {
        Err(e) => assert_eq!(e, RusterioError::GdalError("no band 5".to_string())),
        Ok(_) => panic!("expected the file's error"),
    }
}

#[test]
fn the_first_failing_band_ends_the_read_with_its_error() {
    let good = read_band(MemBand::new((12, 12), 7), (1, 1));
    let small = read_band(MemBand::new((3, 3), 0), (2, 2));
    let mut broken = MemBand::new((6, 6), 9);
    broken.fails = true;
    let bad = read_band(broken, (2, 2));
    let view = SendSyncView::new(ViewBounds::new((0, 0), (12, 12)), vec![good, small, bad]);
    assert_eq!(
        view.read().unwrap_err(),
        RusterioError::GdalError("window outside the band".to_string())
    );
}
