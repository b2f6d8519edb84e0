//! A file, its bands and their information held in memory.
use vstd::prelude::*;
use vstd::arithmetic::div_mod::lemma_fundamental_div_mod;
use crate::band::{window_pixels, BandInfo, BandReader};
use crate::file::File;
use crate::raster::band::RasterBand;
use crate::transforms::{Affine, ReadGeoTransform};
use crate::bounds::GeoBounds;
use crate::metadata::Metadata;
use crate::bounds::{Bounds, PixelBounds, ReadBounds};
use crate::errors::RusterioError;
use crate::geometry::Rect;
use crate::DataType;

verus! {

/// A band of `shape.0` columns and `shape.1` rows whose pixels are held in a
/// vector, row after row. Its reader is faithful: it hands out those
/// pixels, and fails only for what lies outside the band.
#[derive(Debug)]
pub struct MemoryBand<T: DataType> {
    shape: (usize, usize),
    data: Vec<T>,
}

impl<T: DataType> MemoryBand<T> {
    #[verifier::type_invariant]
    spec fn inv(&self) -> bool {
        self.data@.len() == self.shape.0 * self.shape.1
    }

    /// `(width, height)` of the band.
    pub closed spec fn spec_shape(&self) -> (int, int) {
        (self.shape.0 as int, self.shape.1 as int)
    }

    /// The pixels of the band, row after row.
    pub closed spec fn spec_data(&self) -> Seq<T> {
        self.data@
    }

    /// The band of the given shape with the pixels `data`, row after row, or
    /// the cast error where `data` has not as many pixels as the shape.
    pub fn new(shape: (usize, usize), data: Vec<T>) -> (r: Result<Self, RusterioError>)
        ensures
            data@.len() == shape.0 * shape.1 ==> r is Ok && r->Ok_0.spec_shape() == (
                shape.0 as int,
                shape.1 as int,
            ) && r->Ok_0.spec_data() == data@,
            data@.len() != shape.0 * shape.1 ==> r == Err::<Self, RusterioError>(
                RusterioError::Uncastable,
            ),
    {
        let len = data.len();
        match shape.0.checked_mul(shape.1) {
            Some(size) => {
                if len == size {
                    Ok(MemoryBand { shape, data })
                } else {
                    Err(RusterioError::Uncastable)
                }
            },
            None => Err(RusterioError::Uncastable),
        }
    }

    /// `(width, height)` of the band.
    pub fn shape(&self) -> (r: (usize, usize))
        ensures
            r.0 == self.spec_shape().0,
            r.1 == self.spec_shape().1,
            self.spec_data().len() == self.spec_shape().0 * self.spec_shape().1,
    {
        proof {
            use_type_invariant(self);
        }
        self.shape
    }

    /// Whether the window `bounds` lies in the band.
    fn contains(&self, bounds: &ReadBounds) -> (r: bool)
        ensures
            r == self.holds(bounds@),
            bounds@.wf(),
            0 <= bounds@.min_x,
            0 <= bounds@.min_y,
    {
        let max = bounds.max();
        let min = bounds.min();
        max.0 <= self.shape.0 && max.1 <= self.shape.1
    }
}

/// The words that are reported of a window or a pixel that lies outside a
/// band.
pub open spec fn outside_text() -> Seq<char> {
    "the window lies outside the band"@
}

/// The error of a read that asks for what lies outside a band: the
/// backend's error, with the words of `outside_text`.
pub open spec fn is_outside_error(e: RusterioError) -> bool {
    e matches RusterioError::GdalError(message) && message@ == outside_text()
}

/// What is reported of a window or a pixel that lies outside a band.
fn outside_message() -> (r: String)
    ensures
        r@ == outside_text(),
{
    "the window lies outside the band".to_owned()
}

impl<T: DataType> BandReader<T> for MemoryBand<T> {
    open spec fn faithful(&self) -> bool {
        true
    }

    /// The window `window` lies in the band.
    open spec fn holds(&self, window: Rect) -> bool {
        window.max_x <= self.spec_shape().0 && window.max_y <= self.spec_shape().1
    }

    /// A window that does not lie in the band gives the backend's error,
    /// with the words of `outside_text`.
    open spec fn fails_with(&self, window: Rect, error: RusterioError) -> bool {
        is_outside_error(error)
    }

    /// The pixel of the band at `(x, y)`, and zero outside the band.
    open spec fn pixel(&self, x: int, y: int) -> T {
        if 0 <= x < self.spec_shape().0 && 0 <= y < self.spec_shape().1 {
            self.spec_data()[y * self.spec_shape().0 + x]
        } else {
            T::zero_value()
        }
    }

    /// Copies the window out of the band. It fails, with the backend's
    /// error, exactly where the window does not lie in the band.
    fn read_into_slice(&self, bounds: &ReadBounds, slice: &mut [T]) -> (r: Result<
        (),
        RusterioError,
    >)
        ensures
            r is Ok <==> self.holds(bounds@),
            r matches Err(e) ==> is_outside_error(e),
    {
        proof {
            use_type_invariant(self);
        }
        if !self.contains(bounds) {
            return Err(RusterioError::GdalError(outside_message()));
        }
        let (x, y) = bounds.offset();
        let (width, height) = bounds.shape();
        let len = slice.len();
        let total = self.data.len();
        let ghost window = window_pixels(|x: int, y: int| self.pixel(x, y), bounds@);
        let mut p: usize = 0;
        while p < len
            invariant
                p <= len,
                total == self.data@.len(),
                len == slice@.len(),
                len == width * height,
                len == bounds@.area(),
                width == bounds@.width(),
                height == bounds@.height(),
                x == bounds@.min_x,
                y == bounds@.min_y,
                x + width <= self.shape.0,
                y + height <= self.shape.1,
                self.data@.len() == self.shape.0 * self.shape.1,
                window == window_pixels(|x: int, y: int| self.pixel(x, y), bounds@),
                forall|q: int| 0 <= q < p ==> slice@[q] == window[q],
            decreases len - p,
        {
            assert(width > 0) by (nonlinear_arith)
                requires
                    p < width * height,
                    width >= 0,
            ;
            let row = p / width;
            let col = p % width;
            proof {
                lemma_fundamental_div_mod(p as int, width as int);
                assert(row < height) by (nonlinear_arith)
                    requires
                        p == width * row + col,
                        0 <= col < width,
                        p < width * height,
                ;
                let w = self.shape.0 as int;
                let h = self.shape.1 as int;
                assert((y + row) * w + x + col < w * h) by (nonlinear_arith)
                    requires
                        y + row + 1 <= h,
                        x + col < w,
                        0 <= x + col,
                        0 <= y + row,
                ;
                assert(0 <= (y + row) * w) by (nonlinear_arith)
                    requires
                        0 <= y + row,
                        0 <= w,
                ;
            }
            slice[p] = self.data[(y + row) * self.shape.0 + x + col];
            p = p + 1;
        }
        assert(slice@ =~= window);
        Ok(())
    }

    /// The pixel at `offset`. It fails, with the backend's error, exactly
    /// where the pixel does not lie in the band.
    fn read_pixel(&self, offset: (usize, usize)) -> (r: Result<T, RusterioError>)
        ensures
            r is Ok <==> offset.0 < self.spec_shape().0 && offset.1 < self.spec_shape().1,
            r matches Err(e) ==> is_outside_error(e),
    {
        proof {
            use_type_invariant(self);
        }
        let total = self.data.len();
        if offset.0 < self.shape.0 && offset.1 < self.shape.1 {
            proof {
                let w = self.shape.0 as int;
                let h = self.shape.1 as int;
                assert(offset.1 * w + offset.0 < w * h) by (nonlinear_arith)
                    requires
                        offset.1 + 1 <= h,
                        0 <= offset.0 < w,
                        0 <= offset.1,
                ;
                assert(0 <= offset.1 * w) by (nonlinear_arith)
                    requires
                        0 <= offset.1,
                        0 <= w,
                ;
            }
            Ok(self.data[offset.1 * self.shape.0 + offset.0])
        } else {
            Err(RusterioError::GdalError(outside_message()))
        }
    }
}

/// The information of a band that is kept in memory: a name and a
/// description. Its metadata have no entry.
#[derive(Debug)]
pub struct MemoryInfo {
    name: String,
    description: String,
}

impl MemoryInfo {
    pub closed spec fn spec_name(&self) -> Seq<char> {
        self.name@
    }

    pub closed spec fn spec_description(&self) -> Seq<char> {
        self.description@
    }

    pub fn new(name: String, description: String) -> (r: Self)
        ensures
            r.spec_name() == name@,
            r.spec_description() == description@,
    {
        MemoryInfo { name, description }
    }
}

impl BandInfo for MemoryInfo {
    fn name(&self) -> (r: String)
        ensures
            r@ == self.spec_name(),
    {
        self.name.clone()
    }

    fn description(&self) -> (r: Result<String, RusterioError>)
        ensures
            r matches Ok(description) && description@ == self.spec_description(),
    {
        Ok(self.description.clone())
    }

    /// Metadata without any entry, under the band's description.
    fn metadata(&self) -> (r: Result<Metadata, RusterioError>)
        ensures
            r matches Ok(metadata) && metadata@ == Map::<Seq<char>, Seq<char>>::empty()
                && metadata.spec_description() == self.spec_description(),
    {
        Ok(Metadata::new(self.description.clone()))
    }
}

/// The words that are reported of a band that a file in memory does not
/// have.
pub open spec fn missing_text() -> Seq<char> {
    "the file has no band at that position"@
}

/// A file of one band group that is held in memory. It declares its
/// answers: they are what it was made of, and the only failure is that to
/// give a band that it has not.
#[derive(Debug)]
pub struct MemoryFile<T: DataType> {
    description: String,
    bounds: GeoBounds,
    transform: ReadGeoTransform,
    bands: Vec<RasterBand<T, MemoryInfo, MemoryBand<T>>>,
    missing: String,
}

impl<T: DataType> MemoryFile<T> {
    pub closed spec fn spec_description(&self) -> Seq<char> {
        self.description@
    }

    /// The extent and the identifier of its reference system.
    pub closed spec fn spec_bounds(&self) -> (Rect, Seq<char>) {
        (self.bounds@, self.bounds.spec_crs())
    }

    /// The pixel-to-geographic map and the identifier of its reference
    /// system.
    pub closed spec fn spec_transform(&self) -> (Affine, Seq<char>) {
        (self.transform@, self.transform.spec_crs())
    }

    pub closed spec fn spec_bands(&self) -> Seq<RasterBand<T, MemoryInfo, MemoryBand<T>>> {
        self.bands@
    }

    /// The error that is given for a band that the file has not: the
    /// backend's error, with the words of `missing_text`.
    pub closed spec fn spec_missing(&self) -> RusterioError {
        RusterioError::GdalError(self.missing)
    }

    #[verifier::type_invariant]
    spec fn inv(&self) -> bool {
        self.missing@ == missing_text()
    }

    /// The file with the given description, extent, transform and bands.
    pub fn new(
        description: String,
        bounds: GeoBounds,
        transform: ReadGeoTransform,
        bands: Vec<RasterBand<T, MemoryInfo, MemoryBand<T>>>,
    ) -> (r: Self)
        ensures
            r.spec_description() == description@,
            r.spec_bounds() == (bounds@, bounds.spec_crs()),
            r.spec_transform() == (transform@, transform.spec_crs()),
            r.spec_bands() == bands@,
            r.spec_missing() matches RusterioError::GdalError(message) && message@
                == missing_text(),
    {
        MemoryFile {
            description,
            bounds,
            transform,
            bands,
            missing: "the file has no band at that position".to_owned(),
        }
    }
}

impl<T: DataType> File<T, MemoryInfo, MemoryBand<T>> for MemoryFile<T> {
    open spec fn declares(&self) -> bool {
        true
    }

    open spec fn declared_description(&self) -> Result<Seq<char>, RusterioError> {
        Ok(self.spec_description())
    }

    open spec fn declared_bounds(&self) -> Result<(Rect, Seq<char>), RusterioError> {
        Ok(self.spec_bounds())
    }

    open spec fn declared_transform(&self) -> Result<(Affine, Seq<char>), RusterioError> {
        Ok(self.spec_transform())
    }

    open spec fn declared_count(&self) -> usize {
        self.spec_bands().len() as usize
    }

    open spec fn declared_band(&self, index: usize) -> Result<
        RasterBand<T, MemoryInfo, MemoryBand<T>>,
        RusterioError,
    > {
        if index < self.spec_bands().len() {
            Ok(self.spec_bands()[index as int])
        } else {
            Err(self.spec_missing())
        }
    }

    /// The file's description, and no entry.
    open spec fn declared_metadata(&self) -> (Seq<char>, Map<Seq<char>, Seq<char>>) {
        (self.spec_description(), Map::empty())
    }

    /// A file in memory is made, not opened: the backend's error, with the
    /// path.
    fn open(path: &str) -> (r: Result<Self, RusterioError>)
        ensures
            r matches Err(RusterioError::GdalError(message)) && message@ == path@,
    {
        Err(RusterioError::GdalError(path.to_owned()))
    }

    fn description(&self) -> (r: Result<String, RusterioError>) {
        Ok(self.description.clone())
    }

    fn geo_bounds(&self) -> (r: Result<GeoBounds, RusterioError>) {
        Ok(self.bounds.clone())
    }

    fn transform(&self) -> (r: Result<ReadGeoTransform, RusterioError>) {
        Ok(self.transform.clone())
    }

    fn num_bands(&self) -> (r: usize) {
        self.bands.len()
    }

    fn band(&self, index: usize) -> (r: Result<
        RasterBand<T, MemoryInfo, MemoryBand<T>>,
        RusterioError,
    >) {
        if index < self.bands.len() {
            Ok(self.bands[index].share())
        } else {
            Err(RusterioError::GdalError(self.missing.clone()))
        }
    }

    fn metadata(&self) -> (r: Metadata) {
        Metadata::new(self.description.clone())
    }
}

} // verus!
