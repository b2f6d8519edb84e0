//! The two interfaces that a raster backend offers for each band.
use vstd::prelude::*;
use crate::bounds::{PixelBounds, ReadBounds};
use crate::buffer::Buffer;
use crate::errors::RusterioError;
use crate::geometry::Rect;
use crate::metadata::Metadata;
use crate::DataType;

verus! {

/// Access to the name, the description and the metadata of a raster band.
pub trait BandInfo: std::fmt::Debug {
    fn name(&self) -> String;

    fn description(&self) -> Result<String, RusterioError>;

    fn metadata(&self) -> Result<Metadata, RusterioError>;
}

/// The pixels of the native window `window` of a band whose pixel in
/// column `x` and row `y` is `pixel(x, y)`, in row-major order.
pub open spec fn window_pixels<T>(pixel: spec_fn(int, int) -> T, window: Rect) -> Seq<T> {
    Seq::new(
        window.area() as nat,
        |p: int| pixel(window.min_x + p % window.width(), window.min_y + p / window.width()),
    )
}

/// The window of the one pixel in column `x` and row `y`.
pub open spec fn pixel_window(x: int, y: int) -> Rect {
    Rect { min_x: x, min_y: y, max_x: x + 1, max_y: y + 1 }
}

/// Reading the pixels of a raster band.
///
/// What a reader returns is up to the backend. A reader of a file can
/// promise nothing of it: the file may change between two reads. Such a
/// reader leaves `faithful` as it is, and the library relies on nothing but
/// the length of a slice, which no code can change. A reader whose pixels
/// are fixed says so in `faithful`, names them in `pixel`, says in `holds`
/// which windows it has and in `fails_with` what it fails with on the
/// others; of a view of such readers the library states when a read
/// succeeds, what it returns, pixel by pixel, and which error it ends with.
pub trait BandReader<T: DataType>: Send + Sync + std::fmt::Debug {
    /// The reader hands out the pixels that `pixel` names, whenever it
    /// succeeds.
    open spec fn faithful(&self) -> bool {
        false
    }

    /// The reader has the pixels of the native window `window`: a faithful
    /// reader does not fail on it.
    open spec fn holds(&self, window: Rect) -> bool {
        false
    }

    /// `error` is what a faithful reader fails with when it is asked for the
    /// native window `window`, which it does not hold.
    open spec fn fails_with(&self, window: Rect, error: RusterioError) -> bool {
        true
    }

    /// The value of the pixel in column `x` and row `y` of the band, for a
    /// faithful reader.
    open spec fn pixel(&self, x: int, y: int) -> T {
        arbitrary()
    }

    /// Fills `slice`, in row-major order, with the pixels of the native
    /// window `bounds`.
    fn read_into_slice(&self, bounds: &ReadBounds, slice: &mut [T]) -> (r: Result<
        (),
        RusterioError,
    >)
        requires
            old(slice)@.len() == bounds@.area(),
        ensures
            final(slice)@.len() == old(slice)@.len(),
            self.faithful() && r is Ok ==> final(slice)@ == window_pixels(
                |x: int, y: int| self.pixel(x, y),
                bounds@,
            ),
            self.faithful() && self.holds(bounds@) ==> r is Ok,
            self.faithful() && !self.holds(bounds@) ==> r is Err && self.fails_with(
                bounds@,
                r->Err_0,
            ),
    ;

    /// The pixels of the native window `bounds` in a buffer of their own:
    /// unless a reader does it otherwise, a fresh buffer of the window's
    /// size, filled by `read_into_slice`.
    fn read_to_buffer(&self, bounds: &ReadBounds) -> (r: Result<Buffer<T, 1>, RusterioError>)
        requires
            bounds@.area() <= usize::MAX,
        ensures
            self.faithful() ==> (r matches Ok(buffer) ==> buffer@ == window_pixels(
                |x: int, y: int| self.pixel(x, y),
                bounds@,
            )),
            self.faithful() && self.holds(bounds@) ==> r is Ok,
            self.faithful() && !self.holds(bounds@) ==> r is Err && self.fails_with(
                bounds@,
                r->Err_0,
            ),
    {
        let size = bounds.size();
        proof {
            let shape = [size];
            assert(shape@.drop_last() =~= Seq::<usize>::empty());
            assert(shape@.last() == size);
            assert(crate::buffer::product(shape@.drop_last()) == 1);
            assert(crate::buffer::product(shape@) == 1 * size);
        }
        let mut buffer: Buffer<T, 1> = Buffer::new([size]);
        match self.read_into_slice(bounds, buffer.as_mut()) {
            Ok(()) => Ok(buffer),
            Err(e) => Err(e),
        }
    }

    /// The pixel at `offset`, `(x, y)`, of the band's native grid.
    fn read_pixel(&self, offset: (usize, usize)) -> (r: Result<T, RusterioError>)
        ensures
            self.faithful() ==> (r matches Ok(value) ==> value == self.pixel(
                offset.0 as int,
                offset.1 as int,
            )),
            self.faithful() && self.holds(pixel_window(offset.0 as int, offset.1 as int))
                ==> r is Ok,
            self.faithful() && !self.holds(pixel_window(offset.0 as int, offset.1 as int))
                ==> r is Err && self.fails_with(
                pixel_window(offset.0 as int, offset.1 as int),
                r->Err_0,
            ),
    ;
}

} // verus!
