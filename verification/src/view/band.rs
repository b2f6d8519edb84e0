//! The bands of a view: a band of a raster with the transform that lays
//! the view grid over the band's native grid.
use vstd::prelude::*;
use vstd::view::View as _;
use std::marker::PhantomData;
use std::rc::Rc;
use std::sync::Arc;
use crate::band::{window_pixels, BandInfo, BandReader};
use crate::errors::RusterioError;
use crate::geometry::Rect;
use crate::raster::band::RasterBand;
use crate::sharing::{share_arc, share_rc};
use crate::transforms::ViewReadTransform;
use crate::DataType;

verus! {

/// A band as a view shows it.
#[derive(Debug)]
pub struct ViewBand<T: DataType, I: BandInfo, R: BandReader<T>> {
    pub info: Rc<I>,
    /// Transform from the view's pixel space to the band's pixel space.
    pub transform: ViewReadTransform,
    pub reader: Arc<R>,
    pub pixel: PhantomData<T>,
}

impl<'a, T: DataType, I: BandInfo, R: BandReader<T>> From<(ViewReadTransform, &'a RasterBand<T, I, R>)> for ViewBand<T, I, R> {
    /// The band with the given transform; the handles are shared.
    fn from(value: (ViewReadTransform, &'a RasterBand<T, I, R>)) -> (r: Self)
        ensures
            r.transform == value.0,
            r.info == value.1.info,
            r.reader == value.1.reader,
    {
        let (transform, band) = value;
        ViewBand {
            transform,
            info: share_rc(&band.info),
            reader: share_arc(&band.reader),
            pixel: PhantomData,
        }
    }
}

impl<'a, T: DataType, I: BandInfo, R: BandReader<T>> vstd::std_specs::convert::FromSpecImpl<(ViewReadTransform, &'a RasterBand<T, I, R>)> for ViewBand<T, I, R> {
    open spec fn obeys_from_spec() -> bool {
        false
    }

    open spec fn from_spec(value: (ViewReadTransform, &'a RasterBand<T, I, R>)) -> Self {
        arbitrary()
    }
}

impl<T: DataType, I: BandInfo, R: BandReader<T>> ViewBand<T, I, R> {
    /// The band's reader is faithful and has the native window under the
    /// view window `view`: reading that window does not fail.
    pub open spec fn readable(&self, view: Rect) -> bool {
        &&& self.reader.faithful()
        &&& crate::transforms::fits_pixels(self.transform@.read_window(view))
        &&& self.reader.holds(self.transform@.read_window(view))
    }

    /// `error` is what a read of the view window `view` ends with for this
    /// band, where its reader is faithful and the band cannot be read: the
    /// cast error where the native window does not fit pixel coordinates,
    /// and else the reader's own error for that window.
    pub open spec fn failure(&self, view: Rect, error: RusterioError) -> bool {
        if crate::transforms::fits_pixels(self.transform@.read_window(view)) {
            self.reader.fails_with(self.transform@.read_window(view), error)
        } else {
            error == crate::errors::RusterioError::Uncastable
        }
    }

    /// What a read of the view window `view` gives for this band, where
    /// its reader is faithful: the window in row-major order, every view
    /// pixel with the value of the native pixel that it lies in.
    pub open spec fn expected(&self, view: Rect) -> Seq<T> {
        self.transform@.resampling(view).upsampled(
            window_pixels(
                |x: int, y: int| self.reader.pixel(x, y),
                self.transform@.read_window(view),
            ),
        )
    }
}

/// A band as a read needs it: the transform and the reader, both free to
/// go to another thread.
#[derive(Debug)]
pub struct ReadBand<T: DataType, R: BandReader<T>> {
    pub transform: ViewReadTransform,
    pub reader: Arc<R>,
    pub pixel: PhantomData<T>,
}

impl<'a, T: DataType, I: BandInfo, R: BandReader<T>> From<&'a ViewBand<T, I, R>> for ReadBand<T, R> {
    /// The transform and the reader of the band; the reader is shared.
    fn from(value: &'a ViewBand<T, I, R>) -> (r: Self)
        ensures
            r.transform == value.transform,
            r.reader == value.reader,
    {
        ReadBand {
            transform: value.transform,
            reader: share_arc(&value.reader),
            pixel: PhantomData,
        }
    }
}

impl<'a, T: DataType, I: BandInfo, R: BandReader<T>> vstd::std_specs::convert::FromSpecImpl<&'a ViewBand<T, I, R>> for ReadBand<T, R> {
    open spec fn obeys_from_spec() -> bool {
        false
    }

    open spec fn from_spec(value: &'a ViewBand<T, I, R>) -> Self {
        arbitrary()
    }
}

} // verus!
