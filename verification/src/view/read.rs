//! Reading a view: each band's window is read at the band's native
//! resolution and laid into the band's part of the output.
use vstd::prelude::*;
use vstd::view::View as _;
use std::sync::Arc;
use crate::band::{window_pixels, BandInfo, BandReader};
use crate::bounds::{Bounds, PixelBounds, ReadBounds, ViewBounds};
use crate::buffer::{product, Buffer};
use crate::errors::RusterioError;
use crate::geometry::Rect;
use crate::intersection::Intersection;
use crate::sharing::share_arc;
use crate::transforms::{fits_pixels, lemma_read_window_shape, PixelScale};
use crate::view::band::ReadBand;
use crate::view::chunking::{
    fill_range,
    lemma_read_extent_bound,
    lemma_same_shape_is_identity,
    lemma_single_pixel_fills,
    ResolutionChunker,
};
use crate::view::View;
use crate::DataType;

verus! {

/// The nearest-neighbour law: in a band's part of a read of the view window
/// `view`, the view pixel `(x, y)` has the value of the native pixel that
/// it lies in, the one that the band's transform sends it to. For a band
/// that is not mirrored, at `k` view pixels per native pixel, that is the
/// native pixel `origin + (x / k, y / k)`.
pub proof fn lemma_expected_pixel<T>(
    t: PixelScale,
    pixel: spec_fn(int, int) -> T,
    view: Rect,
    x: int,
    y: int,
)
    requires
        t.wf(),
        view.wf(),
        view.min_x <= x < view.max_x,
        view.min_y <= y < view.max_y,
    ensures
        ({
            let resampled = t.resampling(view).upsampled(
                window_pixels(pixel, t.read_window(view)),
            );
            let at = (y - view.min_y) * view.width() + (x - view.min_x);
            &&& 0 <= at < resampled.len()
            &&& resampled[at] == pixel(t.apply(x, y).0, t.apply(x, y).1)
        }),
{
    let m = t.resampling(view);
    let window = t.read_window(view);
    let read = window_pixels(pixel, window);
    let native = t.apply(x, y);
    lemma_read_window_shape(t, view);
    crate::transforms::lemma_source_is_native_pixel(t, view, x, y);
    crate::view::chunking::lemma_upsampled_at(m, read, y - view.min_y, x - view.min_x);
    let row = native.1 - window.min_y;
    let col = native.0 - window.min_x;
    let q = row * window.width() + col;
    assert(0 <= row * window.width()) by (nonlinear_arith)
        requires
            0 <= row,
            0 <= window.width(),
    ;
    assert(q < window.width() * window.height()) by (nonlinear_arith)
        requires
            q == row * window.width() + col,
            0 <= col < window.width(),
            row + 1 <= window.height(),
    ;
    vstd::arithmetic::div_mod::lemma_fundamental_div_mod_converse(q, window.width(), row, col);
}

/// A band at one view pixel per native pixel, not mirrored, is read as it
/// is stored: its part of a read of the view window `view` is the native
/// window of the same shape, moved to the band's origin, element for
/// element.
pub proof fn lemma_unit_ratio_read<T>(t: PixelScale, pixel: spec_fn(int, int) -> T, view: Rect)
    requires
        t.wf(),
        view.wf(),
        t.ratio == (1int, 1int),
        t.mirrored == (false, false),
    ensures
        t.read_window(view) == (Rect {
            min_x: t.origin.0 + view.min_x,
            min_y: t.origin.1 + view.min_y,
            max_x: t.origin.0 + view.max_x,
            max_y: t.origin.1 + view.max_y,
        }),
        t.resampling(view).upsampled(window_pixels(pixel, t.read_window(view)))
            == window_pixels(pixel, t.read_window(view)),
{
    crate::transforms::lemma_unit_ratio_window(t, view);
    lemma_read_window_shape(t, view);
    lemma_same_shape_is_identity(t.resampling(view), window_pixels(pixel, t.read_window(view)));
}

/// The view of a single band is read as the band is stored, whichever way
/// its grid runs: a window of the view gives the native window of the same
/// shape, counted from the first pixel of the band's window over the
/// region, element for element.
pub proof fn lemma_single_band_read<T>(
    region: Rect,
    group: crate::transforms::Affine,
    pixel: spec_fn(int, int) -> T,
    view: Rect,
)
    requires
        view.wf(),
        crate::view::view_plan(region, seq![group]) is Some,
    ensures
        ({
            let plan = crate::view::view_plan(region, seq![group])->Some_0;
            let cover = group.preimage_cover(region);
            let t = plan.scales[0];
            let window = Rect {
                min_x: cover.min_x + view.min_x,
                min_y: cover.min_y + view.min_y,
                max_x: cover.min_x + view.max_x,
                max_y: cover.min_y + view.max_y,
            };
            &&& plan.bounds == Rect { min_x: 0, min_y: 0, max_x: cover.width(), max_y: cover.height() }
            &&& t.ratio == (1int, 1int)
            &&& t.mirrored == (false, false)
            &&& t.read_window(view) == window
            &&& t.resampling(view).upsampled(window_pixels(pixel, window)) == window_pixels(
                pixel,
                window,
            )
        }),
{
    let groups = seq![group];
    let plan = crate::view::view_plan(region, groups)->Some_0;
    assert(groups[0] == group);
    crate::view::lemma_unified_shape_aligned(region, groups, 0);
    crate::view::lemma_single_band_view(region, group);
    lemma_unit_ratio_read(plan.scales[0], pixel, view);
}

/// A band whose native window under the view window is a single pixel
/// fills its whole part of a read with the value of that pixel.
pub proof fn lemma_single_pixel_read<T>(t: PixelScale, pixel: spec_fn(int, int) -> T, view: Rect)
    requires
        t.wf(),
        view.wf(),
        t.read_window(view).width() == 1,
        t.read_window(view).height() == 1,
    ensures
        t.resampling(view).upsampled(window_pixels(pixel, t.read_window(view))) == Seq::new(
            view.area() as nat,
            |p: int| pixel(t.read_window(view).min_x, t.read_window(view).min_y),
        ),
{
    let window = t.read_window(view);
    let read = window_pixels(pixel, window);
    lemma_read_window_shape(t, view);
    assert(window.area() == 1) by (nonlinear_arith)
        requires
            window.width() == 1,
            window.height() == 1,
            window.area() == window.width() * window.height(),
    ;
    assert(read.len() == 1);
    assert(0int % 1 == 0 && 0int / 1 == 0);
    assert(read[0] == pixel(window.min_x, window.min_y));
    lemma_single_pixel_fills(t.resampling(view), read);
    assert(t.resampling(view).upsampled(read) =~= Seq::new(
        view.area() as nat,
        |p: int| pixel(window.min_x, window.min_y),
    ));
}

/// How one band's part of a view window is to be read.
pub enum ReadPlan {
    /// The window lies under a single native pixel: read that pixel and
    /// fill the band's part with its value.
    Pixel { offset: (usize, usize) },
    /// The native window has the shape of the view window and is not
    /// mirrored: read it straight into the band's part.
    Direct { read_bounds: ReadBounds },
    /// Read the native window aside and spread it over the band's part,
    /// block by block.
    Chunked { read_bounds: ReadBounds, chunker: ResolutionChunker },
}

impl<T: DataType, R: BandReader<T>> ReadBand<T, R> {
    /// The native window under the view window `view`.
    pub open spec fn read_window(&self, view: Rect) -> Rect {
        self.transform@.read_window(view)
    }

    /// What a read of the view window `view` gives for this band, where
    /// its reader is faithful: the window in row-major order, every view
    /// pixel with the value of the native pixel that it lies in.
    pub open spec fn expected(&self, view: Rect) -> Seq<T> {
        self.transform@.resampling(view).upsampled(
            window_pixels(|x: int, y: int| self.reader.pixel(x, y), self.read_window(view)),
        )
    }

    /// The band's reader is faithful and has the native window under the
    /// view window `view`: reading that window does not fail.
    pub open spec fn readable(&self, view: Rect) -> bool {
        &&& self.reader.faithful()
        &&& fits_pixels(self.read_window(view))
        &&& self.reader.holds(self.read_window(view))
    }

    /// `error` is what a read of the view window `view` ends with for this
    /// band, where its reader is faithful and the band cannot be read: the
    /// cast error where the native window does not fit pixel coordinates,
    /// and else the reader's own error for that window.
    pub open spec fn failure(&self, view: Rect, error: RusterioError) -> bool {
        if fits_pixels(self.read_window(view)) {
            self.reader.fails_with(self.read_window(view), error)
        } else {
            error == RusterioError::Uncastable
        }
    }

    /// Decides how the window `view_bounds` of this band is read. The cast
    /// error is returned where the native window under it does not fit
    /// pixel coordinates.
    pub fn plan(&self, view_bounds: &ViewBounds) -> (r: Result<ReadPlan, RusterioError>)
        ensures
            r is Ok <==> fits_pixels(self.transform@.read_window(view_bounds@)),
            r matches Err(e) ==> e == RusterioError::Uncastable,
            r matches Ok(plan) ==> ({
                let window = self.transform@.read_window(view_bounds@);
                let single = window.width() == 1 && window.height() == 1;
                let same = window.width() == view_bounds@.width() && window.height()
                    == view_bounds@.height();
                match plan {
                    ReadPlan::Pixel { offset } => {
                        &&& single
                        &&& offset.0 == window.min_x
                        &&& offset.1 == window.min_y
                    },
                    ReadPlan::Direct { read_bounds } => {
                        &&& !single
                        &&& same
                        &&& self.transform@.mirrored == (false, false)
                        &&& read_bounds@ == window
                    },
                    ReadPlan::Chunked { read_bounds, chunker } => {
                        &&& !single
                        &&& !(same && self.transform@.mirrored == (false, false))
                        &&& read_bounds@ == window
                        &&& chunker@ == self.transform@.resampling(view_bounds@)
                        &&& chunker@.wf()
                        &&& chunker@.read_shape() == (window.width(), window.height())
                    },
                }
            }),
    {
        let read_bounds = match view_bounds.as_read_bounds(&self.transform) {
            Ok(read_bounds) => read_bounds,
            Err(e) => {
                return Err(e);
            },
        };
        proof {
            lemma_read_window_shape(self.transform@, view_bounds@);
        }
        let read_shape = read_bounds.shape();
        let view_shape = view_bounds.shape();
        let mirrored = self.transform.mirrored();
        if read_shape.0 == 1 && read_shape.1 == 1 {
            Ok(ReadPlan::Pixel { offset: read_bounds.offset() })
        } else if read_shape.0 == view_shape.0 && read_shape.1 == view_shape.1 && !mirrored.0
            && !mirrored.1 {
            Ok(ReadPlan::Direct { read_bounds })
        } else {
            let chunker = ResolutionChunker::new(
                view_bounds,
                &read_bounds,
                self.transform.ratio(),
            ).mirror(mirrored);
            Ok(ReadPlan::Chunked { read_bounds, chunker })
        }
    }

    /// Reads the window `view_bounds` of this band into `band_buff`, the
    /// window in row-major order.
    ///
    /// The native window under the view window is read from the band's
    /// reader: as one pixel that fills the window, straight into the
    /// window where the shapes agree, and else aside, to be spread block
    /// by block. The first failure of the reader is returned; a reader
    /// whose buffer has not the size of the native window is a failed one.
    pub fn read_into(&self, view_bounds: &ViewBounds, band_buff: &mut [T]) -> (r: Result<
        (),
        RusterioError,
    >)
        requires
            old(band_buff)@.len() == view_bounds@.area(),
        ensures
            final(band_buff)@.len() == old(band_buff)@.len(),
            !fits_pixels(self.transform@.read_window(view_bounds@)) && view_bounds@.area() > 0
                ==> r == Err::<(), RusterioError>(RusterioError::Uncastable),
            view_bounds@.area() == 0 ==> r is Ok && final(band_buff)@ == old(band_buff)@,
            self.reader.faithful() && r is Ok ==> final(band_buff)@ == self.expected(
                view_bounds@,
            ),
            self.readable(view_bounds@) ==> r is Ok,
            self.reader.faithful() && view_bounds@.area() > 0 && !self.readable(view_bounds@)
                ==> r is Err && self.failure(view_bounds@, r->Err_0),
    {
        let len = band_buff.len();
        if len == 0 {
            assert(band_buff@ =~= self.expected(view_bounds@));
            return Ok(());
        }
        let view_shape = view_bounds.shape();
        let ratio = self.transform.ratio();
        proof {
            lemma_read_window_shape(self.transform@, view_bounds@);
            let w = view_bounds@.width();
            let h = view_bounds@.height();
            assert(w >= 1 && h >= 1) by (nonlinear_arith)
                requires
                    w * h > 0,
                    w >= 0,
                    h >= 0,
            ;
            let m = self.transform@.resampling(view_bounds@);
            lemma_read_extent_bound(m.align.0, w, m.ratio.0);
            lemma_read_extent_bound(m.align.1, h, m.ratio.1);
            let rw = m.read_shape().0;
            let rh = m.read_shape().1;
            assert(rw * rh <= w * h) by (nonlinear_arith)
                requires
                    1 <= rw <= w,
                    1 <= rh <= h,
            ;
        }
        let ghost m = self.transform@.resampling(view_bounds@);
        let ghost window = self.read_window(view_bounds@);
        match self.plan(view_bounds)? {
            ReadPlan::Pixel { offset } => {
                let value = self.reader.read_pixel(offset)?;
                fill_range(band_buff, 0, len, value);
                proof {
                    if self.reader.faithful() {
                        let read = window_pixels(|x: int, y: int| self.reader.pixel(x, y), window);
                        assert(window.area() == 1) by (nonlinear_arith)
                            requires
                                window.width() == 1,
                                window.height() == 1,
                                window.area() == window.width() * window.height(),
                        ;
                        assert(read.len() == 1);
                        assert(0int % 1 == 0 && 0int / 1 == 0);
                        assert(read[0] == self.reader.pixel(window.min_x, window.min_y));
                        assert(read =~= seq![value]);
                        lemma_single_pixel_fills(m, read);
                        assert(band_buff@ =~= self.expected(view_bounds@));
                    }
                }
                Ok(())
            },
            ReadPlan::Direct { read_bounds } => {
                let r = self.reader.read_into_slice(&read_bounds, band_buff);
                proof {
                    if self.reader.faithful() && r is Ok {
                        lemma_same_shape_is_identity(m, window_pixels(|x: int, y: int| self.reader.pixel(x, y), window));
                    }
                }
                r
            },
            ReadPlan::Chunked { read_bounds, chunker } => {
                let read = self.reader.read_to_buffer(&read_bounds);
                let read_buff = checked_window(read, read_bounds.size())?;
                chunker.read_resolution_chucked(read_buff.as_slice(), band_buff)
            },
        }
    }
}

/// What a reader returned for a window of `size` pixels, as it is where it
/// is an error or a buffer of that size, and the backend's error with the
/// words of `wrong_size_text` where it is a buffer of another size.
pub fn checked_window<T>(read: Result<Buffer<T, 1>, RusterioError>, size: usize) -> (r: Result<
    Buffer<T, 1>,
    RusterioError,
>)
    ensures
        match read {
            Err(e) => r == Err::<Buffer<T, 1>, RusterioError>(e),
            Ok(buffer) => if buffer@.len() == size {
                r == Ok::<Buffer<T, 1>, RusterioError>(buffer)
            } else {
                r matches Err(e) && is_wrong_size_error(e)
            },
        },
{
    match read {
        Err(e) => Err(e),
        Ok(buffer) => {
            if buffer.len() == size {
                Ok(buffer)
            } else {
                Err(RusterioError::GdalError(wrong_size_message()))
            }
        },
    }
}

/// The error of a read whose reader returned a buffer of the wrong size:
/// the backend's error, with the words of `wrong_size_text`.
pub open spec fn is_wrong_size_error(e: RusterioError) -> bool {
    e matches RusterioError::GdalError(message) && message@ == wrong_size_text()
}

/// The words that are reported of a reader whose buffer has not the size of
/// the window that it was asked for.
pub open spec fn wrong_size_text() -> Seq<char> {
    "the band reader returned a buffer that has not the size of the read window"@
}

/// What is reported of a reader whose buffer has not the size of the
/// window that it was asked for.
fn wrong_size_message() -> (r: String)
    ensures
        r@ == wrong_size_text(),
{
    "the band reader returned a buffer that has not the size of the read window".to_owned()
}

/// A view whose bands can be read from several threads at once.
pub struct SendSyncView<T: DataType, R: BandReader<T>> {
    bounds: ViewBounds,
    bands: Arc<Vec<ReadBand<T, R>>>,
}

impl<T: DataType, R: BandReader<T>> Clone for SendSyncView<T, R> {
    /// The same window of the same bands; the bands are shared, not copied.
    fn clone(&self) -> (r: Self)
        ensures
            r.spec_bounds() == self.spec_bounds(),
            r.spec_bands() == self.spec_bands(),
    {
        SendSyncView { bounds: self.bounds, bands: share_arc(&self.bands) }
    }
}

impl<T: DataType, R: BandReader<T>> SendSyncView<T, R> {
    /// The window that the view shows, in view pixels.
    pub closed spec fn spec_bounds(&self) -> Rect {
        self.bounds@
    }

    /// The bands of the view, in the order of the selection.
    pub closed spec fn spec_bands(&self) -> Seq<ReadBand<T, R>> {
        (*self.bands)@
    }

    /// The view of the window `bounds` of the given bands.
    pub fn new(bounds: ViewBounds, bands: Vec<ReadBand<T, R>>) -> (r: Self)
        ensures
            r.spec_bounds() == bounds@,
            r.spec_bands() == bands@,
    {
        SendSyncView { bounds, bands: Arc::new(bands) }
    }

    /// The part of the view inside `bounds`, with the same bands. The
    /// no-intersection error is returned where `bounds` and the view's own
    /// bounds do not overlap. Clipping a view to its own bounds gives a view
    /// with the same bounds.
    pub fn clip(&self, bounds: ViewBounds) -> (r: Result<Self, RusterioError>)
        ensures
            self.spec_bounds().overlaps(bounds@) ==> r is Ok && r->Ok_0.spec_bounds()
                == self.spec_bounds().meet(bounds@) && r->Ok_0.spec_bands() == self.spec_bands(),
            !self.spec_bounds().overlaps(bounds@) ==> r == Err::<Self, RusterioError>(
                crate::errors::no_intersection(),
            ),
            bounds@ == self.spec_bounds() ==> r is Ok && r->Ok_0.spec_bounds()
                == self.spec_bounds(),
    {
        let _ = self.bounds.shape();
        match self.bounds.intersection(&bounds) {
            Ok(bounds) => Ok(SendSyncView { bounds, bands: share_arc(&self.bands) }),
            Err(e) => Err(e),
        }
    }

    /// The window that the view shows.
    pub fn bounds(&self) -> (r: &ViewBounds)
        ensures
            r@ == self.spec_bounds(),
    {
        &self.bounds
    }

    /// The bands of the view.
    pub fn bands(&self) -> (r: &[ReadBand<T, R>])
        ensures
            r@ == self.spec_bands(),
    {
        self.bands.as_slice()
    }

    /// `(width, height)` of the view's window.
    pub fn bounds_shape(&self) -> (r: (usize, usize))
        ensures
            r.0 == self.spec_bounds().width(),
            r.1 == self.spec_bounds().height(),
            self.spec_bounds().wf(),
    {
        self.bounds.shape()
    }

    /// Shape of the array that a read gives: `[bands, height, width]`.
    pub fn array_shape(&self) -> (r: [usize; 3])
        ensures
            r@[0] == self.spec_bands().len(),
            r@[1] == self.spec_bounds().height(),
            r@[2] == self.spec_bounds().width(),
            self.spec_bounds().wf(),
    {
        let (width, height) = self.bounds_shape();
        [self.bands.len(), height, width]
    }

    /// Reads the window of every band into one buffer of shape
    /// `[bands, height, width]`: the bands one after the other, each
    /// row-major and resampled to the view grid.
    ///
    /// The first band that fails ends the read with its error, and no
    /// buffer is returned. Of faithful readers this is stated: the read
    /// ends with the error of the first band that cannot be read.
    pub fn read(&self) -> (r: Result<Buffer<T, 3>, RusterioError>)
        requires
            self.spec_bands().len() * self.spec_bounds().area() <= usize::MAX,
        ensures
            r matches Ok(buff) ==> {
                &&& buff.wf()
                &&& buff.spec_shape().len() == 3
                &&& buff.spec_shape()[0] == self.spec_bands().len()
                &&& buff.spec_shape()[1] == self.spec_bounds().height()
                &&& buff.spec_shape()[2] == self.spec_bounds().width()
                &&& buff@.len() == self.spec_bands().len() * self.spec_bounds().area()
            },
            self.spec_bands().len() == 0 ==> r is Ok,
            self.spec_bounds().area() == 0 ==> r is Ok,
            r is Ok && self.spec_bounds().area() > 0 ==> forall|k: int|
                0 <= k < self.spec_bands().len() ==> fits_pixels(
                    (#[trigger] self.spec_bands()[k]).transform@.read_window(self.spec_bounds()),
                ),
            all_faithful(self.spec_bands()) ==> (r matches Ok(buff) ==> forall|k: int|
                0 <= k < self.spec_bands().len() ==> band_part(
                    buff@,
                    k,
                    self.spec_bounds().area(),
                ) == (#[trigger] self.spec_bands()[k]).expected(self.spec_bounds())),
            all_readable(self.spec_bands(), self.spec_bounds()) ==> r is Ok,
            all_faithful(self.spec_bands()) && self.spec_bounds().area() > 0 ==> ({
                let k = first_unreadable(self.spec_bands(), self.spec_bounds(), 0);
                &&& k == self.spec_bands().len() ==> r is Ok
                &&& k < self.spec_bands().len() ==> r is Err && self.spec_bands()[k].failure(
                    self.spec_bounds(),
                    r->Err_0,
                )
            }),
    {
        let shape = self.array_shape();
        let ghost n = self.spec_bands().len() as int;
        let ghost w = self.spec_bounds().width();
        let ghost h = self.spec_bounds().height();
        proof {
            lemma_product_of_three(shape@);
            assert(shape@[0] == n && shape@[1] == h && shape@[2] == w);
            assert(n * (w * h) == n * h * w) by (nonlinear_arith);
            assert(product(shape@) == n * (w * h));
        }
        let mut buff: Buffer<T, 3> = Buffer::new(shape);
        if self.bands.len() == 0 {
            assert(n * (w * h) == 0) by (nonlinear_arith)
                requires
                    n == 0,
            ;
            return Ok(buff);
        }
        proof {
            assert(w * h <= n * (w * h)) by (nonlinear_arith)
                requires
                    n >= 1,
                    w * h >= 0,
            ;
        }
        let size = self.bounds.size();
        let data = buff.as_mut();
        match read_bands(self.bands.as_slice(), 0, &self.bounds, size, data) {
            Ok(()) => Ok(buff),
            Err(e) => Err(e),
        }
    }
}

/// The product of a shape of three extents.
pub proof fn lemma_product_of_three(s: Seq<usize>)
    requires
        s.len() == 3,
    ensures
        product(s) == s[0] * s[1] * s[2],
{
    let s2 = s.drop_last();
    let s1 = s2.drop_last();
    let s0 = s1.drop_last();
    assert(s0.len() == 0);
    assert(product(s0) == 1);
    assert(product(s1) == 1 * s[0]);
    assert(product(s2) == product(s1) * s[1]);
    assert(product(s) == product(s2) * s[2]);
    assert(1 * (s[0] as nat) == s[0]) by (nonlinear_arith);
}

/// Reads the bands from the `from`-th on, each into the next `size`
/// elements of `rest`.
fn read_bands<T: DataType, R: BandReader<T>>(
    bands: &[ReadBand<T, R>],
    from: usize,
    view_bounds: &ViewBounds,
    size: usize,
    rest: &mut [T],
) -> (r: Result<(), RusterioError>)
    requires
        from <= bands@.len(),
        size == view_bounds@.area(),
        old(rest)@.len() == (bands@.len() - from) * size,
    ensures
        final(rest)@.len() == old(rest)@.len(),
        size == 0 ==> r is Ok,
        r is Ok && size > 0 ==> forall|k: int|
            from <= k < bands@.len() ==> fits_pixels(
                (#[trigger] bands@[k]).transform@.read_window(view_bounds@),
            ),
        r is Ok && all_faithful(bands@) ==> forall|k: int|
            from <= k < bands@.len() ==> band_part(final(rest)@, k - from, size as int)
                == (#[trigger] bands@[k]).expected(view_bounds@),
        all_readable(bands@, view_bounds@) ==> r is Ok,
        all_faithful(bands@) && size > 0 ==> ({
            let k = first_unreadable(bands@, view_bounds@, from as int);
            &&& k == bands@.len() ==> r is Ok
            &&& k < bands@.len() ==> r is Err && bands@[k].failure(view_bounds@, r->Err_0)
        }),
    decreases bands@.len() - from,
{
    if from < bands.len() {
        assert((bands@.len() - from) * size == size + (bands@.len() - from - 1) * size)
            by (nonlinear_arith);
        assert((bands@.len() - from - 1) * size >= 0) by (nonlinear_arith)
            requires
                bands@.len() - from - 1 >= 0,
                size >= 0,
        ;
        let (band_buff, tail) = rest.split_at_mut(size);
        match bands[from].read_into(view_bounds, band_buff) {
            Ok(()) => {
                let r = read_bands(bands, from + 1, view_bounds, size, tail);
                proof {
                    let whole = band_buff@ + tail@;
                    if r is Ok && all_faithful(bands@) {
                        assert forall|k: int| from <= k < bands@.len() implies band_part(
                            whole,
                            k - from,
                            size as int,
                        ) == (#[trigger] bands@[k]).expected(view_bounds@) by {
                            let i = k - from;
                            assert(i * size + size == (i + 1) * size) by (nonlinear_arith);
                            if k == from {
                                assert(band_part(whole, 0, size as int) =~= band_buff@);
                            } else {
                                assert((i - 1) * size + size == i * size) by (nonlinear_arith);
                                assert((i - 1) * size >= 0) by (nonlinear_arith)
                                    requires
                                        i >= 1,
                                        size >= 0,
                                ;
                                assert(((bands@.len() - from - 1) - i) * size >= 0)
                                    by (nonlinear_arith)
                                    requires
                                        (bands@.len() - from - 1) - i >= 0,
                                        size >= 0,
                                ;
                                assert((bands@.len() - from - 1) * size == i * size + ((
                                bands@.len() - from - 1) - i) * size) by (nonlinear_arith);
                                assert(band_part(whole, i, size as int) =~= band_part(
                                    tail@,
                                    i - 1,
                                    size as int,
                                ));
                            }
                        }
                    }
                }
                r
            },
            Err(e) => Err(e),
        }
    } else {
        Ok(())
    }
}

/// The position of the first band, from `from` on, that cannot be read
/// over the view window `view`, and the number of bands where there is
/// none.
pub open spec fn first_unreadable<T: DataType, R: BandReader<T>>(
    bands: Seq<ReadBand<T, R>>,
    view: Rect,
    from: int,
) -> int
    decreases bands.len() - from,
{
    if from < 0 || from >= bands.len() {
        bands.len() as int
    } else if !bands[from].readable(view) {
        from
    } else {
        first_unreadable(bands, view, from + 1)
    }
}

/// `first_unreadable` is the first: the band there cannot be read, and
/// every band before it can.
pub proof fn lemma_first_unreadable<T: DataType, R: BandReader<T>>(
    bands: Seq<ReadBand<T, R>>,
    view: Rect,
    from: int,
)
    requires
        0 <= from <= bands.len(),
    ensures
        from <= first_unreadable(bands, view, from) <= bands.len(),
        first_unreadable(bands, view, from) < bands.len() ==> !bands[first_unreadable(
            bands,
            view,
            from,
        )].readable(view),
        forall|j: int|
            from <= j < first_unreadable(bands, view, from) ==> (#[trigger] bands[j]).readable(
                view,
            ),
    decreases bands.len() - from,
{
    if from < bands.len() && bands[from].readable(view) {
        lemma_first_unreadable(bands, view, from + 1);
    }
}

/// Every band can be read over the view window `view`.
pub open spec fn all_readable<T: DataType, R: BandReader<T>>(
    bands: Seq<ReadBand<T, R>>,
    view: Rect,
) -> bool {
    forall|k: int| 0 <= k < bands.len() ==> (#[trigger] bands[k]).readable(view)
}

/// Every band has a faithful reader.
pub open spec fn all_faithful<T: DataType, R: BandReader<T>>(bands: Seq<ReadBand<T, R>>) -> bool {
    forall|k: int| 0 <= k < bands.len() ==> (#[trigger] bands[k]).reader.faithful()
}

/// The part of band `k` in the elements of a buffer that holds `size`
/// elements for each band.
pub open spec fn band_part<T>(data: Seq<T>, k: int, size: int) -> Seq<T> {
    data.subrange(k * size, k * size + size)
}

impl<T: DataType, I: BandInfo, R: BandReader<T>> View<T, I, R> {
    /// The transform and the reader of every band.
    fn par_bands(&self) -> (r: Vec<ReadBand<T, R>>)
        ensures
            r@.len() == self.spec_bands().len(),
            forall|k: int|
                0 <= k < r@.len() ==> (#[trigger] r@[k]).transform == self.spec_bands()[k].transform
                    && r@[k].reader == self.spec_bands()[k].reader,
    {
        let view_bands = self.view_bands();
        let mut bands: Vec<ReadBand<T, R>> = Vec::with_capacity(view_bands.len());
        let mut k: usize = 0;
        while k < view_bands.len()
            invariant
                k <= view_bands@.len(),
                bands@.len() == k,
                forall|j: int|
                    0 <= j < k ==> (#[trigger] bands@[j]).transform == view_bands@[j].transform
                        && bands@[j].reader == view_bands@[j].reader,
            decreases view_bands@.len() - k,
        {
            bands.push(ReadBand::from(&view_bands[k]));
            k = k + 1;
        }
        bands
    }

    /// The same window of the same bands, without what cannot leave the
    /// thread: the bands' information.
    pub fn to_send_sync(self) -> (r: SendSyncView<T, R>)
        ensures
            r.spec_bounds() == self.spec_bounds(),
            r.spec_bands().len() == self.spec_bands().len(),
            forall|k: int|
                0 <= k < r.spec_bands().len() ==> (#[trigger] r.spec_bands()[k]).transform
                    == self.spec_bands()[k].transform && r.spec_bands()[k].reader
                    == self.spec_bands()[k].reader,
    {
        let bands = self.par_bands();
        SendSyncView::new(*self.view_bounds(), bands)
    }

    /// Reads the window of every band into one buffer of shape
    /// `[bands, height, width]`. See [`SendSyncView::read`]. Of faithful
    /// readers, a failed read ends with the error of the first band that
    /// cannot be read.
    pub fn read(self) -> (r: Result<Buffer<T, 3>, RusterioError>)
        requires
            self.spec_bands().len() * self.spec_bounds().area() <= usize::MAX,
        ensures
            r matches Ok(buff) ==> {
                &&& buff.wf()
                &&& buff.spec_shape().len() == 3
                &&& buff.spec_shape()[0] == self.spec_bands().len()
                &&& buff.spec_shape()[1] == self.spec_bounds().height()
                &&& buff.spec_shape()[2] == self.spec_bounds().width()
                &&& buff@.len() == self.spec_bands().len() * self.spec_bounds().area()
            },
            self.spec_bands().len() == 0 ==> r is Ok,
            self.spec_bounds().area() == 0 ==> r is Ok,
            r is Ok && self.spec_bounds().area() > 0 ==> forall|k: int|
                0 <= k < self.spec_bands().len() ==> fits_pixels(
                    (#[trigger] self.spec_bands()[k]).transform@.read_window(self.spec_bounds()),
                ),
            (forall|k: int|
                0 <= k < self.spec_bands().len() ==> (
                #[trigger] self.spec_bands()[k]).reader.faithful()) ==> (r matches Ok(buff)
                ==> forall|k: int|
                0 <= k < self.spec_bands().len() ==> band_part(
                    buff@,
                    k,
                    self.spec_bounds().area(),
                ) == (#[trigger] self.spec_bands()[k]).expected(self.spec_bounds())),
            (forall|k: int|
                0 <= k < self.spec_bands().len() ==> (#[trigger] self.spec_bands()[k]).readable(
                    self.spec_bounds(),
                )) ==> r is Ok,
            (forall|k: int|
                0 <= k < self.spec_bands().len() ==> (
                #[trigger] self.spec_bands()[k]).reader.faithful()) && self.spec_bounds().area()
                > 0 && r is Err ==> exists|k: int|
                0 <= k < self.spec_bands().len() && (#[trigger] self.spec_bands()[k]).failure(
                    self.spec_bounds(),
                    r->Err_0,
                ) && !self.spec_bands()[k].readable(self.spec_bounds()) && forall|j: int|
                    0 <= j < k ==> (#[trigger] self.spec_bands()[j]).readable(self.spec_bounds()),
    {
        let ghost bands = self.spec_bands();
        let ghost bounds = self.spec_bounds();
        let view = self.to_send_sync();
        let r = view.read();
        proof {
            if r is Ok && bounds.area() > 0 {
                assert forall|k: int| 0 <= k < bands.len() implies fits_pixels(
                    (#[trigger] bands[k]).transform@.read_window(bounds),
                ) by {
                    assert(view.spec_bands()[k].transform == bands[k].transform);
                }
            }
            if forall|k: int| 0 <= k < bands.len() ==> (#[trigger] bands[k]).readable(bounds) {
                assert forall|k: int| 0 <= k < bands.len() implies (
                #[trigger] view.spec_bands()[k]).readable(bounds) by {
                    assert(view.spec_bands()[k].reader == bands[k].reader);
                    assert(view.spec_bands()[k].transform == bands[k].transform);
                    assert(bands[k].readable(bounds));
                }
            }
            if forall|k: int| 0 <= k < bands.len() ==> (#[trigger] bands[k]).reader.faithful() {
                assert forall|k: int| 0 <= k < bands.len() implies (
                #[trigger] view.spec_bands()[k]).reader.faithful() by {
                    assert(view.spec_bands()[k].reader == bands[k].reader);
                    assert(bands[k].reader.faithful());
                }
                if r is Err && bounds.area() > 0 {
                    let k = first_unreadable(view.spec_bands(), bounds, 0);
                    lemma_first_unreadable(view.spec_bands(), bounds, 0);
                    assert(view.spec_bands()[k].transform == bands[k].transform);
                    assert(view.spec_bands()[k].reader == bands[k].reader);
                    assert(bands[k].failure(bounds, r->Err_0));
                    assert(!bands[k].readable(bounds));
                    assert forall|j: int| 0 <= j < k implies (#[trigger] bands[j]).readable(
                        bounds,
                    ) by {
                        assert(view.spec_bands()[j].transform == bands[j].transform);
                        assert(view.spec_bands()[j].reader == bands[j].reader);
                        assert(view.spec_bands()[j].readable(bounds));
                    }
                }
                if r is Ok {
                    assert forall|k: int| 0 <= k < bands.len() implies band_part(
                        r->Ok_0@,
                        k,
                        bounds.area(),
                    ) == (#[trigger] bands[k]).expected(bounds) by {
                        assert(view.spec_bands()[k].transform == bands[k].transform);
                        assert(view.spec_bands()[k].reader == bands[k].reader);
                        assert(view.spec_bands()[k].expected(bounds) == bands[k].expected(
                            bounds,
                        ));
                    }
                }
            }
        }
        r
    }
}

} // verus!
