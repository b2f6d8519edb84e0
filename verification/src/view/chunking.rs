//! Nearest-neighbour block replication: a window read at a band's native
//! resolution is spread over the window of the finer view grid that it
//! covers.
use vstd::prelude::*;
use vstd::arithmetic::div_mod::{
    lemma_fundamental_div_mod,
    lemma_fundamental_div_mod_converse,
};
use crate::bounds::{Bounds, ReadBounds, ViewBounds};
use crate::errors::RusterioError;
use crate::geometry::{min_int, Rect};
use crate::DataType;

verus! {

/// Index of the native pixel under the `i`-th view pixel of a window,
/// counted from the first native pixel that the window touches. `align` is
/// the window's offset modulo the ratio: the number of view pixels of that
/// first native pixel which lie before the window.
pub open spec fn source_index(align: int, ratio: int, i: int) -> int {
    (align + i) / ratio
}

/// Number of native pixels that a window of `extent` view pixels touches.
pub open spec fn read_extent(align: int, extent: int, ratio: int) -> int {
    (align + extent + ratio - 1) / ratio
}

/// First view pixel of a window, clipped to the window, that lies under the
/// native pixel of index `idx`.
pub open spec fn block_start(align: int, ratio: int, idx: int, extent: int) -> int {
    if idx == 0 {
        0
    } else {
        min_int(idx * ratio - align, extent)
    }
}

/// How a view window lies on one band's native grid.
pub ghost struct Resampling {
    /// View pixels per native pixel, `(x, y)`.
    pub ratio: (int, int),
    /// Offset of the window modulo the ratio, `(x, y)`.
    pub align: (int, int),
    /// `(width, height)` of the window in view pixels.
    pub view_shape: (int, int),
    /// Whether the band's columns, and its rows, run against those of the
    /// view, `(x, y)`: the native window is then laid mirrored along that
    /// axis.
    pub mirrored: (bool, bool),
}

impl Resampling {
    pub open spec fn wf(self) -> bool {
        &&& self.ratio.0 >= 1
        &&& self.ratio.1 >= 1
        &&& 0 <= self.align.0 < self.ratio.0
        &&& 0 <= self.align.1 < self.ratio.1
        &&& self.view_shape.0 >= 0
        &&& self.view_shape.1 >= 0
    }

    /// The resampling of the view window `view` at `ratio` view pixels per
    /// native pixel, for a band whose columns and rows run as those of the
    /// view.
    pub open spec fn of_window(view: Rect, ratio: (int, int)) -> Resampling {
        Resampling {
            ratio,
            align: (view.min_x % ratio.0, view.min_y % ratio.1),
            view_shape: (view.width(), view.height()),
            mirrored: (false, false),
        }
    }

    /// The same resampling for a band whose columns, or rows, run against
    /// those of the view.
    pub open spec fn mirror(self, mirrored: (bool, bool)) -> Resampling {
        Resampling {
            ratio: self.ratio,
            align: self.align,
            view_shape: self.view_shape,
            mirrored,
        }
    }

    /// `(width, height)` of the native window that the view window touches.
    pub open spec fn read_shape(self) -> (int, int) {
        (
            read_extent(self.align.0, self.view_shape.0, self.ratio.0),
            read_extent(self.align.1, self.view_shape.1, self.ratio.1),
        )
    }

    /// Column, in the native window, of the native pixel under the view
    /// pixels of column `col` of the view window.
    pub open spec fn source_col(self, col: int) -> int {
        let block = source_index(self.align.0, self.ratio.0, col);
        if self.mirrored.0 {
            self.read_shape().0 - 1 - block
        } else {
            block
        }
    }

    /// Row, in the native window, of the native pixel under the view pixels
    /// of row `row` of the view window.
    pub open spec fn source_row(self, row: int) -> int {
        let block = source_index(self.align.1, self.ratio.1, row);
        if self.mirrored.1 {
            self.read_shape().1 - 1 - block
        } else {
            block
        }
    }

    /// Row-major index, in the native window, of the native pixel under the
    /// view pixel at `(row, col)` of the view window.
    pub open spec fn source(self, row: int, col: int) -> int {
        self.source_row(row) * self.read_shape().0 + self.source_col(col)
    }

    /// The view window, row-major, in which every view pixel has the value
    /// of the native pixel that it lies in.
    pub open spec fn upsampled<T>(self, read: Seq<T>) -> Seq<T> {
        Seq::new(
            (self.view_shape.0 * self.view_shape.1) as nat,
            |p: int| read[self.source(p / self.view_shape.0, p % self.view_shape.0)],
        )
    }
}

/// Every view pixel between the start of a native pixel's block and the
/// start of the next lies under that native pixel.
pub proof fn lemma_block_source(align: int, ratio: int, idx: int, extent: int, i: int)
    requires
        ratio >= 1,
        0 <= align < ratio,
        0 <= idx,
        0 <= i,
        block_start(align, ratio, idx, extent) <= i < block_start(align, ratio, idx + 1, extent),
    ensures
        source_index(align, ratio, i) == idx,
{
    assert(idx * ratio <= align + i) by (nonlinear_arith)
        requires
            idx == 0 || idx * ratio - align <= i,
            0 <= align,
            0 <= i,
            ratio >= 1,
    ;
    assert(align + i < (idx + 1) * ratio);
    assert((idx + 1) * ratio == idx * ratio + ratio) by (nonlinear_arith);
    lemma_fundamental_div_mod_converse(align + i, ratio, idx, align + i - idx * ratio);
}

/// Every native pixel of the read window has a view pixel of the window
/// under it.
pub proof fn lemma_block_inside(align: int, ratio: int, idx: int, extent: int)
    requires
        ratio >= 1,
        0 <= align < ratio,
        0 < extent,
        0 <= idx < read_extent(align, extent, ratio),
    ensures
        block_start(align, ratio, idx, extent) < extent,
        idx > 0 ==> block_start(align, ratio, idx, extent) == idx * ratio - align,
        block_start(align, ratio, idx, extent) >= 0,
{
    let x = align + extent + ratio - 1;
    let n = read_extent(align, extent, ratio);
    lemma_fundamental_div_mod(x, ratio);
    assert(ratio * n <= x);
    assert(idx * ratio <= (n - 1) * ratio) by (nonlinear_arith)
        requires
            idx <= n - 1,
            ratio >= 1,
    ;
    assert((n - 1) * ratio == ratio * n - ratio) by (nonlinear_arith);
    if idx > 0 {
        assert(idx * ratio >= ratio) by (nonlinear_arith)
            requires
                idx >= 1,
                ratio >= 1,
        ;
    }
}

/// The blocks of the native pixels of the read window fill the view window.
pub proof fn lemma_blocks_cover(align: int, ratio: int, extent: int)
    requires
        ratio >= 1,
        0 <= align < ratio,
        0 < extent,
    ensures
        read_extent(align, extent, ratio) >= 1,
        block_start(align, ratio, read_extent(align, extent, ratio), extent) == extent,
{
    let x = align + extent + ratio - 1;
    let n = read_extent(align, extent, ratio);
    lemma_fundamental_div_mod(x, ratio);
    assert(0 <= x % ratio < ratio);
    assert(ratio * n > x - ratio);
    assert(n >= 1) by (nonlinear_arith)
        requires
            ratio * n > x - ratio,
            x - ratio >= 0,
            ratio >= 1,
    ;
    assert(n * ratio == ratio * n) by (nonlinear_arith);
}

/// The value that the upsampled window holds at `(row, col)`.
pub proof fn lemma_upsampled_at<T>(m: Resampling, read: Seq<T>, row: int, col: int)
    requires
        m.wf(),
        0 <= row < m.view_shape.1,
        0 <= col < m.view_shape.0,
    ensures
        0 <= row * m.view_shape.0 + col < m.upsampled(read).len(),
        m.upsampled(read)[row * m.view_shape.0 + col] == read[m.source(row, col)],
{
    let w = m.view_shape.0;
    let h = m.view_shape.1;
    let p = row * w + col;
    assert(0 <= row * w) by (nonlinear_arith)
        requires
            0 <= row,
            0 <= w,
    ;
    assert(row * w + w <= h * w) by (nonlinear_arith)
        requires
            row + 1 <= h,
            0 <= w,
    ;
    assert(h * w == w * h) by (nonlinear_arith);
    lemma_fundamental_div_mod_converse(p, w, row, col);
}

/// Number of blocks along a row of a window, which is the number of native
/// pixels that the row touches: the window's extent over the ratio where
/// the window starts and ends on native-pixel boundaries, at most one more
/// where one of its ends does, and at most two more in any case.
pub proof fn lemma_blocks_per_row(align: int, extent: int, ratio: int)
    requires
        ratio >= 1,
        0 <= align < ratio,
        0 <= extent,
    ensures
        extent / ratio <= read_extent(align, extent, ratio) <= extent / ratio + 2,
        align == 0 && extent % ratio == 0 ==> read_extent(align, extent, ratio) == extent
            / ratio,
        align == 0 || (align + extent) % ratio == 0 ==> read_extent(align, extent, ratio)
            <= extent / ratio + 1,
{
    let x = align + extent + ratio - 1;
    let n = read_extent(align, extent, ratio);
    lemma_fundamental_div_mod(x, ratio);
    lemma_fundamental_div_mod(extent, ratio);
    lemma_fundamental_div_mod(align + extent, ratio);
    let q = extent / ratio;
    let r = extent % ratio;
    let q2 = (align + extent) / ratio;
    let r2 = (align + extent) % ratio;
    assert(q <= n <= q + 2) by (nonlinear_arith)
        requires
            x == ratio * n + x % ratio,
            0 <= x % ratio < ratio,
            extent == ratio * q + r,
            0 <= r < ratio,
            x == align + extent + ratio - 1,
            0 <= align < ratio,
            ratio >= 1,
    ;
    if align == 0 && r == 0 {
        assert(n == q) by (nonlinear_arith)
            requires
                x == ratio * n + x % ratio,
                0 <= x % ratio < ratio,
                extent == ratio * q,
                x == extent + ratio - 1,
                ratio >= 1,
        ;
    }
    if align == 0 {
        assert(n <= q + 1) by (nonlinear_arith)
            requires
                x == ratio * n + x % ratio,
                0 <= x % ratio < ratio,
                extent == ratio * q + r,
                0 <= r < ratio,
                x == extent + ratio - 1,
                ratio >= 1,
        ;
    }
    if r2 == 0 {
        assert(n <= q + 1) by (nonlinear_arith)
            requires
                x == ratio * n + x % ratio,
                0 <= x % ratio < ratio,
                extent == ratio * q + r,
                0 <= r < ratio,
                align + extent == ratio * q2,
                x == align + extent + ratio - 1,
                0 <= align < ratio,
                ratio >= 1,
        ;
    }
}

/// A window that is not empty touches no more native pixels than it has
/// view pixels.
pub proof fn lemma_read_extent_bound(align: int, extent: int, ratio: int)
    requires
        ratio >= 1,
        0 <= align < ratio,
        1 <= extent,
    ensures
        1 <= read_extent(align, extent, ratio) <= extent,
{
    lemma_blocks_cover(align, ratio, extent);
    let n = read_extent(align, extent, ratio);
    let x = align + extent + ratio - 1;
    lemma_fundamental_div_mod(x, ratio);
    assert(n <= extent) by (nonlinear_arith)
        requires
            x == ratio * n + x % ratio,
            0 <= x % ratio,
            x == align + extent + ratio - 1,
            align <= ratio - 1,
            extent >= 1,
            ratio >= 1,
    ;
}

/// Where the native window has the shape of the view window and is not
/// mirrored, every view pixel lies under the native pixel of the same
/// position: the upsampled window is the native window itself, value for
/// value.
pub proof fn lemma_same_shape_is_identity<T>(m: Resampling, read: Seq<T>)
    requires
        m.wf(),
        m.mirrored == (false, false),
        m.read_shape() == m.view_shape,
        read.len() == m.view_shape.0 * m.view_shape.1,
    ensures
        m.upsampled(read) == read,
{
    let w = m.view_shape.0;
    let h = m.view_shape.1;
    let up = m.upsampled(read);
    assert forall|p: int| 0 <= p < up.len() implies up[p] == read[p] by {
        lemma_fundamental_div_mod(p, w);
        let row = p / w;
        let col = p % w;
        assert(w > 0) by (nonlinear_arith)
            requires
                0 <= p < w * h,
                w >= 0,
        ;
        assert(0 <= row < h) by (nonlinear_arith)
            requires
                p == w * row + col,
                0 <= col < w,
                0 <= p < w * h,
        ;
        lemma_same_extent_is_identity(m.align.0, w, m.ratio.0, col);
        lemma_same_extent_is_identity(m.align.1, h, m.ratio.1, row);
        assert(m.source(row, col) == row * w + col);
        assert(row * w == w * row) by (nonlinear_arith);
    }
    assert(up =~= read);
}

/// Along one axis: where a window touches as many native pixels as it has
/// view pixels, the `i`-th view pixel lies under the `i`-th native pixel.
pub proof fn lemma_same_extent_is_identity(align: int, extent: int, ratio: int, i: int)
    requires
        ratio >= 1,
        0 <= align < ratio,
        read_extent(align, extent, ratio) == extent,
        0 <= i < extent,
    ensures
        source_index(align, ratio, i) == i,
{
    // the index grows by at most one per view pixel, from 0 to extent - 1
    let x = align + extent + ratio - 1;
    lemma_fundamental_div_mod(x, ratio);
    lemma_fundamental_div_mod(align + i, ratio);
    let q = (align + i) / ratio;
    let r = (align + i) % ratio;
    assert(q <= i) by (nonlinear_arith)
        requires
            align + i == ratio * q + r,
            0 <= r,
            align <= ratio - 1,
            ratio >= 1,
            i >= 0,
    ;
    assert(q >= i) by (nonlinear_arith)
        requires
            align + i == ratio * q + r,
            r <= ratio - 1,
            x == ratio * extent + x % ratio,
            0 <= x % ratio,
            x == align + extent + ratio - 1,
            0 <= i < extent,
            ratio >= 1,
    ;
}

/// Where the native window is a single pixel, the upsampled window holds
/// that pixel's value everywhere.
pub proof fn lemma_single_pixel_fills<T>(m: Resampling, read: Seq<T>)
    requires
        m.wf(),
        m.read_shape() == (1int, 1int),
        read.len() == 1,
    ensures
        m.upsampled(read) == Seq::new(
            (m.view_shape.0 * m.view_shape.1) as nat,
            |p: int| read[0],
        ),
{
    let w = m.view_shape.0;
    let h = m.view_shape.1;
    let up = m.upsampled(read);
    assert forall|p: int| 0 <= p < up.len() implies up[p] == read[0] by {
        lemma_fundamental_div_mod(p, w);
        let row = p / w;
        let col = p % w;
        assert(w > 0) by (nonlinear_arith)
            requires
                0 <= p < w * h,
                w >= 0,
        ;
        assert(0 <= row < h) by (nonlinear_arith)
            requires
                p == w * row + col,
                0 <= col < w,
                0 <= p < w * h,
        ;
        lemma_source_in_read(m.align.0, w, m.ratio.0, col);
        lemma_source_in_read(m.align.1, h, m.ratio.1, row);
    }
    assert(up =~= Seq::new((w * h) as nat, |p: int| read[0]));
}

/// Every view pixel of a window lies under one of the native pixels that
/// the window touches.
pub proof fn lemma_source_in_read(align: int, extent: int, ratio: int, i: int)
    requires
        ratio >= 1,
        0 <= align < ratio,
        0 <= i < extent,
    ensures
        0 <= source_index(align, ratio, i) < read_extent(align, extent, ratio),
{
    let x = align + extent + ratio - 1;
    lemma_fundamental_div_mod(x, ratio);
    lemma_fundamental_div_mod(align + i, ratio);
    let q = (align + i) / ratio;
    let r = (align + i) % ratio;
    let n = x / ratio;
    assert(0 <= q < n) by (nonlinear_arith)
        requires
            align + i == ratio * q + r,
            0 <= r < ratio,
            x == ratio * n + x % ratio,
            0 <= x % ratio < ratio,
            x == align + extent + ratio - 1,
            0 <= i < extent,
            0 <= align,
            ratio >= 1,
    ;
}

/// Copies `buf[src_start..src_end]` onto the range of the same length that
/// starts at `dest`, with `<[T]>::copy_within`: one bulk move in place of a
/// write per element. The contract is the documented behaviour of that
/// method for ranges that lie inside the slice; nothing else changes.
#[verifier::external_body]
fn copy_within<T: Copy>(buf: &mut [T], src_start: usize, src_end: usize, dest: usize)
    requires
        src_start <= src_end <= old(buf)@.len(),
        dest + (src_end - src_start) <= old(buf)@.len(),
    ensures
        final(buf)@.len() == old(buf)@.len(),
        forall|k: int|
            0 <= k < old(buf)@.len() ==> #[trigger] final(buf)@[k] == if dest <= k < dest + (
            src_end - src_start) {
                old(buf)@[src_start + (k - dest)]
            } else {
                old(buf)@[k]
            },
{
    buf.copy_within(src_start..src_end, dest)
}

/// Sets every element of `buf[start..end]` to `value` and leaves the rest.
pub fn fill_range<T: Copy>(buf: &mut [T], start: usize, end: usize, value: T)
    requires
        start <= end <= old(buf)@.len(),
    ensures
        final(buf)@.len() == old(buf)@.len(),
        forall|k: int|
            0 <= k < old(buf)@.len() ==> #[trigger] final(buf)@[k] == if start <= k < end {
                value
            } else {
                old(buf)@[k]
            },
{
    let mut i = start;
    while i < end
        invariant
            start <= i <= end <= buf@.len(),
            buf@.len() == old(buf)@.len(),
            forall|k: int|
                0 <= k < buf@.len() ==> #[trigger] buf@[k] == if start <= k < i {
                    value
                } else {
                    old(buf)@[k]
                },
        decreases end - i,
    {
        buf[i] = value;
        i += 1;
    }
}

/// Spreads a native-resolution read over the view window that it covers.
///
/// Each native pixel fills a block of `ratio` view pixels; the blocks at the
/// edges of the window are cut where the window does not start or end on a
/// native-pixel boundary.
pub struct ResolutionChunker {
    ratio: (usize, usize),
    left_block_width: usize,
    top_block_height: usize,
    view_shape: (usize, usize),
    read_shape: (usize, usize),
    mirrored: (bool, bool),
}

impl View for ResolutionChunker {
    type V = Resampling;

    closed spec fn view(&self) -> Resampling {
        Resampling {
            ratio: (self.ratio.0 as int, self.ratio.1 as int),
            align: (self.ratio.0 - self.left_block_width, self.ratio.1 - self.top_block_height),
            view_shape: (self.view_shape.0 as int, self.view_shape.1 as int),
            mirrored: self.mirrored,
        }
    }
}

impl ResolutionChunker {
    #[verifier::type_invariant]
    spec fn inv(&self) -> bool {
        &&& self@.wf()
        &&& self.read_shape.0 == self@.read_shape().0
        &&& self.read_shape.1 == self@.read_shape().1
    }

    /// The chunker for the window `view_bounds` of the view grid, read as
    /// the window `read_bounds` of a band with `ratio` view pixels per
    /// native pixel along x and y. `read_bounds` has to be the native window
    /// that the view window touches.
    pub fn new(view_bounds: &ViewBounds, read_bounds: &ReadBounds, ratio: (usize, usize)) -> (r:
        Self)
        requires
            ratio.0 >= 1,
            ratio.1 >= 1,
            read_bounds@.width() == Resampling::of_window(
                view_bounds@,
                (ratio.0 as int, ratio.1 as int),
            ).read_shape().0,
            read_bounds@.height() == Resampling::of_window(
                view_bounds@,
                (ratio.0 as int, ratio.1 as int),
            ).read_shape().1,
        ensures
            r@ == Resampling::of_window(view_bounds@, (ratio.0 as int, ratio.1 as int)),
            r@.wf(),
    {
        let offset = view_bounds.min();
        let left_block_width = ratio.0 - offset.0 % ratio.0;
        let top_block_height = ratio.1 - offset.1 % ratio.1;
        let view_shape = view_bounds.shape();
        let read_shape = read_bounds.shape();
        ResolutionChunker {
            ratio,
            left_block_width,
            top_block_height,
            view_shape,
            read_shape,
            mirrored: (false, false),
        }
    }

    /// The same chunker for a band whose columns, or rows, run against
    /// those of the view, `(x, y)`: the native window is laid mirrored
    /// along that axis.
    pub fn mirror(self, mirrored: (bool, bool)) -> (r: Self)
        ensures
            r@ == self@.mirror(mirrored),
            r@.wf(),
    {
        proof {
            use_type_invariant(&self);
        }
        ResolutionChunker {
            ratio: self.ratio,
            left_block_width: self.left_block_width,
            top_block_height: self.top_block_height,
            view_shape: self.view_shape,
            read_shape: self.read_shape,
            mirrored,
        }
    }

    /// Fills `band_buff`, the view window in row-major order, from
    /// `read_buff`, the native window in row-major order: every view pixel
    /// gets the value of the native pixel that it lies in.
    ///
    /// For each native row the first view row of its block is filled column
    /// block by column block, and then copied to the other rows of the
    /// block.
    pub fn read_resolution_chucked<T: DataType>(self, read_buff: &[T], band_buff: &mut [T]) -> (r:
        Result<(), RusterioError>)
        requires
            read_buff@.len() == self@.read_shape().0 * self@.read_shape().1,
            old(band_buff)@.len() == self@.view_shape.0 * self@.view_shape.1,
        ensures
            r is Ok,
            final(band_buff)@ == self@.upsampled(read_buff@),
    {
        proof {
            use_type_invariant(&self);
        }
        let (view_width, view_height) = self.view_shape;
        let (read_width, read_height) = self.read_shape;
        let band_len = band_buff.len();
        let read_len = read_buff.len();
        let ghost m = self@;
        let ghost expected = m.upsampled(read_buff@);
        if view_width == 0 || view_height == 0 {
            assert(m.view_shape.0 * m.view_shape.1 == 0) by (nonlinear_arith)
                requires
                    m.view_shape.0 == 0 || m.view_shape.1 == 0,
            ;
            assert(band_buff@ =~= expected);
            return Ok(());
        }
        let mut row_start: usize = 0;
        let mut row_idx: usize = 0;
        while row_idx < read_height
            invariant
                m == self@,
                m.wf(),
                expected == m.upsampled(read_buff@),
                view_width == m.view_shape.0,
                view_height == m.view_shape.1,
                view_width > 0,
                view_height > 0,
                read_width == m.read_shape().0,
                read_height == m.read_shape().1,
                self.read_shape == (read_width, read_height),
                self.view_shape == (view_width, view_height),
                read_buff@.len() == read_width * read_height,
                band_buff@.len() == view_width * view_height,
                band_buff@.len() == band_len,
                read_buff@.len() == read_len,
                row_idx <= read_height,
                row_start == block_start(m.align.1, m.ratio.1, row_idx as int, view_height as int),
                forall|p: int| 0 <= p < row_start * view_width ==> band_buff@[p] == expected[p],
            decreases read_height - row_idx,
        {
            proof {
                lemma_block_inside(m.align.1, m.ratio.1, row_idx as int, view_height as int);
            }
            let nominal_height = self.read_row_idx_to_block_height(row_idx);
            let block_height = if nominal_height < view_height - row_start {
                nominal_height
            } else {
                view_height - row_start
            };
            assert(row_start + block_height == block_start(
                m.align.1,
                m.ratio.1,
                row_idx + 1,
                view_height as int,
            )) by {
                assert((row_idx + 1) * m.ratio.1 == row_idx * m.ratio.1 + m.ratio.1)
                    by (nonlinear_arith);
            }
            assert(row_start * view_width + block_height * view_width <= view_height * view_width)
                by (nonlinear_arith)
                requires
                    row_start + block_height <= view_height,
            ;
            assert(view_height * view_width == view_width * view_height) by (nonlinear_arith);
            assert(row_start * view_width + view_width <= view_height * view_width)
                by (nonlinear_arith)
                requires
                    row_start + 1 <= view_height,
            ;
            assert(row_idx * read_width + read_width <= read_height * read_width)
                by (nonlinear_arith)
                requires
                    row_idx + 1 <= read_height,
            ;
            assert(read_height * read_width == read_width * read_height) by (nonlinear_arith);
            let base = row_start * view_width;
            let read_row = if self.mirrored.1 {
                read_height - 1 - row_idx
            } else {
                row_idx
            };
            assert(read_row * read_width + read_width <= read_height * read_width)
                by (nonlinear_arith)
                requires
                    read_row + 1 <= read_height,
            ;
            let read_base = read_row * read_width;
            proof {
                lemma_block_source(
                    m.align.1,
                    m.ratio.1,
                    row_idx as int,
                    view_height as int,
                    row_start as int,
                );
            }
            let mut col_start: usize = 0;
            let mut col_idx: usize = 0;
            while col_idx < read_width
                invariant
                    m == self@,
                    m.wf(),
                    expected == m.upsampled(read_buff@),
                    view_width == m.view_shape.0,
                    view_height == m.view_shape.1,
                    view_width > 0,
                    read_width == m.read_shape().0,
                    read_height == m.read_shape().1,
                    self.read_shape == (read_width, read_height),
                    self.view_shape == (view_width, view_height),
                    read_buff@.len() == read_width * read_height,
                    band_buff@.len() == view_width * view_height,
                    band_buff@.len() == band_len,
                    read_buff@.len() == read_len,
                    row_idx < read_height,
                    row_start < view_height,
                    base == row_start * view_width,
                    base + view_width <= band_buff@.len(),
                    read_row == m.source_row(row_start as int),
                    read_base == read_row * read_width,
                    read_base + read_width <= read_buff@.len(),
                    row_start == block_start(
                        m.align.1,
                        m.ratio.1,
                        row_idx as int,
                        view_height as int,
                    ),
                    row_start < block_start(
                        m.align.1,
                        m.ratio.1,
                        row_idx + 1,
                        view_height as int,
                    ),
                    col_idx <= read_width,
                    col_start == block_start(
                        m.align.0,
                        m.ratio.0,
                        col_idx as int,
                        view_width as int,
                    ),
                    forall|p: int| 0 <= p < base + col_start ==> band_buff@[p] == expected[p],
                decreases read_width - col_idx,
            {
                proof {
                    lemma_block_inside(m.align.0, m.ratio.0, col_idx as int, view_width as int);
                }
                let nominal_width = self.read_col_idx_to_block_width(col_idx);
                let block_width = if nominal_width < view_width - col_start {
                    nominal_width
                } else {
                    view_width - col_start
                };
                assert(col_start + block_width == block_start(
                    m.align.0,
                    m.ratio.0,
                    col_idx + 1,
                    view_width as int,
                )) by {
                    assert((col_idx + 1) * m.ratio.0 == col_idx * m.ratio.0 + m.ratio.0)
                        by (nonlinear_arith);
                }
                let read_col = if self.mirrored.0 {
                    read_width - 1 - col_idx
                } else {
                    col_idx
                };
                let value = read_buff[read_base + read_col];
                let ghost before = band_buff@;
                fill_range(band_buff, base + col_start, base + col_start + block_width, value);
                assert forall|p: int| 0 <= p < base + col_start + block_width implies band_buff@[p]
                    == expected[p] by {
                    if p < base + col_start {
                        assert(band_buff@[p] == before[p]);
                    } else {
                        let col = p - base;
                        lemma_block_source(
                            m.align.0,
                            m.ratio.0,
                            col_idx as int,
                            view_width as int,
                            col,
                        );
                        lemma_block_source(
                            m.align.1,
                            m.ratio.1,
                            row_idx as int,
                            view_height as int,
                            row_start as int,
                        );
                        lemma_upsampled_at(m, read_buff@, row_start as int, col);
                        assert(band_buff@[p] == value);
                    }
                }
                col_start = col_start + block_width;
                col_idx = col_idx + 1;
            }
            proof {
                lemma_blocks_cover(m.align.0, m.ratio.0, m.view_shape.0);
            }
            let mut row: usize = 1;
            while row < block_height
                invariant
                    m == self@,
                    m.wf(),
                    expected == m.upsampled(read_buff@),
                    view_width == m.view_shape.0,
                    view_height == m.view_shape.1,
                    view_width > 0,
                    band_buff@.len() == view_width * view_height,
                    band_buff@.len() == band_len,
                    base == row_start * view_width,
                    row_start + block_height <= view_height,
                    row_start + block_height == block_start(
                        m.align.1,
                        m.ratio.1,
                        row_idx + 1,
                        view_height as int,
                    ),
                    row_start == block_start(
                        m.align.1,
                        m.ratio.1,
                        row_idx as int,
                        view_height as int,
                    ),
                    1 <= row,
                    1 <= block_height,
                    row <= block_height,
                    forall|p: int|
                        0 <= p < base + row * view_width ==> band_buff@[p] == expected[p],
                decreases block_height - row,
            {
                assert(base + row * view_width + view_width <= view_width * view_height)
                    by (nonlinear_arith)
                    requires
                        base == row_start * view_width,
                        row_start + row + 1 <= view_height,
                        view_width >= 0,
                ;
                let dest = base + row * view_width;
                let ghost before = band_buff@;
                copy_within(band_buff, base, base + view_width, dest);
                assert forall|p: int| 0 <= p < base + (row + 1) * view_width implies band_buff@[p]
                    == expected[p] by {
                    assert((row + 1) * view_width == row * view_width + view_width)
                        by (nonlinear_arith);
                    assert(row * view_width >= view_width) by (nonlinear_arith)
                        requires
                            row >= 1,
                            view_width >= 0,
                    ;
                    if p < dest {
                        assert(band_buff@[p] == before[p]);
                    } else {
                        let col = p - dest;
                        assert(band_buff@[p] == before[base + col]);
                        assert(before[base + col] == expected[base + col]);
                        assert(dest == (row_start + row) * view_width) by (nonlinear_arith)
                            requires
                                dest == base + row * view_width,
                                base == row_start * view_width,
                        ;
                        lemma_block_source(
                            m.align.1,
                            m.ratio.1,
                            row_idx as int,
                            view_height as int,
                            row_start as int,
                        );
                        lemma_block_source(
                            m.align.1,
                            m.ratio.1,
                            row_idx as int,
                            view_height as int,
                            row_start + row,
                        );
                        lemma_upsampled_at(m, read_buff@, row_start as int, col);
                        lemma_upsampled_at(m, read_buff@, row_start + row, col);
                    }
                }
                row = row + 1;
            }
            assert(base + block_height * view_width == (row_start + block_height) * view_width)
                by (nonlinear_arith)
                requires
                    base == row_start * view_width,
            ;
            row_start = row_start + block_height;
            row_idx = row_idx + 1;
        }
        proof {
            lemma_blocks_cover(m.align.1, m.ratio.1, m.view_shape.1);
        }
        assert(band_buff@ =~= expected);
        Ok(())
    }

    /// Height of the block of native row `row_idx` before it is cut to the
    /// window: what is left of the first native row, a full ratio below it.
    fn read_row_idx_to_block_height(&self, row_idx: usize) -> (h: usize)
        ensures
            h == if row_idx == 0 {
                self@.ratio.1 - self@.align.1
            } else {
                self@.ratio.1
            },
    {
        if row_idx == 0 {
            self.top_block_height
        } else {
            self.ratio.1
        }
    }

    /// Width of the block of native column `col_idx` before it is cut to
    /// the window: what is left of the first native column, a full ratio
    /// right of it.
    fn read_col_idx_to_block_width(&self, col_idx: usize) -> (w: usize)
        ensures
            w == if col_idx == 0 {
                self@.ratio.0 - self@.align.0
            } else {
                self@.ratio.0
            },
    {
        if col_idx == 0 {
            self.left_block_width
        } else {
            self.ratio.0
        }
    }
}

} // verus!
