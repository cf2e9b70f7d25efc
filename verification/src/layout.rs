//! The layout engine: resize once, stamp a grid, clip at the page edge.

use vstd::prelude::*;

use crate::config::ImageConfig;
use crate::paper::PaperSize;
use crate::raster::Raster;
use crate::resize::{fit_resize, resize_to_exact, resize_to_fit, stretch_resize};
use crate::units::{px_of, try_convert_mm_to_px};

verus! {

/// The failures a layout job can report. There are no others: the engine
/// performs no I/O, and every other input produces a finished canvas.
#[derive(Debug, Clone, PartialEq, Eq, Structural)]
pub enum LayoutError {
    /// The source image could not be decoded. Decoding is the caller's
    /// business, so the engine itself never reports this; a host maps its
    /// codec's failure to this variant.
    SourceUnreadable,
    /// A converted pixel dimension is zero, or a pixel count is too large
    /// for this machine's buffers.
    InvalidDimensions,
}

/// The cell width in pixels: the configured cell width converted at the
/// job's resolution.
pub open spec fn spec_cell_w_px(config: ImageConfig) -> int {
    px_of(config.width_mm10 as int, config.dpi as int)
}

/// The cell height in pixels.
pub open spec fn spec_cell_h_px(config: ImageConfig) -> int {
    px_of(config.height_mm10 as int, config.dpi as int)
}

/// The horizontal gap between columns, in pixels.
pub open spec fn spec_gap_px(config: ImageConfig) -> int {
    px_of(config.diff_mm10 as int, config.dpi as int)
}

/// The page width in pixels: the paper's width (after optional rotation)
/// converted at the job's resolution.
pub open spec fn spec_paper_w_px(config: ImageConfig, paper: PaperSize) -> int {
    px_of(paper.spec_size_mm10(config.is_rotate).0, config.dpi as int)
}

/// The page height in pixels.
pub open spec fn spec_paper_h_px(config: ImageConfig, paper: PaperSize) -> int {
    px_of(paper.spec_size_mm10(config.is_rotate).1, config.dpi as int)
}

/// The resized copy that is stamped into every grid cell: its width, its
/// height, and its RGBA bytes.
///
/// With `is_aspect_ratio` the copy is the largest image that fits within
/// the cell while keeping the source's proportions, so its dimensions may
/// fall short of the cell box on one axis; without it the copy fills the
/// cell box exactly.
pub open spec fn spec_resized(config: ImageConfig, source: Raster) -> (int, int, Seq<u8>) {
    let cw = spec_cell_w_px(config);
    let ch = spec_cell_h_px(config);
    if config.is_aspect_ratio {
        fit_resize(source.data@, source.width as int, source.height as int, cw, ch)
    } else {
        (cw, ch, stretch_resize(source.data@, source.width as int, source.height as int, cw, ch))
    }
}

/// The configuration yields a workable job: every converted dimension is at
/// least one pixel, each fits the pixel type, and the cell, the page and
/// the resampler's working strip fit this machine's buffers.
pub open spec fn spec_dims_ok(config: ImageConfig, paper: PaperSize, source: Raster) -> bool {
    let cw = spec_cell_w_px(config);
    let ch = spec_cell_h_px(config);
    let gap = spec_gap_px(config);
    let pw = spec_paper_w_px(config, paper);
    let ph = spec_paper_h_px(config, paper);
    &&& 1 <= cw <= u32::MAX
    &&& 1 <= ch <= u32::MAX
    &&& gap <= u32::MAX
    &&& 1 <= pw <= u32::MAX
    &&& 1 <= ph <= u32::MAX
    &&& 4 * (cw * ch) <= usize::MAX
    &&& 4 * (pw * ph) <= usize::MAX
    &&& 16 * ((source.width as int) * ch) <= usize::MAX
}

/// The channel value a finished grid holds at `(x, y, c)`, for a resized
/// copy `rdata` of size `rw` by `rh` stamped with origins spaced `cw + gap`
/// apart horizontally and `ch` apart vertically, `rows` by `cols` copies in
/// all.
///
/// The pixel belongs to the copy in column `x / (cw + gap)` and row
/// `y / ch`, at offset `(x % (cw + gap), y % ch)` within the cell; if that
/// copy exists and the offset falls inside the resized image, the copy's
/// channel shows, otherwise the canvas keeps its zero background.
pub open spec fn spec_tiled_channel(
    rdata: Seq<u8>,
    rw: int,
    rh: int,
    cw: int,
    ch: int,
    gap: int,
    rows: int,
    cols: int,
    x: int,
    y: int,
    c: int,
) -> u8 {
    let stride = cw + gap;
    let col = x / stride;
    let i = x % stride;
    let row = y / ch;
    let j = y % ch;
    if row < rows && col < cols && i < rw && j < rh {
        rdata[4 * ((j * rw) + i) + c]
    } else {
        0u8
    }
}

/// As [`spec_tiled_channel`], but with only the first stamps laid down:
/// all of rows `0 .. row_done`, and the first `col_done` columns of row
/// `row_done`. The stamps are disjoint, so the order inside that set does
/// not matter.
spec fn spec_tiled_channel_upto(
    rdata: Seq<u8>,
    rw: int,
    rh: int,
    cw: int,
    ch: int,
    gap: int,
    rows: int,
    cols: int,
    row_done: int,
    col_done: int,
    x: int,
    y: int,
    c: int,
) -> u8 {
    let stride = cw + gap;
    let col = x / stride;
    let i = x % stride;
    let row = y / ch;
    let j = y % ch;
    if (row < row_done || (row == row_done && col < col_done)) && row < rows && col < cols && i
        < rw && j < rh {
        rdata[4 * ((j * rw) + i) + c]
    } else {
        0u8
    }
}

/// The channel value the finished page holds at `(x, y, c)` for a given
/// job: [`spec_tiled_channel`] applied to the resized copy and to the
/// job's converted pixel dimensions.
pub open spec fn spec_canvas_channel(
    config: ImageConfig,
    paper: PaperSize,
    source: Raster,
    x: int,
    y: int,
    c: int,
) -> u8 {
    let (rw, rh, rdata) = spec_resized(config, source);
    spec_tiled_channel(
        rdata,
        rw,
        rh,
        spec_cell_w_px(config),
        spec_cell_h_px(config),
        spec_gap_px(config),
        config.rows as int,
        config.cols as int,
        x,
        y,
        c,
    )
}

/// An in-bounds channel position maps into the byte buffer of a `w` by `h`
/// raster.
proof fn lemma_rgba_index_bounds(w: int, h: int, x: int, y: int, c: int)
    requires
        0 <= x < w,
        0 <= y < h,
        0 <= c < 4,
    ensures
        0 <= 4 * ((y * w) + x) + c < 4 * (w * h),
{
    assert(0 <= 4 * ((y * w) + x) + c < 4 * (w * h)) by (nonlinear_arith)
        requires
            0 <= x < w,
            0 <= y < h,
            0 <= c < 4;
}

/// Distinct in-bounds channel positions map to distinct bytes.
proof fn lemma_rgba_index_injective(
    w: int,
    x1: int,
    y1: int,
    c1: int,
    x2: int,
    y2: int,
    c2: int,
)
    requires
        0 <= x1 < w,
        0 <= y1,
        0 <= c1 < 4,
        0 <= x2 < w,
        0 <= y2,
        0 <= c2 < 4,
        4 * ((y1 * w) + x1) + c1 == 4 * ((y2 * w) + x2) + c2,
    ensures
        x1 == x2 && y1 == y2 && c1 == c2,
{
    assert(x1 == x2 && y1 == y2 && c1 == c2) by (nonlinear_arith)
        requires
            0 <= x1 < w,
            0 <= y1,
            0 <= c1 < 4,
            0 <= x2 < w,
            0 <= y2,
            0 <= c2 < 4,
            4 * ((y1 * w) + x1) + c1 == 4 * ((y2 * w) + x2) + c2;
}

/// Stamps one copy of `rdata` (an `rw` by `rh` RGBA image) onto the canvas
/// with its top-left corner at `(ox, oy)`, writing a pixel only where its
/// destination lies inside the canvas on both axes and silently dropping
/// the rest: clipping, never an error and never a wraparound.
fn stamp_tile(canvas: &mut Raster, rdata: &Vec<u8>, rw: u32, rh: u32, ox: u64, oy: u64)
    requires
        old(canvas).wf(),
        rdata@.len() == 4 * ((rw as int) * (rh as int)),
        ox + rw <= u64::MAX,
        oy + rh <= u64::MAX,
    ensures
        final(canvas).wf(),
        final(canvas).width == old(canvas).width,
        final(canvas).height == old(canvas).height,
        forall|x: int, y: int, c: int|
            0 <= x < old(canvas).width && 0 <= y < old(canvas).height && 0 <= c < 4 && ox <= x
                < ox + rw && oy <= y < oy + rh ==> final(canvas).channel(x, y, c) == rdata@[4 * (((
            y - oy) * (rw as int)) + (x - ox)) + c],
        forall|x: int, y: int, c: int|
            0 <= x < old(canvas).width && 0 <= y < old(canvas).height && 0 <= c < 4 && !(ox <= x
                < ox + rw && oy <= y < oy + rh) ==> final(canvas).channel(x, y, c) == old(
            canvas,
        ).channel(x, y, c),
{
    let pw = canvas.width;
    let ph = canvas.height;
    let mut j: u32 = 0;
    while j < rh && oy + (j as u64) < ph as u64
        invariant
            canvas.wf(),
            canvas.width == pw,
            canvas.height == ph,
            rdata@.len() == 4 * ((rw as int) * (rh as int)),
            j <= rh,
            ox + rw <= u64::MAX,
            oy + rh <= u64::MAX,
            forall|x: int, y: int, c: int|
                0 <= x < pw && 0 <= y < ph && 0 <= c < 4 && ox <= x < ox + rw && oy <= y < oy
                    + j ==> canvas.channel(x, y, c) == rdata@[4 * (((y - oy) * (rw as int)) + (x
                    - ox)) + c],
            forall|x: int, y: int, c: int|
                0 <= x < pw && 0 <= y < ph && 0 <= c < 4 && !(ox <= x < ox + rw && oy <= y < oy
                    + j) ==> canvas.channel(x, y, c) == old(canvas).channel(x, y, c),
        decreases rh - j,
    {
        let y = oy + (j as u64);
        let mut i: u32 = 0;
        while i < rw && ox + (i as u64) < pw as u64
            invariant
                canvas.wf(),
                canvas.width == pw,
                canvas.height == ph,
                rdata@.len() == 4 * ((rw as int) * (rh as int)),
                i <= rw,
                j < rh,
                y == oy + j,
                y < ph,
                ox + rw <= u64::MAX,
                forall|x2: int, y2: int, c2: int|
                    0 <= x2 < pw && 0 <= y2 < ph && 0 <= c2 < 4 && ox <= x2 < ox + rw && (oy <= y2
                        < y || (y2 == y && ox <= x2 < ox + i)) ==> canvas.channel(x2, y2, c2)
                        == rdata@[4 * (((y2 - oy) * (rw as int)) + (x2 - ox)) + c2],
                forall|x2: int, y2: int, c2: int|
                    0 <= x2 < pw && 0 <= y2 < ph && 0 <= c2 < 4 && !(ox <= x2 < ox + rw && (oy
                        <= y2 < y || (y2 == y && ox <= x2 < ox + i))) ==> canvas.channel(
                        x2,
                        y2,
                        c2,
                    ) == old(canvas).channel(x2, y2, c2),
            decreases rw - i,
        {
            let x = ox + (i as u64);
            let _len = canvas.data.len();
            let _rlen = rdata.len();
            proof {
                lemma_rgba_index_bounds(pw as int, ph as int, x as int, y as int, 0);
                lemma_rgba_index_bounds(pw as int, ph as int, x as int, y as int, 3);
                lemma_rgba_index_bounds(rw as int, rh as int, i as int, j as int, 0);
                lemma_rgba_index_bounds(rw as int, rh as int, i as int, j as int, 3);
            }
            let dst: usize = 4 * ((y as usize) * (pw as usize) + (x as usize));
            let src: usize = 4 * ((j as usize) * (rw as usize) + (i as usize));
            let ghost pre = *canvas;
            canvas.data[dst] = rdata[src];
            canvas.data[dst + 1] = rdata[src + 1];
            canvas.data[dst + 2] = rdata[src + 2];
            canvas.data[dst + 3] = rdata[src + 3];
            proof {
                assert(dst as int == 4 * (((y as int) * (pw as int)) + (x as int)));
                assert(src as int == 4 * (((j as int) * (rw as int)) + (i as int)));
                assert(x - ox == i as int && y - oy == j as int);
                assert forall|x2: int, y2: int, c2: int|
                    0 <= x2 < pw && 0 <= y2 < ph && 0 <= c2 < 4 && !(x2 == x && y2
                        == y) implies canvas.channel(x2, y2, c2) == pre.channel(x2, y2, c2) by {
                    lemma_rgba_index_bounds(pw as int, ph as int, x2, y2, c2);
                    let b1 = pre.byte_index(x2, y2, c2);
                    if b1 == dst as int {
                        lemma_rgba_index_injective(pw as int, x2, y2, c2, x as int, y as int, 0);
                    }
                    if b1 == dst as int + 1 {
                        lemma_rgba_index_injective(pw as int, x2, y2, c2, x as int, y as int, 1);
                    }
                    if b1 == dst as int + 2 {
                        lemma_rgba_index_injective(pw as int, x2, y2, c2, x as int, y as int, 2);
                    }
                    if b1 == dst as int + 3 {
                        lemma_rgba_index_injective(pw as int, x2, y2, c2, x as int, y as int, 3);
                    }
                    assert(canvas.data@[b1] == pre.data@[b1]);
                }
                assert forall|c2: int| 0 <= c2 < 4 implies canvas.channel(x as int, y as int, c2)
                    == rdata@[4 * (((y - oy) * (rw as int)) + (x - ox)) + c2] by {
                    assert(canvas.byte_index(x as int, y as int, c2) == dst as int + c2);
                    assert(canvas.data@[dst as int + c2] == rdata@[src as int + c2]);
                }
                assert forall|x2: int, y2: int, c2: int|
                    0 <= x2 < pw && 0 <= y2 < ph && 0 <= c2 < 4 && ox <= x2 < ox + rw && (oy <= y2
                        < y || (y2 == y && ox <= x2 < ox + i + 1)) implies canvas.channel(
                    x2,
                    y2,
                    c2,
                ) == rdata@[4 * (((y2 - oy) * (rw as int)) + (x2 - ox)) + c2] by {
                    if y2 == y && x2 == ox + i {
                        assert(x2 == x as int && y2 == y as int);
                        assert(canvas.channel(x2, y2, c2) == rdata@[4 * (((y2 - oy) * (
                        rw as int)) + (x2 - ox)) + c2]);
                    } else {
                        assert(!(x2 == x && y2 == y));
                        assert(canvas.channel(x2, y2, c2) == pre.channel(x2, y2, c2));
                        assert(pre.channel(x2, y2, c2) == rdata@[4 * (((y2 - oy) * (rw as int))
                            + (x2 - ox)) + c2]);
                    }
                }
            }
            i = i + 1;
        }
        j = j + 1;
    }
}

/// Laying down the stamp at row `row`, column `col` moves the partial grid
/// from `(row, col)` to `(row, col + 1)`: inside the stamp's rectangle the
/// copy's channel appears, and no other point changes, because the stamps
/// are disjoint.
proof fn lemma_upto_stamp(
    rdata: Seq<u8>,
    rw: int,
    rh: int,
    cw: int,
    ch: int,
    gap: int,
    rows: int,
    cols: int,
    row: int,
    col: int,
    x: int,
    y: int,
    c: int,
)
    requires
        1 <= rw <= cw,
        1 <= rh <= ch,
        0 <= gap,
        0 <= row < rows,
        0 <= col < cols,
        0 <= x,
        0 <= y,
        0 <= c < 4,
    ensures
        (col * (cw + gap) <= x < col * (cw + gap) + rw && row * ch <= y < row * ch + rh)
            ==> spec_tiled_channel_upto(rdata, rw, rh, cw, ch, gap, rows, cols, row, col + 1, x, y, c)
            == rdata[4 * (((y - row * ch) * rw) + (x - col * (cw + gap))) + c],
        !(col * (cw + gap) <= x < col * (cw + gap) + rw && row * ch <= y < row * ch + rh)
            ==> spec_tiled_channel_upto(rdata, rw, rh, cw, ch, gap, rows, cols, row, col + 1, x, y, c)
            == spec_tiled_channel_upto(rdata, rw, rh, cw, ch, gap, rows, cols, row, col, x, y, c),
{
    let stride = cw + gap;
    vstd::arithmetic::div_mod::lemma_fundamental_div_mod(x, stride);
    vstd::arithmetic::div_mod::lemma_mod_division_less_than_divisor(x, stride);
    vstd::arithmetic::div_mod::lemma_fundamental_div_mod(y, ch);
    vstd::arithmetic::div_mod::lemma_mod_division_less_than_divisor(y, ch);
    vstd::arithmetic::mul::lemma_mul_is_commutative(stride, x / stride);
    vstd::arithmetic::mul::lemma_mul_is_commutative(ch, y / ch);
    if col * stride <= x < col * stride + rw && row * ch <= y < row * ch + rh {
        vstd::arithmetic::div_mod::lemma_fundamental_div_mod_converse(
            x,
            stride,
            col,
            x - col * stride,
        );
        vstd::arithmetic::div_mod::lemma_fundamental_div_mod_converse(y, ch, row, y - row * ch);
    }
}

/// Once a column origin has moved past the page's right edge, the columns
/// that remain cannot touch a visible pixel: on the page, the partial grid
/// already equals the one with every column of the row laid down.
proof fn lemma_upto_col_clip(
    rdata: Seq<u8>,
    rw: int,
    rh: int,
    cw: int,
    ch: int,
    gap: int,
    rows: int,
    cols: int,
    row: int,
    col: int,
    pw: int,
    x: int,
    y: int,
    c: int,
)
    requires
        1 <= rw <= cw,
        1 <= rh <= ch,
        0 <= gap,
        0 <= col <= cols,
        col * (cw + gap) >= pw,
        0 <= x < pw,
        0 <= y,
        0 <= c < 4,
    ensures
        spec_tiled_channel_upto(rdata, rw, rh, cw, ch, gap, rows, cols, row, col, x, y, c)
            == spec_tiled_channel_upto(rdata, rw, rh, cw, ch, gap, rows, cols, row, cols, x, y, c),
{
    let stride = cw + gap;
    vstd::arithmetic::mul::lemma_mul_is_commutative(stride, col);
    vstd::arithmetic::div_mod::lemma_multiply_divide_lt(x, stride, col);
}

/// Once a row origin has moved past the page's bottom edge, the rows that
/// remain cannot touch a visible pixel: on the page, the partial grid
/// already equals the finished one.
proof fn lemma_upto_row_clip(
    rdata: Seq<u8>,
    rw: int,
    rh: int,
    cw: int,
    ch: int,
    gap: int,
    rows: int,
    cols: int,
    row: int,
    ph: int,
    x: int,
    y: int,
    c: int,
)
    requires
        1 <= rw <= cw,
        1 <= rh <= ch,
        0 <= gap,
        0 <= row <= rows,
        row * ch >= ph,
        0 <= x,
        0 <= y < ph,
        0 <= c < 4,
    ensures
        spec_tiled_channel_upto(rdata, rw, rh, cw, ch, gap, rows, cols, row, 0, x, y, c)
            == spec_tiled_channel_upto(rdata, rw, rh, cw, ch, gap, rows, cols, rows, 0, x, y, c),
{
    vstd::arithmetic::mul::lemma_mul_is_commutative(ch, row);
    vstd::arithmetic::div_mod::lemma_multiply_divide_lt(y, ch, row);
}

/// Stamps the whole grid onto a zeroed canvas: `rows` by `cols` copies of
/// `rdata`, column origins spaced `cw + gap` apart, row origins spaced `ch`
/// apart, each copy clipped at the page edge.
fn stamp_grid(
    canvas: &mut Raster,
    rdata: &Vec<u8>,
    rw: u32,
    rh: u32,
    cw: u32,
    ch: u32,
    gap: u32,
    rows: u32,
    cols: u32,
)
    requires
        old(canvas).wf(),
        forall|k: int| 0 <= k < old(canvas).data@.len() ==> old(canvas).data@[k] == 0u8,
        rdata@.len() == 4 * ((rw as int) * (rh as int)),
        1 <= rw <= cw,
        1 <= rh <= ch,
    ensures
        final(canvas).wf(),
        final(canvas).width == old(canvas).width,
        final(canvas).height == old(canvas).height,
        forall|x: int, y: int, c: int|
            0 <= x < old(canvas).width && 0 <= y < old(canvas).height && 0 <= c < 4
                ==> final(canvas).channel(x, y, c) == spec_tiled_channel(
                rdata@,
                rw as int,
                rh as int,
                cw as int,
                ch as int,
                gap as int,
                rows as int,
                cols as int,
                x,
                y,
                c,
            ),
{
    let pw = canvas.width;
    let ph = canvas.height;
    let stride: u64 = (cw as u64) + (gap as u64);
    proof {
        assert forall|x: int, y: int, c: int|
            0 <= x < pw && 0 <= y < ph && 0 <= c < 4 implies canvas.channel(x, y, c)
            == spec_tiled_channel_upto(
            rdata@,
            rw as int,
            rh as int,
            cw as int,
            ch as int,
            gap as int,
            rows as int,
            cols as int,
            0,
            0,
            x,
            y,
            c,
        ) by {
            lemma_rgba_index_bounds(pw as int, ph as int, x, y, c);
            vstd::arithmetic::div_mod::lemma_div_pos_is_pos(x, stride as int);
            vstd::arithmetic::div_mod::lemma_div_pos_is_pos(y, ch as int);
        }
    }
    let mut row: u32 = 0;
    let mut oy: u64 = 0;
    while row < rows && oy < ph as u64
        invariant
            canvas.wf(),
            canvas.width == pw,
            canvas.height == ph,
            rdata@.len() == 4 * ((rw as int) * (rh as int)),
            1 <= rw <= cw,
            1 <= rh <= ch,
            stride == cw as int + gap as int,
            row <= rows,
            oy == (row as int) * (ch as int),
            forall|x: int, y: int, c: int|
                0 <= x < pw && 0 <= y < ph && 0 <= c < 4 ==> canvas.channel(x, y, c)
                    == spec_tiled_channel_upto(
                    rdata@,
                    rw as int,
                    rh as int,
                    cw as int,
                    ch as int,
                    gap as int,
                    rows as int,
                    cols as int,
                    row as int,
                    0,
                    x,
                    y,
                    c,
                ),
        decreases rows - row,
    {
        let mut col: u32 = 0;
        let mut ox: u64 = 0;
        while col < cols && ox < pw as u64
            invariant
                canvas.wf(),
                canvas.width == pw,
                canvas.height == ph,
                rdata@.len() == 4 * ((rw as int) * (rh as int)),
                1 <= rw <= cw,
                1 <= rh <= ch,
                stride == cw as int + gap as int,
                row < rows,
                oy == (row as int) * (ch as int),
                oy < ph,
                col <= cols,
                ox == (col as int) * (stride as int),
                forall|x: int, y: int, c: int|
                    0 <= x < pw && 0 <= y < ph && 0 <= c < 4 ==> canvas.channel(x, y, c)
                        == spec_tiled_channel_upto(
                        rdata@,
                        rw as int,
                        rh as int,
                        cw as int,
                        ch as int,
                        gap as int,
                        rows as int,
                        cols as int,
                        row as int,
                        col as int,
                        x,
                        y,
                        c,
                    ),
            decreases cols - col,
        {
            stamp_tile(canvas, rdata, rw, rh, ox, oy);
            proof {
                assert forall|x: int, y: int, c: int|
                    0 <= x < pw && 0 <= y < ph && 0 <= c < 4 implies canvas.channel(x, y, c)
                    == spec_tiled_channel_upto(
                    rdata@,
                    rw as int,
                    rh as int,
                    cw as int,
                    ch as int,
                    gap as int,
                    rows as int,
                    cols as int,
                    row as int,
                    col as int + 1,
                    x,
                    y,
                    c,
                ) by {
                    lemma_upto_stamp(
                        rdata@,
                        rw as int,
                        rh as int,
                        cw as int,
                        ch as int,
                        gap as int,
                        rows as int,
                        cols as int,
                        row as int,
                        col as int,
                        x,
                        y,
                        c,
                    );
                }
            }
            col = col + 1;
            proof {
                assert((col as int) * (stride as int) == (col as int - 1) * (stride as int)
                    + stride as int) by (nonlinear_arith);
            }
            ox = ox + stride;
        }
        proof {
            if col < cols {
                assert forall|x: int, y: int, c: int|
                    0 <= x < pw && 0 <= y < ph && 0 <= c < 4 implies spec_tiled_channel_upto(
                    rdata@,
                    rw as int,
                    rh as int,
                    cw as int,
                    ch as int,
                    gap as int,
                    rows as int,
                    cols as int,
                    row as int,
                    col as int,
                    x,
                    y,
                    c,
                ) == spec_tiled_channel_upto(
                    rdata@,
                    rw as int,
                    rh as int,
                    cw as int,
                    ch as int,
                    gap as int,
                    rows as int,
                    cols as int,
                    row as int,
                    cols as int,
                    x,
                    y,
                    c,
                ) by {
                    lemma_upto_col_clip(
                        rdata@,
                        rw as int,
                        rh as int,
                        cw as int,
                        ch as int,
                        gap as int,
                        rows as int,
                        cols as int,
                        row as int,
                        col as int,
                        pw as int,
                        x,
                        y,
                        c,
                    );
                }
            }
        }
        row = row + 1;
        proof {
            assert((row as int) * (ch as int) == (row as int - 1) * (ch as int) + ch as int)
                by (nonlinear_arith);
        }
        oy = oy + (ch as u64);
    }
    proof {
        if row < rows {
            assert forall|x: int, y: int, c: int|
                0 <= x < pw && 0 <= y < ph && 0 <= c < 4 implies spec_tiled_channel_upto(
                rdata@,
                rw as int,
                rh as int,
                cw as int,
                ch as int,
                gap as int,
                rows as int,
                cols as int,
                row as int,
                0,
                x,
                y,
                c,
            ) == spec_tiled_channel_upto(
                rdata@,
                rw as int,
                rh as int,
                cw as int,
                ch as int,
                gap as int,
                rows as int,
                cols as int,
                rows as int,
                0,
                x,
                y,
                c,
            ) by {
                lemma_upto_row_clip(
                    rdata@,
                    rw as int,
                    rh as int,
                    cw as int,
                    ch as int,
                    gap as int,
                    rows as int,
                    cols as int,
                    row as int,
                    ph as int,
                    x,
                    y,
                    c,
                );
            }
        }
    }
}

/// Lays out one page: converts the configured cell size to pixels, resizes
/// the source once, allocates the page canvas at the paper's converted
/// dimensions, and stamps the grid row by row, clipping every copy at the
/// page edge.
///
/// Returns `Err(LayoutError::InvalidDimensions)` exactly when the job is
/// not workable ([`spec_dims_ok`]): a converted dimension is zero or does
/// not fit the pixel type, or a buffer would not fit this machine. On
/// every other input it returns the finished page, each of whose channels
/// is pinned by [`spec_canvas_channel`].
pub fn process_image(config: &ImageConfig, paper: &PaperSize, source: &Raster) -> (r: Result<
    Raster,
    LayoutError,
>)
    requires
        source.wf(),
        source.width >= 1,
        source.height >= 1,
    ensures
        r is Err <==> !spec_dims_ok(*config, *paper, *source),
        r is Err ==> r == Err::<Raster, LayoutError>(LayoutError::InvalidDimensions),
        r is Ok ==> ({
            let out = r->Ok_0;
            &&& out.wf()
            &&& out.width as int == spec_paper_w_px(*config, *paper)
            &&& out.height as int == spec_paper_h_px(*config, *paper)
            &&& forall|x: int, y: int, c: int|
                0 <= x < out.width && 0 <= y < out.height && 0 <= c < 4 ==> out.channel(x, y, c)
                    == spec_canvas_channel(*config, *paper, *source, x, y, c)
        }),
{
    let (width_mm10, height_mm10) = config.size();
    let cell_w = match try_convert_mm_to_px(width_mm10, config.dpi) {
        Some(v) => v,
        None => { return Err(LayoutError::InvalidDimensions); },
    };
    let cell_h = match try_convert_mm_to_px(height_mm10, config.dpi) {
        Some(v) => v,
        None => { return Err(LayoutError::InvalidDimensions); },
    };
    let gap = match try_convert_mm_to_px(config.diff_mm10, config.dpi) {
        Some(v) => v,
        None => { return Err(LayoutError::InvalidDimensions); },
    };
    let (paper_w_mm10, paper_h_mm10) = paper.size(config.is_rotate);
    let paper_w = match try_convert_mm_to_px(paper_w_mm10, config.dpi) {
        Some(v) => v,
        None => { return Err(LayoutError::InvalidDimensions); },
    };
    let paper_h = match try_convert_mm_to_px(paper_h_mm10, config.dpi) {
        Some(v) => v,
        None => { return Err(LayoutError::InvalidDimensions); },
    };
    if cell_w == 0 || cell_h == 0 || paper_w == 0 || paper_h == 0 {
        return Err(LayoutError::InvalidDimensions);
    }
    proof {
        assert((cell_w as u128) * (cell_h as u128) <= 0xFFFF_FFFF * 0xFFFF_FFFFu128)
            by (nonlinear_arith)
            requires
                cell_w as u128 <= 0xFFFF_FFFFu128,
                cell_h as u128 <= 0xFFFF_FFFFu128;
        assert((paper_w as u128) * (paper_h as u128) <= 0xFFFF_FFFF * 0xFFFF_FFFFu128)
            by (nonlinear_arith)
            requires
                paper_w as u128 <= 0xFFFF_FFFFu128,
                paper_h as u128 <= 0xFFFF_FFFFu128;
        assert((source.width as u128) * (cell_h as u128) <= 0xFFFF_FFFF * 0xFFFF_FFFFu128)
            by (nonlinear_arith)
            requires
                source.width as u128 <= 0xFFFF_FFFFu128,
                cell_h as u128 <= 0xFFFF_FFFFu128;
    }
    let cell_area: u128 = 4 * ((cell_w as u128) * (cell_h as u128));
    if cell_area > usize::MAX as u128 {
        return Err(LayoutError::InvalidDimensions);
    }
    let page_area: u128 = 4 * ((paper_w as u128) * (paper_h as u128));
    if page_area > usize::MAX as u128 {
        return Err(LayoutError::InvalidDimensions);
    }
    let strip: u128 = 16 * ((source.width as u128) * (cell_h as u128));
    if strip > usize::MAX as u128 {
        return Err(LayoutError::InvalidDimensions);
    }
    assert(spec_dims_ok(*config, *paper, *source));
    let (resized_w, resized_h, resized_data): (u32, u32, Vec<u8>) = if config.is_aspect_ratio {
        resize_to_fit(&source.data, source.width, source.height, cell_w, cell_h)
    } else {
        let d = resize_to_exact(&source.data, source.width, source.height, cell_w, cell_h);
        (cell_w, cell_h, d)
    };
    let mut canvas = Raster::new_zeroed(paper_w, paper_h);
    stamp_grid(
        &mut canvas,
        &resized_data,
        resized_w,
        resized_h,
        cell_w,
        cell_h,
        gap,
        config.rows,
        config.cols,
    );
    Ok(canvas)
}

/// A byte position in a `w` by `h` RGBA buffer decomposes into a unique
/// channel position: `k = 4 * ((y * w) + x) + c` with `c = k % 4`,
/// `x = (k / 4) % w`, `y = (k / 4) / w`.
proof fn lemma_byte_index_decomposes(w: int, h: int, k: int)
    requires
        1 <= w,
        1 <= h,
        0 <= k < 4 * (w * h),
    ensures
        0 <= k % 4 < 4,
        0 <= (k / 4) % w < w,
        0 <= (k / 4) / w < h,
        k == 4 * ((((k / 4) / w) * w) + ((k / 4) % w)) + (k % 4),
{
    let q = k / 4;
    vstd::arithmetic::div_mod::lemma_fundamental_div_mod(k, 4);
    vstd::arithmetic::div_mod::lemma_mod_division_less_than_divisor(k, 4);
    vstd::arithmetic::div_mod::lemma_fundamental_div_mod(q, w);
    vstd::arithmetic::div_mod::lemma_mod_division_less_than_divisor(q, w);
    vstd::arithmetic::div_mod::lemma_div_pos_is_pos(k, 4);
    vstd::arithmetic::div_mod::lemma_div_pos_is_pos(q, w);
    vstd::arithmetic::mul::lemma_mul_is_commutative(w, q / w);
    assert(q < w * h) by (nonlinear_arith)
        requires
            0 <= k < 4 * (w * h),
            q == k / 4,
            k == 4 * q + k % 4,
            0 <= k % 4 < 4;
    vstd::arithmetic::div_mod::lemma_multiply_divide_lt(q, w, h);
}

/// The layout is deterministic: two finished pages whose dimensions and
/// channels satisfy the layout contract for the same configuration, paper
/// and source are identical down to the byte, so calling the engine twice
/// with identical inputs produces byte-identical canvases.
pub proof fn lemma_layout_deterministic(
    config: ImageConfig,
    paper: PaperSize,
    source: Raster,
    out1: Raster,
    out2: Raster,
)
    requires
        out1.wf(),
        out2.wf(),
        out1.width as int == spec_paper_w_px(config, paper),
        out1.height as int == spec_paper_h_px(config, paper),
        out2.width as int == spec_paper_w_px(config, paper),
        out2.height as int == spec_paper_h_px(config, paper),
        1 <= out1.width,
        1 <= out1.height,
        forall|x: int, y: int, c: int|
            0 <= x < out1.width && 0 <= y < out1.height && 0 <= c < 4 ==> out1.channel(x, y, c)
                == spec_canvas_channel(config, paper, source, x, y, c),
        forall|x: int, y: int, c: int|
            0 <= x < out2.width && 0 <= y < out2.height && 0 <= c < 4 ==> out2.channel(x, y, c)
                == spec_canvas_channel(config, paper, source, x, y, c),
    ensures
        out1.width == out2.width,
        out1.height == out2.height,
        out1.data@ == out2.data@,
{
    let w = out1.width as int;
    let h = out1.height as int;
    assert forall|k: int| 0 <= k < out1.data@.len() implies out1.data@[k] == out2.data@[k] by {
        lemma_byte_index_decomposes(w, h, k);
        let c = k % 4;
        let x = (k / 4) % w;
        let y = (k / 4) / w;
        assert(out1.channel(x, y, c) == spec_canvas_channel(config, paper, source, x, y, c));
        assert(out2.channel(x, y, c) == spec_canvas_channel(config, paper, source, x, y, c));
    }
    assert(out1.data@ =~= out2.data@);
}

/// With no rows or no columns there are no stamps at all: every channel of
/// the finished page keeps the zero-initialized background.
pub proof fn lemma_zero_grid(
    config: ImageConfig,
    paper: PaperSize,
    source: Raster,
    x: int,
    y: int,
    c: int,
)
    requires
        config.rows == 0 || config.cols == 0,
        spec_dims_ok(config, paper, source),
        0 <= x,
        0 <= y,
        0 <= c < 4,
    ensures
        spec_canvas_channel(config, paper, source, x, y, c) == 0,
{
    let stride = spec_cell_w_px(config) + spec_gap_px(config);
    vstd::arithmetic::div_mod::lemma_div_pos_is_pos(x, stride);
    vstd::arithmetic::div_mod::lemma_div_pos_is_pos(y, spec_cell_h_px(config));
}

/// Beyond the grid's last column or last row nothing is ever written: a
/// visible pixel at or past `cols` column strides (or `rows` row strides)
/// keeps the zero background, however large the grid was asked to be.
pub proof fn lemma_beyond_grid_blank(
    config: ImageConfig,
    paper: PaperSize,
    source: Raster,
    x: int,
    y: int,
    c: int,
)
    requires
        spec_dims_ok(config, paper, source),
        0 <= x,
        0 <= y,
        0 <= c < 4,
        x >= (config.cols as int) * (spec_cell_w_px(config) + spec_gap_px(config)) || y >= (
        config.rows as int) * spec_cell_h_px(config),
    ensures
        spec_canvas_channel(config, paper, source, x, y, c) == 0,
{
    let stride = spec_cell_w_px(config) + spec_gap_px(config);
    let ch = spec_cell_h_px(config);
    if x >= (config.cols as int) * stride {
        vstd::arithmetic::mul::lemma_mul_is_commutative(config.cols as int, stride);
        vstd::arithmetic::div_mod::lemma_div_is_ordered(
            (config.cols as int) * stride,
            x,
            stride,
        );
        vstd::arithmetic::div_mod::lemma_div_multiples_vanish(config.cols as int, stride);
    } else {
        vstd::arithmetic::mul::lemma_mul_is_commutative(config.rows as int, ch);
        vstd::arithmetic::div_mod::lemma_div_is_ordered((config.rows as int) * ch, y, ch);
        vstd::arithmetic::div_mod::lemma_div_multiples_vanish(config.rows as int, ch);
    }
}

/// Without aspect-ratio preservation the resized copy fills the cell box
/// exactly: its dimensions are the converted cell width and height.
pub proof fn lemma_stretch_fills_cell(config: ImageConfig, source: Raster)
    requires
        !config.is_aspect_ratio,
    ensures
        spec_resized(config, source).0 == spec_cell_w_px(config),
        spec_resized(config, source).1 == spec_cell_h_px(config),
{
}

} // verus!
