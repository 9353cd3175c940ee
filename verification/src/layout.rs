use vstd::prelude::*;

use crate::sampling::SAMPLES;

verus! {

/// Width of one colour strip, in pixels.
pub const BAR_W: u32 = 400;

/// Height of one colour strip, in pixels.
pub const BAR_H: u32 = 40;

/// Outer margin of the preview, in pixels.
pub const MARGIN: u32 = 40;

/// Gap between the light-theme and the dark-theme column, in pixels.
pub const COL_GAP: u32 = 48;

/// Vertical space for a row's caption above its strips, in pixels.
pub const CAPTION_H: u32 = 26;

/// Largest number of rows whose preview height fits in a `u32`.
pub const MAX_ROWS: u32 = 65_075_000;

/// Geometry of a palette preview: one row per curve, each row holding a
/// light-theme strip on the left and a dark-theme strip on the right, the
/// right half drawn on a dark background.
#[derive(Clone, Copy, Debug, PartialEq, Eq, Structural)]
pub struct PaletteLayout {
    /// Width of the whole picture.
    pub width: u32,
    /// Height of the whole picture.
    pub height: u32,
    /// Height of one row: a strip and its caption.
    pub row_h: u32,
    /// Left edge of the dark-theme column and of the dark background.
    pub dark_x: u32,
}

pub open spec fn spec_row_h() -> int {
    BAR_H + CAPTION_H
}

pub open spec fn spec_width() -> int {
    MARGIN * 2 + BAR_W * 2 + COL_GAP
}

pub open spec fn spec_dark_x() -> int {
    MARGIN + BAR_W + COL_GAP
}

pub open spec fn spec_height(rows: int) -> int {
    MARGIN + 4 + rows * spec_row_h()
}

/// Top edge of the strips of row `i`.
pub open spec fn spec_row_top(i: int) -> int {
    MARGIN + 12 + i * spec_row_h()
}

/// Left edge of a column: the light-theme column, or the dark-theme one.
pub open spec fn spec_column_left(dark: bool) -> int {
    if dark {
        spec_dark_x()
    } else {
        MARGIN as int
    }
}

/// The layout of a preview with `rows` rows.
pub fn palette_layout(rows: u32) -> (l: PaletteLayout)
    requires
        rows <= MAX_ROWS,
    ensures
        l.width == spec_width(),
        l.height == spec_height(rows as int),
        l.height == MARGIN + 4 + rows * (BAR_H + CAPTION_H),
        l.width == MARGIN * 2 + BAR_W * 2 + COL_GAP,
        l.row_h == BAR_H + CAPTION_H,
        l.dark_x == MARGIN + BAR_W + COL_GAP,
        l.row_h == spec_row_h(),
        l.dark_x == spec_dark_x(),
{
    let row_h: u32 = BAR_H + CAPTION_H;
    assert(rows * 66 <= 65_075_000 * 66) by (nonlinear_arith)
        requires
            rows <= 65_075_000,
    ;
    PaletteLayout {
        width: MARGIN * 2 + BAR_W * 2 + COL_GAP,
        height: MARGIN + 4 + rows * row_h,
        row_h,
        dark_x: MARGIN + BAR_W + COL_GAP,
    }
}

/// Top edge of the strips of row `i`; the row's caption sits just above.
pub fn row_top(i: u32) -> (y: u32)
    requires
        i < MAX_ROWS,
    ensures
        y == spec_row_top(i as int),
        y == MARGIN + 12 + i * (BAR_H + CAPTION_H),
{
    let row_h: u32 = BAR_H + CAPTION_H;
    assert(i * 66 <= 65_075_000 * 66) by (nonlinear_arith)
        requires
            i < 65_075_000,
    ;
    MARGIN + 12 + i * row_h
}

/// Left edge of the light-theme (`dark == false`) or dark-theme column.
pub fn column_left(dark: bool) -> (x: u32)
    ensures
        x == spec_column_left(dark),
{
    if dark {
        MARGIN + BAR_W + COL_GAP
    } else {
        MARGIN
    }
}

/// An empty preview is just its margins and heading line, and each row adds
/// exactly one strip and one caption to the height.
pub proof fn lemma_height_grows_by_rows(rows: int)
    requires
        0 <= rows,
    ensures
        spec_height(0) == MARGIN + 4,
        spec_height(rows + 1) == spec_height(rows) + BAR_H + CAPTION_H,
        spec_height(rows) == MARGIN + 4 + rows * (BAR_H + CAPTION_H),
        spec_row_top(rows + 1) == spec_row_top(rows) + BAR_H + CAPTION_H,
        spec_row_top(0) == MARGIN + 12,
{
}

/// The one-pixel swatches of a strip sampled at `SAMPLES` positions fill
/// the strip exactly.
pub proof fn lemma_samples_fill_strip()
    ensures
        SAMPLES == BAR_W,
{
}

/// Every swatch of every row lies inside the picture; a light-theme swatch
/// lies left of the dark background and a dark-theme swatch on it; the
/// caption line of a row lies below the strips of the row before it.
pub proof fn lemma_swatch_inside(rows: int, r: int, dark: bool, i: int)
    requires
        0 <= r < rows,
        0 <= i < SAMPLES,
    ensures
        0 <= spec_column_left(dark) + i,
        spec_column_left(dark) + i + 1 <= spec_width(),
        spec_row_top(r) + BAR_H <= spec_height(rows),
        !dark ==> spec_column_left(dark) + i + 1 <= spec_dark_x(),
        dark ==> spec_dark_x() <= spec_column_left(dark) + i,
        r > 0 ==> spec_row_top(r - 1) + BAR_H < spec_row_top(r) - 3,
        spec_row_top(r) - 3 > MARGIN,
{
    assert(spec_row_top(r) + BAR_H <= spec_height(rows)) by (nonlinear_arith)
        requires
            0 <= r < rows,
            spec_row_top(r) == MARGIN + 12 + r * 66,
            spec_height(rows) == MARGIN + 4 + rows * 66,
            BAR_H == 40,
    ;
    assert(spec_row_top(r) >= MARGIN + 12) by (nonlinear_arith)
        requires
            0 <= r,
            spec_row_top(r) == MARGIN + 12 + r * 66,
    ;
}

} // verus!
