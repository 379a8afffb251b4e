//! Glyph coverage masks and the way they are painted into a pixel buffer.
//!
//! A rasteriser turns each character of a line into a [`PlacedGlyph`]: a
//! position and a list of cells, each with the share of the cell that the
//! glyph's ink covers.  The position is counted from the line's own origin:
//! a line is shaped by itself, and painting alone puts it in its place, at
//! the text's position and as many line advances below it as the line has
//! lines before it.  Painting decides from the coverage alone which colour a
//! cell takes, and drops every cell that falls outside the buffer.
//!
//! Coverage is carried as the bit pattern of an IEEE 754 single-precision
//! number.  For numbers that are not negative the order of the bit patterns
//! is the order of the numbers, so a threshold is tested on integers.

use crate::pixel::{
    col_of, is_transparent, lemma_cell_in_buffer, lemma_index_of_cell, TRANSPARENT,
};
use crate::ui::escape::{views, StyledChar};
use vstd::prelude::*;

verus! {

/// The bit pattern of 0.65: above it a cell is the core of a glyph.
pub const CORE_COVERAGE: u32 = 0x3F26_6666;

/// The bit pattern of 0.45: above it, and up to the core threshold, a cell
/// is the soft edge of a glyph.
pub const EDGE_COVERAGE: u32 = 0x3EE6_6666;

/// The bit pattern of positive infinity.  Patterns above it are not numbers
/// or are negative, and exceed no threshold.
pub const INFINITE_COVERAGE: u32 = 0x7F80_0000;

/// The largest offset, in either direction, by which painting shifts a glyph.
pub const SHIFT_LIMIT: i128 = 0x1_0000_0000_0000_0000_0000_0000;

/// One cell of a glyph's mask: its place inside the glyph's bounding box and
/// the coverage that the rasteriser measured there.
#[derive(Clone, Copy, Debug, PartialEq, Eq, Structural)]
pub struct GlyphCell {
    pub x: u32,
    pub y: u32,
    pub coverage: u32,
}

/// A glyph as the rasteriser laid it out: the top left corner of its
/// bounding box, counted in rows and columns from the origin of its line,
/// and the cells of its mask in the order in which they were produced.
/// `missing` marks a character that the font has no glyph for.
#[derive(Clone, Debug)]
pub struct PlacedGlyph {
    pub missing: bool,
    pub min_y: i32,
    pub min_x: i32,
    pub cells: Vec<GlyphCell>,
}

/// The colours that a glyph is painted with, and what becomes of a cell that
/// the glyph does not cover: with `clear` it is reset to transparent, as a
/// private text buffer needs, without it the cell is left as it is.
#[derive(Clone, Copy, Debug)]
pub struct Brush {
    pub primary: u32,
    pub secondary: Option<u32>,
    pub clear: bool,
}

/// The coverage is a number greater than the threshold.
pub open spec fn exceeds(coverage: u32, threshold: u32) -> bool {
    threshold < coverage <= INFINITE_COVERAGE
}

/// The colour that a cell of the given coverage takes, if it takes one: the
/// primary colour in the core of a glyph, the secondary colour on its edge
/// where one is configured, and none below that.
pub open spec fn ink_for(coverage: u32, brush: Brush) -> Option<u32> {
    if exceeds(coverage, CORE_COVERAGE) {
        Some(brush.primary)
    } else if exceeds(coverage, EDGE_COVERAGE) {
        brush.secondary
    } else {
        None
    }
}

/// The pixel that a cell holding `under` shows once a glyph cell of the
/// given coverage has been painted on it.
pub open spec fn inked(under: u32, coverage: u32, brush: Brush) -> u32 {
    match ink_for(coverage, brush) {
        Some(color) => color,
        None => if brush.clear {
            TRANSPARENT
        } else {
            under
        },
    }
}

/// The buffer after one glyph cell has been painted at `(row, col)`.  A cell
/// outside the `size_y` by `size_x` of the buffer is dropped.
pub open spec fn paint_cell(
    buf: Seq<u32>,
    size_y: int,
    size_x: int,
    row: int,
    col: int,
    coverage: u32,
    brush: Brush,
) -> Seq<u32> {
    if 0 <= row < size_y && 0 <= col < size_x {
        buf.update(row * size_x + col, inked(buf[row * size_x + col], coverage, brush))
    } else {
        buf
    }
}

/// The buffer after the first `n` cells of a glyph have been painted, the
/// glyph shifted by `(shift_y, shift_x)`.  Cells are painted in order, so
/// where two fall on one pixel the later one decides.
pub open spec fn paint_cells(
    buf: Seq<u32>,
    size_y: int,
    size_x: int,
    glyph: PlacedGlyph,
    n: nat,
    shift_y: int,
    shift_x: int,
    brush: Brush,
) -> Seq<u32>
    decreases n,
{
    if n == 0 {
        buf
    } else {
        let cell = glyph.cells@[n - 1];
        paint_cell(
            paint_cells(buf, size_y, size_x, glyph, (n - 1) as nat, shift_y, shift_x, brush),
            size_y,
            size_x,
            cell.y + glyph.min_y + shift_y,
            cell.x + glyph.min_x + shift_x,
            cell.coverage,
            brush,
        )
    }
}

/// The buffer after a whole glyph has been painted.  A missing glyph is
/// skipped.
pub open spec fn paint_glyph(
    buf: Seq<u32>,
    size_y: int,
    size_x: int,
    glyph: PlacedGlyph,
    shift_y: int,
    shift_x: int,
    brush: Brush,
) -> Seq<u32> {
    if glyph.missing {
        buf
    } else {
        paint_cells(buf, size_y, size_x, glyph, glyph.cells@.len(), shift_y, shift_x, brush)
    }
}

/// The buffer after the first `n` glyphs of a line have been painted, the
/// line's origin standing at `(origin_y, origin_x)` in the buffer.  The
/// glyph of the character at place `k` in the line takes that character's
/// colour and is moved right by `k` times `gap`.  A glyph without a
/// character is not painted.
pub open spec fn paint_line(
    buf: Seq<u32>,
    size_y: int,
    size_x: int,
    glyphs: Seq<PlacedGlyph>,
    chars: Seq<StyledChar>,
    n: nat,
    origin_y: int,
    origin_x: int,
    gap: int,
    secondary: Option<u32>,
    clear: bool,
) -> Seq<u32>
    decreases n,
{
    if n == 0 {
        buf
    } else {
        let k = n - 1;
        let before = paint_line(
            buf,
            size_y,
            size_x,
            glyphs,
            chars,
            k as nat,
            origin_y,
            origin_x,
            gap,
            secondary,
            clear,
        );
        if k < glyphs.len() && k < chars.len() {
            paint_glyph(
                before,
                size_y,
                size_x,
                glyphs[k],
                origin_y,
                origin_x + k * gap,
                Brush { primary: chars[k].color, secondary, clear },
            )
        } else {
            before
        }
    }
}

/// The buffer after the first `n` lines of a text have been painted.  Line
/// `l` has its origin `l` times `advance` rows below `pos_y`, at column
/// `pos_x`.  A line of glyphs without a line of characters is not painted.
pub open spec fn paint_text(
    buf: Seq<u32>,
    size_y: int,
    size_x: int,
    shaped: Seq<Vec<PlacedGlyph>>,
    lines: Seq<Seq<StyledChar>>,
    n: nat,
    pos_y: int,
    pos_x: int,
    advance: int,
    gap: int,
    secondary: Option<u32>,
    clear: bool,
) -> Seq<u32>
    decreases n,
{
    if n == 0 {
        buf
    } else {
        let l = n - 1;
        let before = paint_text(
            buf,
            size_y,
            size_x,
            shaped,
            lines,
            l as nat,
            pos_y,
            pos_x,
            advance,
            gap,
            secondary,
            clear,
        );
        if l < shaped.len() && l < lines.len() {
            paint_line(
                before,
                size_y,
                size_x,
                shaped[l]@,
                lines[l],
                shaped[l]@.len(),
                pos_y + l * advance,
                pos_x,
                gap,
                secondary,
                clear,
            )
        } else {
            before
        }
    }
}

/// Some glyph of the shaped text stands for a character that the font lacks.
pub open spec fn has_missing_glyph(shaped: Seq<Vec<PlacedGlyph>>) -> bool {
    exists|l: int, k: int|
        0 <= l < shaped.len() && 0 <= k < shaped[l]@.len() && (#[trigger] shaped[l]@[k]).missing
}

/// The lines of a text step by the line advance, once: where the lines before
/// line `k` hold no glyphs, painting the text down to line `k` gives what
/// painting line `k` alone, as a text of one line, gives `k` advances lower.
pub proof fn lemma_line_lies_its_advances_lower(
    buf: Seq<u32>,
    size_y: int,
    size_x: int,
    shaped: Seq<Vec<PlacedGlyph>>,
    lines: Seq<Seq<StyledChar>>,
    k: nat,
    pos_y: int,
    pos_x: int,
    advance: int,
    gap: int,
    secondary: Option<u32>,
    clear: bool,
)
    requires
        k < shaped.len(),
        k < lines.len(),
        forall|l: int| 0 <= l < k ==> (#[trigger] shaped[l])@.len() == 0,
    ensures
        paint_text(
            buf,
            size_y,
            size_x,
            shaped,
            lines,
            k + 1,
            pos_y,
            pos_x,
            advance,
            gap,
            secondary,
            clear,
        ) == paint_text(
            buf,
            size_y,
            size_x,
            seq![shaped[k as int]],
            seq![lines[k as int]],
            1,
            pos_y + k * advance,
            pos_x,
            advance,
            gap,
            secondary,
            clear,
        ),
{
    lemma_blank_lines_paint_nothing(
        buf,
        size_y,
        size_x,
        shaped,
        lines,
        k,
        pos_y,
        pos_x,
        advance,
        gap,
        secondary,
        clear,
    );
    let alone = seq![shaped[k as int]];
    let text = seq![lines[k as int]];
    assert(paint_text(
        buf,
        size_y,
        size_x,
        alone,
        text,
        0,
        pos_y + k * advance,
        pos_x,
        advance,
        gap,
        secondary,
        clear,
    ) == buf);
    assert(0 * advance == 0) by (nonlinear_arith);
    assert(alone[0] == shaped[k as int] && text[0] == lines[k as int]);
}

/// Lines that hold no glyphs leave the buffer as it is.
pub proof fn lemma_blank_lines_paint_nothing(
    buf: Seq<u32>,
    size_y: int,
    size_x: int,
    shaped: Seq<Vec<PlacedGlyph>>,
    lines: Seq<Seq<StyledChar>>,
    n: nat,
    pos_y: int,
    pos_x: int,
    advance: int,
    gap: int,
    secondary: Option<u32>,
    clear: bool,
)
    requires
        n <= shaped.len(),
        forall|l: int| 0 <= l < n ==> (#[trigger] shaped[l])@.len() == 0,
    ensures
        paint_text(
            buf,
            size_y,
            size_x,
            shaped,
            lines,
            n,
            pos_y,
            pos_x,
            advance,
            gap,
            secondary,
            clear,
        ) == buf,
    decreases n,
{
    if n > 0 {
        lemma_blank_lines_paint_nothing(
            buf,
            size_y,
            size_x,
            shaped,
            lines,
            (n - 1) as nat,
            pos_y,
            pos_x,
            advance,
            gap,
            secondary,
            clear,
        );
    }
}

/// Cell `j` of the glyph, the glyph shifted by `(shift_y, shift_x)`, falls on
/// the pixel at index `at` of the buffer.
pub open spec fn lands_on(
    glyph: PlacedGlyph,
    j: int,
    shift_y: int,
    shift_x: int,
    size_y: int,
    size_x: int,
    at: int,
) -> bool {
    let row = glyph.cells@[j].y + glyph.min_y + shift_y;
    let col = glyph.cells@[j].x + glyph.min_x + shift_x;
    0 <= row < size_y && 0 <= col < size_x && row * size_x + col == at
}

/// No cell of the glyph from place `from` on falls on the pixel at `at`.
pub open spec fn cells_miss(
    glyph: PlacedGlyph,
    from: int,
    shift_y: int,
    shift_x: int,
    size_y: int,
    size_x: int,
    at: int,
) -> bool {
    forall|j: int|
        from <= j < glyph.cells@.len() ==> !#[trigger] lands_on(
            glyph,
            j,
            shift_y,
            shift_x,
            size_y,
            size_x,
            at,
        )
}

/// Painting the glyph does not touch the pixel at `at`.
pub open spec fn glyph_misses(
    glyph: PlacedGlyph,
    shift_y: int,
    shift_x: int,
    size_y: int,
    size_x: int,
    at: int,
) -> bool {
    glyph.missing || cells_miss(glyph, 0, shift_y, shift_x, size_y, size_x, at)
}

/// No glyph of the line from place `from` on touches the pixel at `at`.
pub open spec fn glyphs_miss(
    glyphs: Seq<PlacedGlyph>,
    chars: Seq<StyledChar>,
    from: int,
    origin_y: int,
    origin_x: int,
    gap: int,
    size_y: int,
    size_x: int,
    at: int,
) -> bool {
    forall|k: int|
        from <= k < glyphs.len() && k < chars.len() ==> glyph_misses(
            #[trigger] glyphs[k],
            origin_y,
            origin_x + k * gap,
            size_y,
            size_x,
            at,
        )
}

/// No line of the text from line `from` on touches the pixel at `at`.
pub open spec fn lines_miss(
    shaped: Seq<Vec<PlacedGlyph>>,
    lines: Seq<Seq<StyledChar>>,
    from: int,
    pos_y: int,
    pos_x: int,
    advance: int,
    gap: int,
    size_y: int,
    size_x: int,
    at: int,
) -> bool {
    forall|l: int|
        from <= l < shaped.len() && l < lines.len() ==> glyphs_miss(
            (#[trigger] shaped[l])@,
            lines[l],
            0,
            pos_y + l * advance,
            pos_x,
            gap,
            size_y,
            size_x,
            at,
        )
}

/// Painting cells leaves the buffer as long as it was.
pub proof fn lemma_cells_keep_length(
    buf: Seq<u32>,
    size_y: int,
    size_x: int,
    glyph: PlacedGlyph,
    n: nat,
    shift_y: int,
    shift_x: int,
    brush: Brush,
)
    requires
        buf.len() == size_y * size_x,
        n <= glyph.cells@.len(),
    ensures
        paint_cells(buf, size_y, size_x, glyph, n, shift_y, shift_x, brush).len() == buf.len(),
    decreases n,
{
    if n > 0 {
        lemma_cells_keep_length(
            buf,
            size_y,
            size_x,
            glyph,
            (n - 1) as nat,
            shift_y,
            shift_x,
            brush,
        );
        let cell = glyph.cells@[n - 1];
        let row = cell.y + glyph.min_y + shift_y;
        let col = cell.x + glyph.min_x + shift_x;
        if 0 <= row < size_y && 0 <= col < size_x {
            lemma_cell_in_buffer(row, col, size_x, size_y);
        }
    }
}

/// Painting a line leaves the buffer as long as it was.
pub proof fn lemma_line_keeps_length(
    buf: Seq<u32>,
    size_y: int,
    size_x: int,
    glyphs: Seq<PlacedGlyph>,
    chars: Seq<StyledChar>,
    n: nat,
    origin_y: int,
    origin_x: int,
    gap: int,
    secondary: Option<u32>,
    clear: bool,
)
    requires
        buf.len() == size_y * size_x,
    ensures
        paint_line(
            buf,
            size_y,
            size_x,
            glyphs,
            chars,
            n,
            origin_y,
            origin_x,
            gap,
            secondary,
            clear,
        ).len() == buf.len(),
    decreases n,
{
    if n > 0 {
        let k = n - 1;
        lemma_line_keeps_length(
            buf,
            size_y,
            size_x,
            glyphs,
            chars,
            k as nat,
            origin_y,
            origin_x,
            gap,
            secondary,
            clear,
        );
        if k < glyphs.len() && k < chars.len() {
            lemma_cells_keep_length(
                paint_line(
                    buf,
                    size_y,
                    size_x,
                    glyphs,
                    chars,
                    k as nat,
                    origin_y,
                    origin_x,
                    gap,
                    secondary,
                    clear,
                ),
                size_y,
                size_x,
                glyphs[k],
                glyphs[k].cells@.len(),
                origin_y,
                origin_x + k * gap,
                Brush { primary: chars[k].color, secondary, clear },
            );
        }
    }
}

/// Painting a text leaves the buffer as long as it was.
pub proof fn lemma_text_keeps_length(
    buf: Seq<u32>,
    size_y: int,
    size_x: int,
    shaped: Seq<Vec<PlacedGlyph>>,
    lines: Seq<Seq<StyledChar>>,
    n: nat,
    pos_y: int,
    pos_x: int,
    advance: int,
    gap: int,
    secondary: Option<u32>,
    clear: bool,
)
    requires
        buf.len() == size_y * size_x,
    ensures
        paint_text(
            buf,
            size_y,
            size_x,
            shaped,
            lines,
            n,
            pos_y,
            pos_x,
            advance,
            gap,
            secondary,
            clear,
        ).len() == buf.len(),
    decreases n,
{
    if n > 0 {
        let l = n - 1;
        lemma_text_keeps_length(
            buf,
            size_y,
            size_x,
            shaped,
            lines,
            l as nat,
            pos_y,
            pos_x,
            advance,
            gap,
            secondary,
            clear,
        );
        if l < shaped.len() && l < lines.len() {
            lemma_line_keeps_length(
                paint_text(
                    buf,
                    size_y,
                    size_x,
                    shaped,
                    lines,
                    l as nat,
                    pos_y,
                    pos_x,
                    advance,
                    gap,
                    secondary,
                    clear,
                ),
                size_y,
                size_x,
                shaped[l]@,
                lines[l],
                shaped[l]@.len(),
                pos_y + l * advance,
                pos_x,
                gap,
                secondary,
                clear,
            );
        }
    }
}

/// Cells that do not fall on a pixel leave it as the cells before them left
/// it.
pub proof fn lemma_later_cells_keep(
    buf: Seq<u32>,
    size_y: int,
    size_x: int,
    glyph: PlacedGlyph,
    from: nat,
    n: nat,
    shift_y: int,
    shift_x: int,
    brush: Brush,
    at: int,
)
    requires
        buf.len() == size_y * size_x,
        0 <= at < buf.len(),
        from <= n <= glyph.cells@.len(),
        cells_miss(glyph, from as int, shift_y, shift_x, size_y, size_x, at),
    ensures
        paint_cells(buf, size_y, size_x, glyph, n, shift_y, shift_x, brush)[at] == paint_cells(
            buf,
            size_y,
            size_x,
            glyph,
            from,
            shift_y,
            shift_x,
            brush,
        )[at],
    decreases n,
{
    if n > from {
        lemma_later_cells_keep(
            buf,
            size_y,
            size_x,
            glyph,
            from,
            (n - 1) as nat,
            shift_y,
            shift_x,
            brush,
            at,
        );
        lemma_cells_keep_length(
            buf,
            size_y,
            size_x,
            glyph,
            (n - 1) as nat,
            shift_y,
            shift_x,
            brush,
        );
        assert(!lands_on(glyph, n - 1, shift_y, shift_x, size_y, size_x, at));
        let cell = glyph.cells@[n - 1];
        let row = cell.y + glyph.min_y + shift_y;
        let col = cell.x + glyph.min_x + shift_x;
        if 0 <= row < size_y && 0 <= col < size_x {
            lemma_cell_in_buffer(row, col, size_x, size_y);
        }
    }
}

/// The last cell of a glyph that falls on a pixel decides it: the pixel
/// shows what that cell's coverage makes of it.
pub proof fn lemma_last_cell_decides(
    buf: Seq<u32>,
    size_y: int,
    size_x: int,
    glyph: PlacedGlyph,
    j: nat,
    shift_y: int,
    shift_x: int,
    brush: Brush,
    at: int,
)
    requires
        buf.len() == size_y * size_x,
        j < glyph.cells@.len(),
        lands_on(glyph, j as int, shift_y, shift_x, size_y, size_x, at),
        cells_miss(glyph, j as int + 1, shift_y, shift_x, size_y, size_x, at),
    ensures
        0 <= at < buf.len(),
        paint_cells(
            buf,
            size_y,
            size_x,
            glyph,
            glyph.cells@.len(),
            shift_y,
            shift_x,
            brush,
        )[at] == inked(
            paint_cells(buf, size_y, size_x, glyph, j, shift_y, shift_x, brush)[at],
            glyph.cells@[j as int].coverage,
            brush,
        ),
{
    let cell = glyph.cells@[j as int];
    lemma_cell_in_buffer(
        cell.y + glyph.min_y + shift_y,
        cell.x + glyph.min_x + shift_x,
        size_x,
        size_y,
    );
    lemma_cells_keep_length(buf, size_y, size_x, glyph, j, shift_y, shift_x, brush);
    assert(paint_cells(buf, size_y, size_x, glyph, j + 1, shift_y, shift_x, brush)[at] == inked(
        paint_cells(buf, size_y, size_x, glyph, j, shift_y, shift_x, brush)[at],
        cell.coverage,
        brush,
    ));
    lemma_later_cells_keep(
        buf,
        size_y,
        size_x,
        glyph,
        j + 1,
        glyph.cells@.len(),
        shift_y,
        shift_x,
        brush,
        at,
    );
}

/// Glyphs that do not touch a pixel leave it as the glyphs before them left
/// it.
pub proof fn lemma_later_glyphs_keep(
    buf: Seq<u32>,
    size_y: int,
    size_x: int,
    glyphs: Seq<PlacedGlyph>,
    chars: Seq<StyledChar>,
    from: nat,
    n: nat,
    origin_y: int,
    origin_x: int,
    gap: int,
    secondary: Option<u32>,
    clear: bool,
    at: int,
)
    requires
        buf.len() == size_y * size_x,
        0 <= at < buf.len(),
        from <= n <= glyphs.len(),
        glyphs_miss(glyphs, chars, from as int, origin_y, origin_x, gap, size_y, size_x, at),
    ensures
        paint_line(
            buf,
            size_y,
            size_x,
            glyphs,
            chars,
            n,
            origin_y,
            origin_x,
            gap,
            secondary,
            clear,
        )[at] == paint_line(
            buf,
            size_y,
            size_x,
            glyphs,
            chars,
            from,
            origin_y,
            origin_x,
            gap,
            secondary,
            clear,
        )[at],
    decreases n,
{
    if n > from {
        let k = n - 1;
        lemma_later_glyphs_keep(
            buf,
            size_y,
            size_x,
            glyphs,
            chars,
            from,
            k as nat,
            origin_y,
            origin_x,
            gap,
            secondary,
            clear,
            at,
        );
        if k < chars.len() {
            let before = paint_line(
                buf,
                size_y,
                size_x,
                glyphs,
                chars,
                k as nat,
                origin_y,
                origin_x,
                gap,
                secondary,
                clear,
            );
            lemma_line_keeps_length(
                buf,
                size_y,
                size_x,
                glyphs,
                chars,
                k as nat,
                origin_y,
                origin_x,
                gap,
                secondary,
                clear,
            );
            assert(glyph_misses(glyphs[k], origin_y, origin_x + k * gap, size_y, size_x, at));
            if !glyphs[k].missing {
                lemma_later_cells_keep(
                    before,
                    size_y,
                    size_x,
                    glyphs[k],
                    0,
                    glyphs[k].cells@.len(),
                    origin_y,
                    origin_x + k * gap,
                    Brush { primary: chars[k].color, secondary, clear },
                    at,
                );
            }
        }
    }
}

/// Lines that do not touch a pixel leave it as the lines before them left
/// it.
pub proof fn lemma_later_lines_keep(
    buf: Seq<u32>,
    size_y: int,
    size_x: int,
    shaped: Seq<Vec<PlacedGlyph>>,
    lines: Seq<Seq<StyledChar>>,
    from: nat,
    n: nat,
    pos_y: int,
    pos_x: int,
    advance: int,
    gap: int,
    secondary: Option<u32>,
    clear: bool,
    at: int,
)
    requires
        buf.len() == size_y * size_x,
        0 <= at < buf.len(),
        from <= n <= shaped.len(),
        lines_miss(shaped, lines, from as int, pos_y, pos_x, advance, gap, size_y, size_x, at),
    ensures
        paint_text(
            buf,
            size_y,
            size_x,
            shaped,
            lines,
            n,
            pos_y,
            pos_x,
            advance,
            gap,
            secondary,
            clear,
        )[at] == paint_text(
            buf,
            size_y,
            size_x,
            shaped,
            lines,
            from,
            pos_y,
            pos_x,
            advance,
            gap,
            secondary,
            clear,
        )[at],
    decreases n,
{
    if n > from {
        let l = n - 1;
        lemma_later_lines_keep(
            buf,
            size_y,
            size_x,
            shaped,
            lines,
            from,
            l as nat,
            pos_y,
            pos_x,
            advance,
            gap,
            secondary,
            clear,
            at,
        );
        if l < lines.len() {
            let before = paint_text(
                buf,
                size_y,
                size_x,
                shaped,
                lines,
                l as nat,
                pos_y,
                pos_x,
                advance,
                gap,
                secondary,
                clear,
            );
            lemma_text_keeps_length(
                buf,
                size_y,
                size_x,
                shaped,
                lines,
                l as nat,
                pos_y,
                pos_x,
                advance,
                gap,
                secondary,
                clear,
            );
            assert(glyphs_miss(
                shaped[l]@,
                lines[l],
                0,
                pos_y + l * advance,
                pos_x,
                gap,
                size_y,
                size_x,
                at,
            ));
            lemma_later_glyphs_keep(
                before,
                size_y,
                size_x,
                shaped[l]@,
                lines[l],
                0,
                shaped[l]@.len(),
                pos_y + l * advance,
                pos_x,
                gap,
                secondary,
                clear,
                at,
            );
        }
    }
}

/// A cell in the core of a glyph shows in the painted text, in the colour of
/// its character, unless a later cell, glyph or line falls on the same
/// pixel.
pub proof fn lemma_core_cell_shows(
    buf: Seq<u32>,
    size_y: int,
    size_x: int,
    shaped: Seq<Vec<PlacedGlyph>>,
    lines: Seq<Seq<StyledChar>>,
    l: nat,
    k: nat,
    j: nat,
    pos_y: int,
    pos_x: int,
    advance: int,
    gap: int,
    secondary: Option<u32>,
    clear: bool,
    at: int,
)
    requires
        buf.len() == size_y * size_x,
        l < shaped.len(),
        l < lines.len(),
        k < shaped[l as int]@.len(),
        k < lines[l as int].len(),
        !shaped[l as int]@[k as int].missing,
        j < shaped[l as int]@[k as int].cells@.len(),
        exceeds(shaped[l as int]@[k as int].cells@[j as int].coverage, CORE_COVERAGE),
        lands_on(
            shaped[l as int]@[k as int],
            j as int,
            pos_y + l * advance,
            pos_x + k * gap,
            size_y,
            size_x,
            at,
        ),
        cells_miss(
            shaped[l as int]@[k as int],
            j as int + 1,
            pos_y + l * advance,
            pos_x + k * gap,
            size_y,
            size_x,
            at,
        ),
        glyphs_miss(
            shaped[l as int]@,
            lines[l as int],
            k as int + 1,
            pos_y + l * advance,
            pos_x,
            gap,
            size_y,
            size_x,
            at,
        ),
        lines_miss(
            shaped,
            lines,
            l as int + 1,
            pos_y,
            pos_x,
            advance,
            gap,
            size_y,
            size_x,
            at,
        ),
    ensures
        0 <= at < buf.len(),
        paint_text(
            buf,
            size_y,
            size_x,
            shaped,
            lines,
            shaped.len(),
            pos_y,
            pos_x,
            advance,
            gap,
            secondary,
            clear,
        )[at] == lines[l as int][k as int].color,
{
    let glyphs = shaped[l as int]@;
    let chars = lines[l as int];
    let glyph = glyphs[k as int];
    let origin_y = pos_y + l * advance;
    let brush = Brush { primary: chars[k as int].color, secondary, clear };
    let text_before = paint_text(
        buf,
        size_y,
        size_x,
        shaped,
        lines,
        l,
        pos_y,
        pos_x,
        advance,
        gap,
        secondary,
        clear,
    );
    lemma_text_keeps_length(
        buf,
        size_y,
        size_x,
        shaped,
        lines,
        l,
        pos_y,
        pos_x,
        advance,
        gap,
        secondary,
        clear,
    );
    let line_before = paint_line(
        text_before,
        size_y,
        size_x,
        glyphs,
        chars,
        k,
        origin_y,
        pos_x,
        gap,
        secondary,
        clear,
    );
    lemma_line_keeps_length(
        text_before,
        size_y,
        size_x,
        glyphs,
        chars,
        k,
        origin_y,
        pos_x,
        gap,
        secondary,
        clear,
    );
    lemma_last_cell_decides(
        line_before,
        size_y,
        size_x,
        glyph,
        j,
        origin_y,
        pos_x + k * gap,
        brush,
        at,
    );
    assert(paint_line(
        text_before,
        size_y,
        size_x,
        glyphs,
        chars,
        k + 1,
        origin_y,
        pos_x,
        gap,
        secondary,
        clear,
    )[at] == brush.primary);
    lemma_later_glyphs_keep(
        text_before,
        size_y,
        size_x,
        glyphs,
        chars,
        k + 1,
        glyphs.len(),
        origin_y,
        pos_x,
        gap,
        secondary,
        clear,
        at,
    );
    assert(paint_text(
        buf,
        size_y,
        size_x,
        shaped,
        lines,
        l + 1,
        pos_y,
        pos_x,
        advance,
        gap,
        secondary,
        clear,
    )[at] == brush.primary);
    lemma_later_lines_keep(
        buf,
        size_y,
        size_x,
        shaped,
        lines,
        l + 1,
        shaped.len(),
        pos_y,
        pos_x,
        advance,
        gap,
        secondary,
        clear,
        at,
    );
}

/// No pixel of the buffer left of column `bound` shows.
pub open spec fn blank_left_of(buf: Seq<u32>, size_x: int, bound: int) -> bool {
    forall|i: int|
        0 <= i < buf.len() && col_of(i, size_x) < bound ==> is_transparent(#[trigger] buf[i])
}

/// Every glyph of the shaped text has its bounding box at or right of the
/// point at which its line was laid out.
pub open spec fn no_left_overhang(shaped: Seq<Vec<PlacedGlyph>>) -> bool {
    forall|l: int, k: int|
        0 <= l < shaped.len() && 0 <= k < shaped[l]@.len() ==> (#[trigger] shaped[l]@[k]).min_x
            >= 0
}

/// Painting a glyph that is shifted to column `bound` or beyond, and that
/// does not hang over to the left, leaves no ink left of `bound`.
pub proof fn lemma_cells_leave_left_blank(
    buf: Seq<u32>,
    size_y: int,
    size_x: int,
    glyph: PlacedGlyph,
    n: nat,
    shift_y: int,
    shift_x: int,
    brush: Brush,
    bound: int,
)
    requires
        buf.len() == size_y * size_x,
        n <= glyph.cells@.len(),
        glyph.min_x >= 0,
        shift_x >= bound,
        blank_left_of(buf, size_x, bound),
    ensures
        paint_cells(buf, size_y, size_x, glyph, n, shift_y, shift_x, brush).len() == buf.len(),
        blank_left_of(
            paint_cells(buf, size_y, size_x, glyph, n, shift_y, shift_x, brush),
            size_x,
            bound,
        ),
    decreases n,
{
    if n > 0 {
        lemma_cells_leave_left_blank(
            buf,
            size_y,
            size_x,
            glyph,
            (n - 1) as nat,
            shift_y,
            shift_x,
            brush,
            bound,
        );
        let cell = glyph.cells@[n - 1];
        let row = cell.y + glyph.min_y + shift_y;
        let col = cell.x + glyph.min_x + shift_x;
        if 0 <= row < size_y && 0 <= col < size_x {
            lemma_cell_in_buffer(row, col, size_x, size_y);
            lemma_index_of_cell(row, col, size_x);
        }
    }
}

/// A line that is laid out at column `bound` or beyond, with glyphs that do
/// not hang over to the left, leaves no ink left of `bound`.
pub proof fn lemma_line_leaves_left_blank(
    buf: Seq<u32>,
    size_y: int,
    size_x: int,
    glyphs: Seq<PlacedGlyph>,
    chars: Seq<StyledChar>,
    n: nat,
    origin_y: int,
    origin_x: int,
    gap: int,
    secondary: Option<u32>,
    clear: bool,
    bound: int,
)
    requires
        buf.len() == size_y * size_x,
        forall|k: int| 0 <= k < glyphs.len() ==> (#[trigger] glyphs[k]).min_x >= 0,
        origin_x >= bound,
        gap >= 0,
        blank_left_of(buf, size_x, bound),
    ensures
        paint_line(
            buf,
            size_y,
            size_x,
            glyphs,
            chars,
            n,
            origin_y,
            origin_x,
            gap,
            secondary,
            clear,
        ).len() == buf.len(),
        blank_left_of(
            paint_line(
                buf,
                size_y,
                size_x,
                glyphs,
                chars,
                n,
                origin_y,
                origin_x,
                gap,
                secondary,
                clear,
            ),
            size_x,
            bound,
        ),
    decreases n,
{
    if n > 0 {
        let k = n - 1;
        lemma_line_leaves_left_blank(
            buf,
            size_y,
            size_x,
            glyphs,
            chars,
            k as nat,
            origin_y,
            origin_x,
            gap,
            secondary,
            clear,
            bound,
        );
        if k < glyphs.len() && k < chars.len() {
            let before = paint_line(
                buf,
                size_y,
                size_x,
                glyphs,
                chars,
                k as nat,
                origin_y,
                origin_x,
                gap,
                secondary,
                clear,
            );
            assert(k * gap >= 0) by (nonlinear_arith)
                requires
                    k >= 0,
                    gap >= 0,
            ;
            lemma_cells_leave_left_blank(
                before,
                size_y,
                size_x,
                glyphs[k],
                glyphs[k].cells@.len(),
                origin_y,
                origin_x + k * gap,
                Brush { primary: chars[k].color, secondary, clear },
                bound,
            );
        }
    }
}

/// A text that is laid out at column `pos_x`, with glyphs that do not hang
/// over to the left, leaves no ink left of `pos_x`.
pub proof fn lemma_text_leaves_left_blank(
    buf: Seq<u32>,
    size_y: int,
    size_x: int,
    shaped: Seq<Vec<PlacedGlyph>>,
    lines: Seq<Seq<StyledChar>>,
    n: nat,
    pos_y: int,
    pos_x: int,
    advance: int,
    gap: int,
    secondary: Option<u32>,
    clear: bool,
)
    requires
        buf.len() == size_y * size_x,
        no_left_overhang(shaped),
        gap >= 0,
        blank_left_of(buf, size_x, pos_x),
    ensures
        paint_text(
            buf,
            size_y,
            size_x,
            shaped,
            lines,
            n,
            pos_y,
            pos_x,
            advance,
            gap,
            secondary,
            clear,
        ).len() == buf.len(),
        blank_left_of(
            paint_text(
                buf,
                size_y,
                size_x,
                shaped,
                lines,
                n,
                pos_y,
                pos_x,
                advance,
                gap,
                secondary,
                clear,
            ),
            size_x,
            pos_x,
        ),
    decreases n,
{
    if n > 0 {
        let l = n - 1;
        lemma_text_leaves_left_blank(
            buf,
            size_y,
            size_x,
            shaped,
            lines,
            l as nat,
            pos_y,
            pos_x,
            advance,
            gap,
            secondary,
            clear,
        );
        if l < shaped.len() && l < lines.len() {
            let before = paint_text(
                buf,
                size_y,
                size_x,
                shaped,
                lines,
                l as nat,
                pos_y,
                pos_x,
                advance,
                gap,
                secondary,
                clear,
            );
            assert forall|k: int| 0 <= k < shaped[l]@.len() implies (#[trigger] shaped[l]@[k]).min_x
                >= 0 by {}
            lemma_line_leaves_left_blank(
                before,
                size_y,
                size_x,
                shaped[l]@,
                lines[l],
                shaped[l]@.len(),
                pos_y + l * advance,
                pos_x,
                gap,
                secondary,
                clear,
                pos_x,
            );
        }
    }
}

/// Chooses the colour of a cell from its coverage.
pub fn ink(coverage: u32, brush: Brush) -> (r: Option<u32>)
    ensures
        r == ink_for(coverage, brush),
{
    if coverage > INFINITE_COVERAGE {
        None
    } else if coverage > CORE_COVERAGE {
        Some(brush.primary)
    } else if coverage > EDGE_COVERAGE {
        brush.secondary
    } else {
        None
    }
}

/// Paints one glyph into `buffer`, which holds `size_y` rows of `size_x`
/// pixels.
pub fn draw_glyph(
    buffer: &mut Vec<u32>,
    size_y: usize,
    size_x: usize,
    glyph: &PlacedGlyph,
    shift_y: i128,
    shift_x: i128,
    brush: Brush,
)
    requires
        old(buffer)@.len() == size_y * size_x,
        -SHIFT_LIMIT <= shift_y <= SHIFT_LIMIT,
        -SHIFT_LIMIT <= shift_x <= SHIFT_LIMIT,
    ensures
        final(buffer)@.len() == old(buffer)@.len(),
        final(buffer)@ == paint_glyph(
            old(buffer)@,
            size_y as int,
            size_x as int,
            *glyph,
            shift_y as int,
            shift_x as int,
            brush,
        ),
{
    if glyph.missing {
        return ;
    }
    let len = buffer.len();
    let mut n: usize = 0;
    while n < glyph.cells.len()
        invariant
            n <= glyph.cells@.len(),
            buffer@.len() == size_y * size_x,
            buffer@.len() == len,
            -SHIFT_LIMIT <= shift_y <= SHIFT_LIMIT,
            -SHIFT_LIMIT <= shift_x <= SHIFT_LIMIT,
            buffer@ == paint_cells(
                old(buffer)@,
                size_y as int,
                size_x as int,
                *glyph,
                n as nat,
                shift_y as int,
                shift_x as int,
                brush,
            ),
        decreases glyph.cells@.len() - n,
    {
        let cell = glyph.cells[n];
        let row: i128 = cell.y as i128 + glyph.min_y as i128 + shift_y;
        let col: i128 = cell.x as i128 + glyph.min_x as i128 + shift_x;
        if 0 <= row && row < size_y as i128 && 0 <= col && col < size_x as i128 {
            proof {
                lemma_cell_in_buffer(row as int, col as int, size_x as int, size_y as int);
            }
            let at = (row as usize) * size_x + (col as usize);
            let pixel = match ink(cell.coverage, brush) {
                Some(color) => color,
                None => if brush.clear {
                    TRANSPARENT
                } else {
                    buffer[at]
                },
            };
            buffer.set(at, pixel);
        }
        n += 1;
    }
}

/// Paints the glyphs of one line into `buffer`.
pub fn draw_line(
    buffer: &mut Vec<u32>,
    size_y: usize,
    size_x: usize,
    glyphs: &Vec<PlacedGlyph>,
    chars: &Vec<StyledChar>,
    origin_y: i128,
    origin_x: u16,
    gap: u8,
    secondary: Option<u32>,
    clear: bool,
)
    requires
        old(buffer)@.len() == size_y * size_x,
        -SHIFT_LIMIT <= origin_y <= SHIFT_LIMIT,
    ensures
        final(buffer)@.len() == old(buffer)@.len(),
        final(buffer)@ == paint_line(
            old(buffer)@,
            size_y as int,
            size_x as int,
            glyphs@,
            chars@,
            glyphs@.len(),
            origin_y as int,
            origin_x as int,
            gap as int,
            secondary,
            clear,
        ),
{
    let mut k: usize = 0;
    while k < glyphs.len()
        invariant
            k <= glyphs@.len(),
            buffer@.len() == size_y * size_x,
            -SHIFT_LIMIT <= origin_y <= SHIFT_LIMIT,
            buffer@ == paint_line(
                old(buffer)@,
                size_y as int,
                size_x as int,
                glyphs@,
                chars@,
                k as nat,
                origin_y as int,
                origin_x as int,
                gap as int,
                secondary,
                clear,
            ),
        decreases glyphs@.len() - k,
    {
        if k < chars.len() {
            assert(k * gap <= 0xffff_ffff_ffff_ffff * 0xff) by (nonlinear_arith)
                requires
                    0 <= k <= 0xffff_ffff_ffff_ffff,
                    0 <= gap <= 0xff,
            ;
            let shift_x: i128 = origin_x as i128 + (k as i128) * (gap as i128);
            draw_glyph(
                buffer,
                size_y,
                size_x,
                &glyphs[k],
                origin_y,
                shift_x,
                Brush { primary: chars[k].color, secondary, clear },
            );
        }
        k += 1;
    }
}

/// Paints the lines of a shaped text into `buffer`.
pub fn draw_text(
    buffer: &mut Vec<u32>,
    size_y: usize,
    size_x: usize,
    shaped: &Vec<Vec<PlacedGlyph>>,
    lines: &Vec<Vec<StyledChar>>,
    pos_y: u16,
    pos_x: u16,
    advance: u16,
    gap: u8,
    secondary: Option<u32>,
    clear: bool,
)
    requires
        old(buffer)@.len() == size_y * size_x,
    ensures
        final(buffer)@.len() == old(buffer)@.len(),
        final(buffer)@ == paint_text(
            old(buffer)@,
            size_y as int,
            size_x as int,
            shaped@,
            views(lines@),
            shaped@.len(),
            pos_y as int,
            pos_x as int,
            advance as int,
            gap as int,
            secondary,
            clear,
        ),
{
    let mut l: usize = 0;
    while l < shaped.len()
        invariant
            l <= shaped@.len(),
            buffer@.len() == size_y * size_x,
            buffer@ == paint_text(
                old(buffer)@,
                size_y as int,
                size_x as int,
                shaped@,
                views(lines@),
                l as nat,
                pos_y as int,
                pos_x as int,
                advance as int,
                gap as int,
                secondary,
                clear,
            ),
        decreases shaped@.len() - l,
    {
        if l < lines.len() {
            assert(l * advance <= 0xffff_ffff_ffff_ffff * 0xffff) by (nonlinear_arith)
                requires
                    0 <= l <= 0xffff_ffff_ffff_ffff,
                    0 <= advance <= 0xffff,
            ;
            let origin_y: i128 = pos_y as i128 + (l as i128) * (advance as i128);
            draw_line(
                buffer,
                size_y,
                size_x,
                &shaped[l],
                &lines[l],
                origin_y,
                pos_x,
                gap,
                secondary,
                clear,
            );
        }
        l += 1;
    }
}

/// Looks for a glyph that stands for a character the font lacks.
pub fn any_missing_glyph(shaped: &Vec<Vec<PlacedGlyph>>) -> (r: bool)
    ensures
        r == has_missing_glyph(shaped@),
{
    let mut l: usize = 0;
    while l < shaped.len()
        invariant
            l <= shaped@.len(),
            forall|i: int, k: int|
                0 <= i < l && 0 <= k < shaped@[i]@.len() ==> !(#[trigger] shaped@[i]@[k]).missing,
        decreases shaped@.len() - l,
    {
        let mut k: usize = 0;
        while k < shaped[l].len()
            invariant
                l < shaped@.len(),
                k <= shaped@[l as int]@.len(),
                forall|i: int, j: int|
                    0 <= i < l && 0 <= j < shaped@[i]@.len() ==> !(
                    #[trigger] shaped@[i]@[j]).missing,
                forall|j: int| 0 <= j < k ==> !(#[trigger] shaped@[l as int]@[j]).missing,
            decreases shaped@[l as int]@.len() - k,
        {
            if shaped[l][k].missing {
                return true;
            }
            k += 1;
        }
        l += 1;
    }
    false
}

} // verus!
