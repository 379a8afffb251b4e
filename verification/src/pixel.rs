//! Packed `0xAARRGGBB` pixels and the row-major addressing of a pixel buffer.

use vstd::prelude::*;
use vstd::arithmetic::div_mod::lemma_fundamental_div_mod_converse;

verus! {

/// The fully transparent pixel, which a masked copy skips.
pub const TRANSPARENT: u32 = 0x0000_0000;

/// Opaque black, the colour of a fresh surface.
pub const OPAQUE_BLACK: u32 = 0xFF00_0000;

/// A pixel is transparent exactly when its alpha byte is zero.  Any other
/// alpha counts as fully opaque: nothing is blended.
pub open spec fn is_transparent(pixel: u32) -> bool {
    pixel >> 24 == 0
}

#[verifier::when_used_as_spec(is_transparent)]
pub fn transparent(pixel: u32) -> (r: bool)
    ensures
        r == is_transparent(pixel),
{
    pixel >> 24 == 0
}

/// The row of the cell at index `i` in a buffer `width` cells wide.
pub open spec fn row_of(i: int, width: int) -> int {
    i / width
}

/// The column of the cell at index `i` in a buffer `width` cells wide.
pub open spec fn col_of(i: int, width: int) -> int {
    i % width
}

/// The index of the cell in row `y`, column `x` of a buffer `width` cells
/// wide.
pub open spec fn index_of(y: int, x: int, width: int) -> int {
    y * width + x
}

/// `at` lies in the half-open span of `size` cells that starts at `pos`.
pub open spec fn in_span(pos: int, size: int, at: int) -> bool {
    pos <= at < pos + size
}

/// A buffer of `len` pixels, all of one colour.
pub open spec fn uniform(len: nat, color: u32) -> Seq<u32> {
    Seq::new(len, |i: int| color)
}

/// The sentinel itself is transparent, and opaque black is not.
pub proof fn lemma_sentinels()
    ensures
        is_transparent(TRANSPARENT),
        !is_transparent(OPAQUE_BLACK),
{
    assert(0x0000_0000u32 >> 24 == 0) by (bit_vector);
    assert(0xFF00_0000u32 >> 24 != 0) by (bit_vector);
}

/// The cell in row `y` and column `x` of a buffer `w` cells wide sits at
/// index `y * w + x`, and that index leads back to the same row and column.
pub proof fn lemma_index_of_cell(y: int, x: int, w: int)
    requires
        0 <= x < w,
    ensures
        row_of(y * w + x, w) == y,
        col_of(y * w + x, w) == x,
{
    lemma_fundamental_div_mod_converse(y * w + x, w, y, x);
}

/// Every index of a buffer of `h` rows of `w` cells names a row and a column
/// inside it.
pub proof fn lemma_cell_of_index(i: int, w: int, h: int)
    requires
        0 <= i < h * w,
        0 <= h,
        0 <= w,
    ensures
        0 <= row_of(i, w) < h,
        0 <= col_of(i, w) < w,
        row_of(i, w) * w + col_of(i, w) == i,
{
    assert(w > 0) by (nonlinear_arith)
        requires
            0 <= i < h * w,
            0 <= w,
    ;
    vstd::arithmetic::div_mod::lemma_fundamental_div_mod(i, w);
    vstd::arithmetic::div_mod::lemma_mod_bound(i, w);
    vstd::arithmetic::div_mod::lemma_div_pos_is_pos(i, w);
    let q = i / w;
    assert(w * q == q * w) by (nonlinear_arith);
    assert(q < h) by (nonlinear_arith)
        requires
            q * w + i % w == i,
            0 <= i % w,
            i < h * w,
            w > 0,
    ;
}

/// A cell inside a buffer of `h` rows of `w` cells has an index inside it.
pub proof fn lemma_cell_in_buffer(y: int, x: int, w: int, h: int)
    requires
        0 <= y < h,
        0 <= x < w,
    ensures
        0 <= y * w + x < h * w,
{
    assert(0 <= y * w && y * w + w <= h * w) by (nonlinear_arith)
        requires
            0 <= y < h,
            0 < w,
    ;
}

/// The first cell past a span of `size` cells from `pos`, cut off at `limit`.
pub fn clip_end(pos: usize, size: usize, limit: usize) -> (end: usize)
    ensures
        end as int == if pos + size < limit {
            pos + size
        } else {
            limit as int
        },
{
    if pos >= limit {
        limit
    } else if size >= limit - pos {
        limit
    } else {
        pos + size
    }
}

} // verus!
