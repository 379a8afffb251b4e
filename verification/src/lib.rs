//! A minimal 2D framebuffer toolkit.
//!
//! A [`Screen`] owns a rectangle of packed `0xAARRGGBB` pixels.  Rectangles
//! and sprites are composited into it with clipping, text is painted from
//! glyph coverage masks, and buttons track hover and press state and redraw
//! themselves only when that state changes.  Opening a window, reading the
//! mouse and rasterising a font are left to the program around the library,
//! which hands it plain values.

pub mod error;
pub mod frame;
pub mod pixel;
pub mod ui;

use crate::error::RenderError;
use crate::pixel::{
    clip_end, col_of, in_span, index_of, is_transparent, lemma_cell_in_buffer,
    lemma_cell_of_index, lemma_index_of_cell, row_of, transparent, uniform, OPAQUE_BLACK,
};
use vstd::prelude::*;
use vstd::string::StringExecFns;

verus! {

/// The style of the native window that shows a [`Screen`].  Each flag stands
/// alone; none changes the meaning of another.
#[derive(Clone, Copy, Debug, PartialEq, Eq, Structural)]
pub struct WindowSettings {
    pub borderless: bool,
    pub title: bool,
    pub resize: bool,
    pub topmost: bool,
    pub transparency: bool,
}

impl WindowSettings {
    pub fn new(
        borderless: bool,
        title: bool,
        resize: bool,
        topmost: bool,
        transparency: bool,
    ) -> (r: WindowSettings)
        ensures
            r == (WindowSettings { borderless, title, resize, topmost, transparency }),
    {
        WindowSettings { borderless, title, resize, topmost, transparency }
    }
}

/// The framebuffer: `size_y` rows of `size_x` pixels, stored row by row, with
/// the settings of the window that presents it.
pub struct Screen {
    pub size_y: usize,
    pub size_x: usize,
    pub scale: usize,
    pub title: &'static str,
    pub raw_title: &'static str,
    pub window_options: WindowSettings,
    pub buffer: Vec<u32>,
    pub max_update_time_as_micros: u128,
}

/// The buffer `buf`, `width` cells wide, after a rectangle of `size_y` rows
/// and `size_x` columns at `(pos_y, pos_x)` has been filled with `color`.
/// Cells of the rectangle that lie outside the buffer do not exist in it, so
/// the part of the rectangle that hangs over an edge is cut off.
pub open spec fn filled(
    buf: Seq<u32>,
    width: int,
    pos_y: int,
    pos_x: int,
    size_y: int,
    size_x: int,
    color: u32,
) -> Seq<u32> {
    Seq::new(
        buf.len(),
        |i: int|
            if width > 0 && in_span(pos_y, size_y, row_of(i, width)) && in_span(
                pos_x,
                size_x,
                col_of(i, width),
            ) {
                color
            } else {
                buf[i]
            },
    )
}

/// The sprite cell that a masked copy at `(pos_y, pos_x)` brings to index `i`
/// of a buffer `width` cells wide, if there is one: the cell must lie inside
/// the declared `size_y` by `size_x` of the sprite, inside the sprite's data,
/// and must not be transparent.
pub open spec fn sprite_cell_for(
    i: int,
    width: int,
    sprite: Seq<u32>,
    size_y: int,
    size_x: int,
    pos_y: int,
    pos_x: int,
) -> Option<int> {
    let row = row_of(i, width) - pos_y;
    let col = col_of(i, width) - pos_x;
    let src = row * size_x + col;
    if width > 0 && 0 <= row < size_y && 0 <= col < size_x && src < sprite.len()
        && !is_transparent(sprite[src]) {
        Some(src)
    } else {
        None
    }
}

/// The buffer `buf` after the sprite has been copied onto it at
/// `(pos_y, pos_x)`: every cell under an opaque sprite cell takes that cell's
/// pixel, every other cell keeps its own.
pub open spec fn blitted(
    buf: Seq<u32>,
    width: int,
    sprite: Seq<u32>,
    size_y: int,
    size_x: int,
    pos_y: int,
    pos_x: int,
) -> Seq<u32> {
    Seq::new(
        buf.len(),
        |i: int|
            match sprite_cell_for(i, width, sprite, size_y, size_x, pos_y, pos_x) {
                Some(src) => sprite[src],
                None => buf[i],
            },
    )
}

/// What a masked copy reports: nothing to copy from or to, a sprite whose
/// data ends before its declared size, or success.
pub open spec fn blit_report(buf: Seq<u32>, sprite: Seq<u32>, size_y: int, size_x: int) -> Result<
    (),
    RenderError,
> {
    if buf.len() == 0 || sprite.len() == 0 {
        Err(RenderError::EmptySourceOrDestination)
    } else if size_y * size_x > sprite.len() {
        Err(RenderError::BufferBoundsViolation)
    } else {
        Ok(())
    }
}

/// A fill changes the cells of the surface that lie inside the rectangle, and
/// only those: every cell in it takes the colour, every other cell is what it
/// was.  The part of the rectangle that hangs over the surface touches
/// nothing, and the buffer keeps its length.
pub proof fn lemma_fill_stays_in_bounds(
    buf: Seq<u32>,
    width: int,
    height: int,
    pos_y: int,
    pos_x: int,
    size_y: int,
    size_x: int,
    color: u32,
)
    requires
        buf.len() == height * width,
        0 <= height,
        0 <= width,
    ensures
        filled(buf, width, pos_y, pos_x, size_y, size_x, color).len() == buf.len(),
        forall|y: int, x: int|
            0 <= y < height && 0 <= x < width ==> filled(
                buf,
                width,
                pos_y,
                pos_x,
                size_y,
                size_x,
                color,
            )[#[trigger] index_of(y, x, width)] == if in_span(pos_y, size_y, y) && in_span(
                pos_x,
                size_x,
                x,
            ) {
                color
            } else {
                buf[index_of(y, x, width)]
            },
{
    assert forall|y: int, x: int| 0 <= y < height && 0 <= x < width implies filled(
        buf,
        width,
        pos_y,
        pos_x,
        size_y,
        size_x,
        color,
    )[#[trigger] index_of(y, x, width)] == if in_span(pos_y, size_y, y) && in_span(
        pos_x,
        size_x,
        x,
    ) {
        color
    } else {
        buf[index_of(y, x, width)]
    } by {
        lemma_cell_in_buffer(y, x, width, height);
        lemma_index_of_cell(y, x, width);
    }
}

/// A masked copy decides each cell of the surface by the sprite cell that
/// lies over it.  Under a sprite cell that is not transparent the surface
/// holds that cell's pixel exactly; under a transparent one, and wherever no
/// sprite cell lies, it is what it was.
pub proof fn lemma_blit_copies_what_shows(
    buf: Seq<u32>,
    width: int,
    height: int,
    sprite: Seq<u32>,
    size_y: int,
    size_x: int,
    pos_y: int,
    pos_x: int,
)
    requires
        buf.len() == height * width,
        0 <= height,
        0 <= width,
    ensures
        blitted(buf, width, sprite, size_y, size_x, pos_y, pos_x).len() == buf.len(),
        forall|y: int, x: int|
            0 <= y < height && 0 <= x < width ==> blitted(
                buf,
                width,
                sprite,
                size_y,
                size_x,
                pos_y,
                pos_x,
            )[#[trigger] index_of(y, x, width)] == if 0 <= y - pos_y < size_y && 0 <= x - pos_x
                < size_x && index_of(y - pos_y, x - pos_x, size_x) < sprite.len()
                && !is_transparent(sprite[index_of(y - pos_y, x - pos_x, size_x)]) {
                sprite[index_of(y - pos_y, x - pos_x, size_x)]
            } else {
                buf[index_of(y, x, width)]
            },
{
    assert forall|y: int, x: int| 0 <= y < height && 0 <= x < width implies blitted(
        buf,
        width,
        sprite,
        size_y,
        size_x,
        pos_y,
        pos_x,
    )[#[trigger] index_of(y, x, width)] == if 0 <= y - pos_y < size_y && 0 <= x - pos_x < size_x
        && index_of(y - pos_y, x - pos_x, size_x) < sprite.len() && !is_transparent(
        sprite[index_of(y - pos_y, x - pos_x, size_x)],
    ) {
        sprite[index_of(y - pos_y, x - pos_x, size_x)]
    } else {
        buf[index_of(y, x, width)]
    } by {
        lemma_cell_in_buffer(y, x, width, height);
        lemma_index_of_cell(y, x, width);
    }
}

impl Screen {
    /// The buffer holds exactly one pixel for each cell.
    pub open spec fn wf(&self) -> bool {
        self.buffer@.len() == self.size_y * self.size_x
    }

    /// Everything but the pixels is the same in `self` and `other`.
    pub open spec fn same_frame(&self, other: &Screen) -> bool {
        &&& self.size_y == other.size_y
        &&& self.size_x == other.size_x
        &&& self.scale == other.scale
        &&& self.title == other.title
        &&& self.raw_title == other.raw_title
        &&& self.window_options == other.window_options
        &&& self.max_update_time_as_micros == other.max_update_time_as_micros
    }

    /// A surface of `height` rows and `width` columns, opaque black all over,
    /// to be shown `scale` times enlarged and refreshed `fps` times a second.
    pub fn new(
        height: usize,
        width: usize,
        scale: usize,
        title: &'static str,
        fps: usize,
        window_options: WindowSettings,
    ) -> (s: Screen)
        requires
            height * width <= usize::MAX,
            fps > 0,
        ensures
            s.wf(),
            s.size_y == height,
            s.size_x == width,
            s.scale == scale,
            s.title == title,
            s.raw_title == title,
            s.window_options == window_options,
            s.buffer@ == uniform((height * width) as nat, OPAQUE_BLACK),
            s.max_update_time_as_micros == 1_000_000int / (fps as int),
    {
        let buffer = vec![OPAQUE_BLACK; width * height];
        assert(width * height == height * width) by (nonlinear_arith);
        assert(buffer@ =~= uniform((height * width) as nat, OPAQUE_BLACK));
        Screen {
            size_y: height,
            size_x: width,
            scale,
            title,
            raw_title: title,
            window_options,
            buffer,
            max_update_time_as_micros: 1_000_000 / (fps as u128),
        }
    }

    /// The size in pixels of the window that shows the surface, width first:
    /// the surface enlarged by its scale.  `None` where that size does not
    /// fit the machine's word.
    pub fn window_size(&self) -> (r: Option<(usize, usize)>)
        ensures
            match r {
                Some((width, height)) => width == self.size_x * self.scale && height == self.size_y
                    * self.scale,
                None => self.size_x * self.scale > usize::MAX || self.size_y * self.scale
                    > usize::MAX,
            },
    {
        match (self.size_x.checked_mul(self.scale), self.size_y.checked_mul(self.scale)) {
            (Some(width), Some(height)) => Some((width, height)),
            _ => None,
        }
    }

    /// The window title with `text` added to it after a dash.
    pub fn add_to_title(&mut self, text: String) -> (r: String)
        ensures
            *final(self) == *old(self),
            r@ == old(self).raw_title@ + " - "@ + text@,
    {
        let mut title = String::from_str(self.raw_title);
        title.append(" - ");
        title.append(text.as_str());
        title
    }

    /// Fills the rectangle of `size_y` rows and `size_x` columns at
    /// `(pos_y, pos_x)` with `color`.  Rows and columns of the rectangle that
    /// fall outside the surface are cut off, however large the rectangle is.
    pub fn draw_rectangle(
        &mut self,
        pos_y: usize,
        pos_x: usize,
        size_y: usize,
        size_x: usize,
        color: u32,
    )
        requires
            old(self).wf(),
        ensures
            final(self).wf(),
            final(self).same_frame(old(self)),
            final(self).buffer@ == filled(
                old(self).buffer@,
                old(self).size_x as int,
                pos_y as int,
                pos_x as int,
                size_y as int,
                size_x as int,
                color,
            ),
    {
        let ghost before = self.buffer@;
        let h = self.size_y;
        let w = self.size_x;
        let len = self.buffer.len();
        let y_end = clip_end(pos_y, size_y, h);
        let x_end = clip_end(pos_x, size_x, w);
        proof {
            assert forall|i: int| 0 <= i < before.len() implies 0 <= #[trigger] row_of(i, w as int)
                < h && 0 <= col_of(i, w as int) < w && row_of(i, w as int) * w + col_of(
                i,
                w as int,
            ) == i by {
                lemma_cell_of_index(i, w as int, h as int);
            }
        }
        let mut y = pos_y;
        while y < y_end
            invariant
                self.same_frame(old(self)),
                h == self.size_y,
                w == self.size_x,
                before == old(self).buffer@,
                self.buffer@.len() == before.len(),
                before.len() == h * w,
                y_end <= h,
                x_end <= w,
                pos_y <= y,
                y == pos_y || y <= y_end,
                before.len() == len,
                x_end as int == if pos_x + size_x < w {
                    pos_x + size_x
                } else {
                    w as int
                },
                forall|i: int|
                    0 <= i < before.len() ==> 0 <= #[trigger] row_of(i, w as int) < h && 0
                        <= col_of(i, w as int) < w && row_of(i, w as int) * w + col_of(
                        i,
                        w as int,
                    ) == i,
                forall|i: int|
                    0 <= i < before.len() ==> #[trigger] self.buffer@[i] == if pos_y <= row_of(
                        i,
                        w as int,
                    ) < y && in_span(pos_x as int, size_x as int, col_of(i, w as int)) {
                        color
                    } else {
                        before[i]
                    },
            decreases y_end - y,
        {
            let mut x = pos_x;
            while x < x_end
                invariant
                    self.same_frame(old(self)),
                    h == self.size_y,
                    w == self.size_x,
                    self.buffer@.len() == before.len(),
                    before.len() == h * w,
                    y < y_end <= h,
                    x_end <= w,
                    pos_x <= x,
                    x == pos_x || x <= x_end,
                    before.len() == len,
                    x_end as int == if pos_x + size_x < w {
                        pos_x + size_x
                    } else {
                        w as int
                    },
                    forall|i: int|
                        0 <= i < before.len() ==> 0 <= #[trigger] row_of(i, w as int) < h && 0
                            <= col_of(i, w as int) < w && row_of(i, w as int) * w + col_of(
                            i,
                            w as int,
                        ) == i,
                    forall|i: int|
                        0 <= i < before.len() ==> #[trigger] self.buffer@[i] == if (pos_y
                            <= row_of(i, w as int) < y && in_span(
                            pos_x as int,
                            size_x as int,
                            col_of(i, w as int),
                        )) || (row_of(i, w as int) == y && pos_x <= col_of(i, w as int) < x) {
                            color
                        } else {
                            before[i]
                        },
                decreases x_end - x,
            {
                proof {
                    lemma_cell_in_buffer(y as int, x as int, w as int, h as int);
                    lemma_index_of_cell(y as int, x as int, w as int);
                }
                self.buffer.set(y * w + x, color);
                x += 1;
            }
            y += 1;
        }
        assert(self.buffer@ =~= filled(
            before,
            w as int,
            pos_y as int,
            pos_x as int,
            size_y as int,
            size_x as int,
            color,
        ));
    }

    /// Copies the sprite, `size_y` rows of `size_x` pixels stored row by row,
    /// onto the surface with its top left corner at `(pos_y, pos_x)`.
    /// Transparent sprite pixels leave the surface as it is, and so does every
    /// sprite cell that falls outside the surface or outside the sprite's
    /// data.  The result says whether there was anything to copy and whether
    /// the sprite's data covers its declared size.
    pub fn draw_sprite(
        &mut self,
        sprite: &[u32],
        size_y: usize,
        size_x: usize,
        pos_y: usize,
        pos_x: usize,
    ) -> (r: Result<(), RenderError>)
        requires
            old(self).wf(),
        ensures
            final(self).wf(),
            final(self).same_frame(old(self)),
            final(self).buffer@ == blitted(
                old(self).buffer@,
                old(self).size_x as int,
                sprite@,
                size_y as int,
                size_x as int,
                pos_y as int,
                pos_x as int,
            ),
            r == blit_report(old(self).buffer@, sprite@, size_y as int, size_x as int),
    {
        let ghost before = self.buffer@;
        let h = self.size_y;
        let w = self.size_x;
        let len = self.buffer.len();
        let rows = clip_end(pos_y, size_y, h);
        let cols = clip_end(pos_x, size_x, w);
        proof {
            assert forall|i: int| 0 <= i < before.len() implies 0 <= #[trigger] row_of(i, w as int)
                < h && 0 <= col_of(i, w as int) < w && row_of(i, w as int) * w + col_of(
                i,
                w as int,
            ) == i by {
                lemma_cell_of_index(i, w as int, h as int);
            }
        }
        let mut y = pos_y;
        while y < rows
            invariant
                self.same_frame(old(self)),
                h == self.size_y,
                w == self.size_x,
                before == old(self).buffer@,
                self.buffer@.len() == before.len(),
                before.len() == h * w,
                before.len() == len,
                rows <= h,
                cols <= w,
                pos_y <= y,
                y == pos_y || y <= rows,
                rows as int == if pos_y + size_y < h {
                    pos_y + size_y
                } else {
                    h as int
                },
                cols as int == if pos_x + size_x < w {
                    pos_x + size_x
                } else {
                    w as int
                },
                forall|i: int|
                    0 <= i < before.len() ==> 0 <= #[trigger] row_of(i, w as int) < h && 0
                        <= col_of(i, w as int) < w && row_of(i, w as int) * w + col_of(
                        i,
                        w as int,
                    ) == i,
                forall|i: int|
                    0 <= i < before.len() ==> #[trigger] self.buffer@[i] == if row_of(i, w as int)
                        < y {
                        blitted(
                            before,
                            w as int,
                            sprite@,
                            size_y as int,
                            size_x as int,
                            pos_y as int,
                            pos_x as int,
                        )[i]
                    } else {
                        before[i]
                    },
            decreases rows - y,
        {
            let mut x = pos_x;
            while x < cols
                invariant
                    self.same_frame(old(self)),
                    h == self.size_y,
                    w == self.size_x,
                    self.buffer@.len() == before.len(),
                    before.len() == h * w,
                    before.len() == len,
                    pos_y <= y < rows <= h,
                    cols <= w,
                    pos_x <= x,
                    x == pos_x || x <= cols,
                    rows as int == if pos_y + size_y < h {
                        pos_y + size_y
                    } else {
                        h as int
                    },
                    cols as int == if pos_x + size_x < w {
                        pos_x + size_x
                    } else {
                        w as int
                    },
                    forall|i: int|
                        0 <= i < before.len() ==> 0 <= #[trigger] row_of(i, w as int) < h && 0
                            <= col_of(i, w as int) < w && row_of(i, w as int) * w + col_of(
                            i,
                            w as int,
                        ) == i,
                    forall|i: int|
                        0 <= i < before.len() ==> #[trigger] self.buffer@[i] == if row_of(
                            i,
                            w as int,
                        ) < y || (row_of(i, w as int) == y && col_of(i, w as int) < x) {
                            blitted(
                                before,
                                w as int,
                                sprite@,
                                size_y as int,
                                size_x as int,
                                pos_y as int,
                                pos_x as int,
                            )[i]
                        } else {
                            before[i]
                        },
                decreases cols - x,
            {
                proof {
                    lemma_cell_in_buffer(y as int, x as int, w as int, h as int);
                    lemma_index_of_cell(y as int, x as int, w as int);
                    assert((y - pos_y) * size_x + (x - pos_x) <= u128::MAX) by (nonlinear_arith)
                        requires
                            0 <= y - pos_y <= 0xffff_ffff_ffff_ffff,
                            0 <= x - pos_x <= 0xffff_ffff_ffff_ffff,
                            0 <= size_x <= 0xffff_ffff_ffff_ffff,
                            u128::MAX == 0xffff_ffff_ffff_ffff_ffff_ffff_ffff_ffff,
                    ;
                    assert(0 <= (y - pos_y) * size_x) by (nonlinear_arith)
                        requires
                            0 <= y - pos_y,
                            0 <= size_x,
                    ;
                }
                let src: u128 = ((y - pos_y) as u128) * (size_x as u128) + ((x - pos_x) as u128);
                if src < sprite.len() as u128 {
                    let pixel = sprite[src as usize];
                    if !transparent(pixel) {
                        self.buffer.set(y * w + x, pixel);
                    }
                }
                x += 1;
            }
            y += 1;
        }
        assert(self.buffer@ =~= blitted(
            before,
            w as int,
            sprite@,
            size_y as int,
            size_x as int,
            pos_y as int,
            pos_x as int,
        ));
        proof {
            assert(size_y * size_x <= u128::MAX) by (nonlinear_arith)
                requires
                    0 <= size_y <= 0xffff_ffff_ffff_ffff,
                    0 <= size_x <= 0xffff_ffff_ffff_ffff,
                    u128::MAX == 0xffff_ffff_ffff_ffff_ffff_ffff_ffff_ffff,
            ;
        }
        if len == 0 || sprite.len() == 0 {
            Err(RenderError::EmptySourceOrDestination)
        } else if (size_y as u128) * (size_x as u128) > sprite.len() as u128 {
            Err(RenderError::BufferBoundsViolation)
        } else {
            Ok(())
        }
    }
}

} // verus!
