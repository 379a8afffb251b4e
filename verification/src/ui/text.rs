//! A block of text with a private pixel buffer.
//!
//! The text is shaped outside the library: [`Text::layout`] says which
//! characters stand on which line and where each line begins, a rasteriser
//! turns every line into glyphs, and [`Text::render`] paints those glyphs
//! into the buffer.

use crate::error::RenderError;
use crate::pixel::{lemma_sentinels, uniform, TRANSPARENT};
use crate::ui::escape::{
    chars_of, lines_of, split_lines, style_line, styled_lines, styled_text, StyledChar,
};
use crate::ui::font::FontData;
use crate::ui::glyph::{
    any_missing_glyph, blank_left_of, cells_miss, draw_text, exceeds, glyphs_miss,
    has_missing_glyph, lands_on, lemma_text_keeps_length, lemma_text_leaves_left_blank,
    lines_miss, no_left_overhang, paint_text, PlacedGlyph, CORE_COVERAGE,
};
use crate::{blit_report, blitted, Screen};
use vstd::prelude::*;

verus! {

/// A text, the place and the size of the buffer it is drawn into, and how it
/// is set: the point size, the room between lines and between characters,
/// the colour of the glyphs and, where one is wanted, a second colour for
/// their soft edges.
pub struct Text {
    pub pos_y: u16,
    pub pos_x: u16,
    pub size_y: usize,
    pub size_x: usize,
    pub buffer: Vec<u32>,
    pub text: String,
    pub text_size: u16,
    pub text_line_margin: u8,
    pub text_char_margin: u8,
    pub text_color: u32,
    pub text_secondary_color: Option<u32>,
    pub text_font: FontData,
}

/// One line of a text as the rasteriser is to shape it: the characters that
/// are drawn and the point size.  The line is shaped by itself, with its pen
/// starting at column 0 and its baseline one ascent of the font below row 0;
/// where the line stands in the text is decided when it is painted, not when
/// it is shaped.
pub struct TextLine {
    pub chars: Vec<StyledChar>,
    pub size: u16,
}

/// What rendering reports: a character without a glyph, or nothing.
pub open spec fn glyph_report(shaped: Seq<Vec<PlacedGlyph>>) -> Result<(), RenderError> {
    if has_missing_glyph(shaped) {
        Err(RenderError::MissingGlyph)
    } else {
        Ok(())
    }
}

impl Text {
    /// The buffer holds one pixel for each cell of the bounding size.
    pub open spec fn wf(&self) -> bool {
        self.buffer@.len() == self.size_y * self.size_x
    }

    /// The rows from one line to the next: half the point size and the line
    /// margin.
    pub open spec fn line_advance(&self) -> int {
        self.text_size / 2 + self.text_line_margin
    }

    /// The drawn characters of each line, with their colours.
    pub open spec fn lines(&self) -> Seq<Seq<StyledChar>> {
        styled_text(self.text@, self.text_color)
    }

    /// Everything but the pixels is the same in `self` and `other`.
    pub open spec fn same_text(&self, other: &Text) -> bool {
        &&& self.pos_y == other.pos_y
        &&& self.pos_x == other.pos_x
        &&& self.size_y == other.size_y
        &&& self.size_x == other.size_x
        &&& self.text == other.text
        &&& self.text_size == other.text_size
        &&& self.text_line_margin == other.text_line_margin
        &&& self.text_char_margin == other.text_char_margin
        &&& self.text_color == other.text_color
        &&& self.text_secondary_color == other.text_secondary_color
        &&& self.text_font == other.text_font
    }

    /// The pixels of the text once the glyphs `shaped` have been painted on a
    /// transparent buffer.  They do not depend on what the buffer held
    /// before: a cell that no glyph covers is transparent.
    pub open spec fn rendered(&self, shaped: Seq<Vec<PlacedGlyph>>) -> Seq<u32> {
        paint_text(
            uniform((self.size_y * self.size_x) as nat, TRANSPARENT),
            self.size_y as int,
            self.size_x as int,
            shaped,
            self.lines(),
            shaped.len(),
            self.pos_y as int,
            self.pos_x as int,
            self.line_advance(),
            self.text_char_margin as int,
            self.text_secondary_color,
            true,
        )
    }

    /// `self` is what `render` makes of `before`: the same text with its
    /// buffer regenerated.
    pub open spec fn rendered_from(&self, before: &Text, shaped: Seq<Vec<PlacedGlyph>>) -> bool {
        self.same_text(before) && self.buffer@ == before.rendered(shaped)
    }

    /// Rendering is idempotent: a second rendering, with nothing changed in
    /// between, gives the very pixels that the first one gave.
    pub proof fn lemma_render_twice(
        before: &Text,
        once: &Text,
        twice: &Text,
        shaped: Seq<Vec<PlacedGlyph>>,
    )
        requires
            once.rendered_from(before, shaped),
            twice.rendered_from(once, shaped),
        ensures
            twice.buffer@ == once.buffer@,
    {
    }

    /// A rendered text is not empty where its glyphs have ink inside the
    /// buffer: a cell in the core of a glyph shows in the colour of its
    /// character, unless a later cell, glyph or line falls on the same pixel.
    pub proof fn lemma_core_cell_shows(
        &self,
        shaped: Seq<Vec<PlacedGlyph>>,
        l: nat,
        k: nat,
        j: nat,
        at: int,
    )
        requires
            l < shaped.len(),
            l < self.lines().len(),
            k < shaped[l as int]@.len(),
            k < self.lines()[l as int].len(),
            !shaped[l as int]@[k as int].missing,
            j < shaped[l as int]@[k as int].cells@.len(),
            exceeds(shaped[l as int]@[k as int].cells@[j as int].coverage, CORE_COVERAGE),
            lands_on(
                shaped[l as int]@[k as int],
                j as int,
                self.pos_y + l * self.line_advance(),
                self.pos_x + k * self.text_char_margin,
                self.size_y as int,
                self.size_x as int,
                at,
            ),
            cells_miss(
                shaped[l as int]@[k as int],
                j as int + 1,
                self.pos_y + l * self.line_advance(),
                self.pos_x + k * self.text_char_margin,
                self.size_y as int,
                self.size_x as int,
                at,
            ),
            glyphs_miss(
                shaped[l as int]@,
                self.lines()[l as int],
                k as int + 1,
                self.pos_y + l * self.line_advance(),
                self.pos_x as int,
                self.text_char_margin as int,
                self.size_y as int,
                self.size_x as int,
                at,
            ),
            lines_miss(
                shaped,
                self.lines(),
                l as int + 1,
                self.pos_y as int,
                self.pos_x as int,
                self.line_advance(),
                self.text_char_margin as int,
                self.size_y as int,
                self.size_x as int,
                at,
            ),
        ensures
            0 <= at < self.rendered(shaped).len(),
            self.rendered(shaped)[at] == self.lines()[l as int][k as int].color,
    {
        assert(self.size_y * self.size_x >= 0) by (nonlinear_arith)
            requires
                self.size_y >= 0,
                self.size_x >= 0,
        ;
        let blank = uniform((self.size_y * self.size_x) as nat, TRANSPARENT);
        lemma_text_keeps_length(
            blank,
            self.size_y as int,
            self.size_x as int,
            shaped,
            self.lines(),
            shaped.len(),
            self.pos_y as int,
            self.pos_x as int,
            self.line_advance(),
            self.text_char_margin as int,
            self.text_secondary_color,
            true,
        );
        crate::ui::glyph::lemma_core_cell_shows(
            blank,
            self.size_y as int,
            self.size_x as int,
            shaped,
            self.lines(),
            l,
            k,
            j,
            self.pos_y as int,
            self.pos_x as int,
            self.line_advance(),
            self.text_char_margin as int,
            self.text_secondary_color,
            true,
            at,
        );
    }

    /// Where the glyphs do not hang over to the left of the point at which
    /// their line was laid out, the rendered text shows nothing left of
    /// column `pos_x`: the leftmost pixel of the text is at `pos_x` or right
    /// of it.
    pub proof fn lemma_nothing_left_of_origin(&self, shaped: Seq<Vec<PlacedGlyph>>)
        requires
            no_left_overhang(shaped),
        ensures
            self.rendered(shaped).len() == self.size_y * self.size_x,
            blank_left_of(self.rendered(shaped), self.size_x as int, self.pos_x as int),
    {
        lemma_sentinels();
        assert(self.size_y * self.size_x >= 0) by (nonlinear_arith)
            requires
                self.size_y >= 0,
                self.size_x >= 0,
        ;
        lemma_text_leaves_left_blank(
            uniform((self.size_y * self.size_x) as nat, TRANSPARENT),
            self.size_y as int,
            self.size_x as int,
            shaped,
            self.lines(),
            shaped.len(),
            self.pos_y as int,
            self.pos_x as int,
            self.line_advance(),
            self.text_char_margin as int,
            self.text_secondary_color,
            true,
        );
    }

    /// A text of one colour with a transparent buffer of `size_y` rows and
    /// `size_x` columns.
    pub fn new(
        pos_y: u16,
        pos_x: u16,
        size_y: usize,
        size_x: usize,
        text: String,
        text_size: u16,
        text_line_margin: u8,
        text_char_margin: u8,
        text_color: u32,
        text_font: FontData,
    ) -> (r: Text)
        requires
            size_y * size_x <= usize::MAX,
        ensures
            r.wf(),
            r.pos_y == pos_y,
            r.pos_x == pos_x,
            r.size_y == size_y,
            r.size_x == size_x,
            r.text == text,
            r.text_size == text_size,
            r.text_line_margin == text_line_margin,
            r.text_char_margin == text_char_margin,
            r.text_color == text_color,
            r.text_secondary_color == None::<u32>,
            r.text_font == text_font,
            r.buffer@ == uniform((size_y * size_x) as nat, TRANSPARENT),
    {
        let buffer = vec![TRANSPARENT; size_y * size_x];
        assert(buffer@ =~= uniform((size_y * size_x) as nat, TRANSPARENT));
        Text {
            pos_y,
            pos_x,
            size_y,
            size_x,
            buffer,
            text,
            text_size,
            text_line_margin,
            text_char_margin,
            text_color,
            text_secondary_color: None,
            text_font,
        }
    }

    /// The lines of the text as the rasteriser is to shape them.
    pub fn layout(&self) -> (r: Vec<TextLine>)
        ensures
            r@.len() == self.lines().len(),
            forall|l: int|
                0 <= l < r@.len() ==> {
                    &&& (#[trigger] r@[l]).chars@ == self.lines()[l]
                    &&& r@[l].size == self.text_size
                },
    {
        self.layout_for(self.text.as_str())
    }

    /// The lines of another content, set as this text is set: what `layout`
    /// would give if the text were `content`.
    pub fn layout_for(&self, content: &str) -> (r: Vec<TextLine>)
        ensures
            r@.len() == styled_text(content@, self.text_color).len(),
            forall|l: int|
                0 <= l < r@.len() ==> {
                    &&& (#[trigger] r@[l]).chars@ == styled_text(content@, self.text_color)[l]
                    &&& r@[l].size == self.text_size
                },
    {
        let chars = chars_of(content);
        let lines = split_lines(&chars);
        let mut out: Vec<TextLine> = Vec::new();
        let mut l: usize = 0;
        while l < lines.len()
            invariant
                l <= lines@.len(),
                lines@.len() == lines_of(content@).len(),
                forall|i: int|
                    0 <= i < lines@.len() ==> (#[trigger] lines@[i])@ == lines_of(content@)[i],
                out@.len() == l,
                forall|i: int|
                    0 <= i < l ==> {
                        &&& (#[trigger] out@[i]).chars@ == styled_text(
                            content@,
                            self.text_color,
                        )[i]
                        &&& out@[i].size == self.text_size
                    },
            decreases lines@.len() - l,
        {
            let styled = style_line(&lines[l], self.text_color);
            out.push(TextLine { chars: styled, size: self.text_size });
            l += 1;
        }
        out
    }

    /// Regenerates the buffer from the text and the glyphs that the
    /// rasteriser has shaped for it, and returns a copy of it.
    pub fn render_into_buffer(&mut self, shaped: &Vec<Vec<PlacedGlyph>>) -> (r: Vec<u32>)
        requires
            old(self).wf(),
        ensures
            final(self).wf(),
            final(self).rendered_from(old(self), shaped@),
            r@ == final(self).buffer@,
    {
        let lines = styled_lines(self.text.as_str(), self.text_color);
        let len = self.buffer.len();
        let advance: u16 = self.text_size / 2 + self.text_line_margin as u16;
        let mut buffer = vec![TRANSPARENT; len];
        assert(buffer@ =~= uniform((self.size_y * self.size_x) as nat, TRANSPARENT));
        draw_text(
            &mut buffer,
            self.size_y,
            self.size_x,
            shaped,
            &lines,
            self.pos_y,
            self.pos_x,
            advance,
            self.text_char_margin,
            self.text_secondary_color,
            true,
        );
        let copy = buffer.clone();
        self.buffer = buffer;
        copy
    }

    /// Regenerates the buffer and reports a character that the font lacks.
    pub fn render(&mut self, shaped: &Vec<Vec<PlacedGlyph>>) -> (r: Result<(), RenderError>)
        requires
            old(self).wf(),
        ensures
            final(self).wf(),
            final(self).rendered_from(old(self), shaped@),
            r == glyph_report(shaped@),
    {
        let _ = self.render_into_buffer(shaped);
        if any_missing_glyph(shaped) {
            Err(RenderError::MissingGlyph)
        } else {
            Ok(())
        }
    }

    /// Paints the text straight onto the screen, without going through the
    /// buffer.  Here a cell that the glyphs do not cover is left as it is, so
    /// that what lies behind the text stays visible.
    pub fn render_onto(&self, screen: &mut Screen, shaped: &Vec<Vec<PlacedGlyph>>) -> (r: Result<
        (),
        RenderError,
    >)
        requires
            old(screen).wf(),
        ensures
            final(screen).wf(),
            final(screen).same_frame(old(screen)),
            final(screen).buffer@ == paint_text(
                old(screen).buffer@,
                old(screen).size_y as int,
                old(screen).size_x as int,
                shaped@,
                self.lines(),
                shaped@.len(),
                self.pos_y as int,
                self.pos_x as int,
                self.line_advance(),
                self.text_char_margin as int,
                self.text_secondary_color,
                false,
            ),
            r == glyph_report(shaped@),
    {
        let lines = styled_lines(self.text.as_str(), self.text_color);
        let advance: u16 = self.text_size / 2 + self.text_line_margin as u16;
        draw_text(
            &mut screen.buffer,
            screen.size_y,
            screen.size_x,
            shaped,
            &lines,
            self.pos_y,
            self.pos_x,
            advance,
            self.text_char_margin,
            self.text_secondary_color,
            false,
        );
        if any_missing_glyph(shaped) {
            Err(RenderError::MissingGlyph)
        } else {
            Ok(())
        }
    }

    /// Copies the buffer onto the screen at the text's position.  Cells that
    /// no glyph covers are transparent and leave the screen as it is.
    pub fn draw(&mut self, screen: &mut Screen) -> (r: Result<(), RenderError>)
        requires
            old(screen).wf(),
        ensures
            *final(self) == *old(self),
            final(screen).wf(),
            final(screen).same_frame(old(screen)),
            final(screen).buffer@ == blitted(
                old(screen).buffer@,
                old(screen).size_x as int,
                old(self).buffer@,
                old(self).size_y as int,
                old(self).size_x as int,
                old(self).pos_y as int,
                old(self).pos_x as int,
            ),
            r == blit_report(
                old(screen).buffer@,
                old(self).buffer@,
                old(self).size_y as int,
                old(self).size_x as int,
            ),
    {
        screen.draw_sprite(
            self.buffer.as_slice(),
            self.size_y,
            self.size_x,
            self.pos_y as usize,
            self.pos_x as usize,
        )
    }
}

} // verus!
