//! A push button with a text label.
//!
//! The button keeps its own picture in a private buffer and redraws it only
//! when it becomes enabled or disabled or when the mouse enters or leaves it.
//! A press starts a cool-down of `delay` ticks during which the button is
//! disabled and takes no notice of the mouse.

use crate::error::RenderError;
use crate::pixel::{
    col_of, is_transparent, lemma_cell_in_buffer, lemma_cell_of_index, lemma_index_of_cell,
    row_of, transparent, uniform, OPAQUE_BLACK,
};
use crate::ui::font::FontData;
use crate::ui::glyph::{any_missing_glyph, PlacedGlyph};
use crate::ui::text::{glyph_report, Text};
use crate::{blit_report, blitted, Screen};
use vstd::prelude::*;

verus! {

/// A button: its label, its bounds on the screen, its colours and border,
/// its picture, the length of its cool-down and the state of its dealings
/// with the mouse.
pub struct TextRendererButton {
    pub text: Text,
    pub pos_y: usize,
    pub pos_x: usize,
    pub size_y: usize,
    pub size_x: usize,
    pub base_color: u32,
    pub hovered_color: u32,
    pub pressed_color: u32,
    pub border_color: u32,
    pub border_size: usize,
    pub buffer: Vec<u32>,
    pub delay: u16,
    pub delay_counter: u16,
    pub pressed: bool,
    pub enabled: bool,
    pub hovered: bool,
}

/// What a button knows of the mouse: whether it may be used, whether the
/// mouse is over it, whether it is being pressed, and how many ticks of the
/// cool-down are left.
#[derive(Clone, Copy, Debug, PartialEq, Eq, Structural)]
pub struct Interaction {
    pub enabled: bool,
    pub hovered: bool,
    pub pressed: bool,
    pub remaining: u16,
}

/// The state after one tick, given whether the mouse is inside the button's
/// bounds and whether its left button is down.  While the cool-down runs it
/// is counted down and the button is disabled and not hovered.  Otherwise the
/// button is enabled and hovered exactly when the mouse is inside.  A hovered
/// button with the mouse button down is pressed, and the cool-down starts
/// anew.
pub open spec fn tick(s: Interaction, inside: bool, down: bool, delay: u16) -> Interaction {
    let cooling = s.remaining > 0;
    let hovered = !cooling && inside;
    let pressed = hovered && down;
    Interaction {
        enabled: !cooling,
        hovered,
        pressed,
        remaining: if pressed {
            delay
        } else if cooling {
            (s.remaining - 1) as u16
        } else {
            0
        },
    }
}

/// A tick changes what the button looks like: it has become enabled or
/// disabled, or the mouse has entered or left it.
pub open spec fn redraws(s: Interaction, inside: bool, down: bool, delay: u16) -> bool {
    tick(s, inside, down, delay).enabled != s.enabled || tick(s, inside, down, delay).hovered
        != s.hovered
}

/// The state after a run of ticks, each with its own mouse input.
pub open spec fn ticks(s: Interaction, inputs: Seq<(bool, bool)>, delay: u16) -> Interaction
    decreases inputs.len(),
{
    if inputs.len() == 0 {
        s
    } else {
        tick(ticks(s, inputs.drop_last(), delay), inputs.last().0, inputs.last().1, delay)
    }
}

/// A press happens only on a button that is hovered and enabled; it starts
/// the cool-down at `delay`.  A button is disabled only by a cool-down that
/// was still running when the tick began.
pub proof fn lemma_tick_rules(s: Interaction, inside: bool, down: bool, delay: u16)
    ensures
        tick(s, inside, down, delay).pressed ==> tick(s, inside, down, delay).hovered && tick(
            s,
            inside,
            down,
            delay,
        ).enabled,
        tick(s, inside, down, delay).hovered && down ==> tick(s, inside, down, delay).pressed
            && tick(s, inside, down, delay).remaining == delay,
        tick(s, inside, down, delay).hovered ==> s.remaining == 0 && inside,
        !tick(s, inside, down, delay).enabled <==> s.remaining > 0,
        s.remaining > 0 ==> tick(s, inside, down, delay).remaining == s.remaining - 1,
{
}

/// While the cool-down runs, nothing that the mouse does is noticed: after
/// `n` ticks of a cool-down that had at least `n` ticks left, whatever the
/// mouse did, exactly `n` ticks have been counted off, and from the first of
/// them on the button is disabled, not hovered and not pressed.  So a button
/// cannot be hovered again before its cool-down has reached zero.
pub proof fn lemma_cooldown_runs_out(s: Interaction, inputs: Seq<(bool, bool)>, delay: u16)
    requires
        inputs.len() <= s.remaining,
    ensures
        ticks(s, inputs, delay).remaining == s.remaining - inputs.len(),
        inputs.len() > 0 ==> !ticks(s, inputs, delay).enabled && !ticks(s, inputs, delay).hovered
            && !ticks(s, inputs, delay).pressed,
    decreases inputs.len(),
{
    if inputs.len() > 0 {
        lemma_cooldown_runs_out(s, inputs.drop_last(), delay);
    }
}

/// Once the cool-down has reached zero, the next tick enables the button
/// again and lets it be hovered.
pub proof fn lemma_enabled_after_cooldown(s: Interaction, inside: bool, down: bool, delay: u16)
    requires
        s.remaining == 0,
    ensures
        tick(s, inside, down, delay).enabled,
        tick(s, inside, down, delay).hovered == inside,
{
}

/// The inset of the label from the top and from the left of a button
/// `size_y` rows high: a quarter of the height less a quarter of the point
/// size, never less than nothing, cut to sixteen bits.
pub open spec fn label_inset(size_y: int, text_size: int) -> int {
    if size_y / 4 >= text_size / 4 {
        (size_y / 4 - text_size / 4) % 0x1_0000
    } else {
        0
    }
}

/// The picture `under` with the picture `over` laid on it: wherever `over`
/// is not transparent it shows, elsewhere `under` shows through.
pub open spec fn overlaid(under: Seq<u32>, over: Seq<u32>) -> Seq<u32> {
    Seq::new(
        under.len(),
        |i: int|
            if i < over.len() && !is_transparent(over[i]) {
                over[i]
            } else {
                under[i]
            },
    )
}

impl TextRendererButton {
    /// Rendering is idempotent: the picture is made from the button's state
    /// and the shaped label, so rendering a second time, with nothing changed
    /// in between, gives the very pixels that the first rendering gave, in
    /// the button's buffer and in the label's.
    pub proof fn lemma_render_twice(
        before: &TextRendererButton,
        once: &TextRendererButton,
        twice: &TextRendererButton,
        shaped: Seq<Vec<PlacedGlyph>>,
    )
        requires
            once.rendered_from(before, shaped),
            twice.rendered_from(once, shaped),
        ensures
            twice.buffer@ == once.buffer@,
            twice.text.buffer@ == once.text.buffer@,
    {
    }

    /// `self` is what `render` makes of `before`: the same button in the
    /// same state, with its picture and its label regenerated.
    pub open spec fn rendered_from(
        &self,
        before: &TextRendererButton,
        shaped: Seq<Vec<PlacedGlyph>>,
    ) -> bool {
        &&& self.same_style(before)
        &&& self.interaction() == before.interaction()
        &&& self.text.buffer@ == before.text.rendered(shaped)
        &&& self.buffer@ == before.rendered(shaped)
    }

    /// The button's buffer and its label's buffer both have the button's
    /// size.
    pub open spec fn wf(&self) -> bool {
        &&& self.buffer@.len() == self.size_y * self.size_x
        &&& self.text.wf()
        &&& self.text.size_y == self.size_y
        &&& self.text.size_x == self.size_x
    }

    /// Everything but the interaction state and the pixels is the same in
    /// `self` and `other`.
    pub open spec fn same_style(&self, other: &TextRendererButton) -> bool {
        &&& self.text.same_text(&other.text)
        &&& self.pos_y == other.pos_y
        &&& self.pos_x == other.pos_x
        &&& self.size_y == other.size_y
        &&& self.size_x == other.size_x
        &&& self.base_color == other.base_color
        &&& self.hovered_color == other.hovered_color
        &&& self.pressed_color == other.pressed_color
        &&& self.border_color == other.border_color
        &&& self.border_size == other.border_size
        &&& self.delay == other.delay
    }

    /// The interaction state.
    pub open spec fn interaction(&self) -> Interaction {
        Interaction {
            enabled: self.enabled,
            hovered: self.hovered,
            pressed: self.pressed,
            remaining: self.delay_counter,
        }
    }

    /// The mouse at `(mouse_y, mouse_x)` is inside the button's bounds, the
    /// far edges included.
    pub open spec fn contains(&self, mouse_y: int, mouse_x: int) -> bool {
        self.pos_y <= mouse_y <= self.pos_y + self.size_y && self.pos_x <= mouse_x <= self.pos_x
            + self.size_x
    }

    /// The cell in row `y`, column `x` belongs to the border: it lies within
    /// `border_size` cells of an edge.
    pub open spec fn on_border(&self, y: int, x: int) -> bool {
        y < self.border_size || x < self.border_size || y + self.border_size >= self.size_y || x
            + self.border_size >= self.size_x
    }

    /// The colour inside the border: the pressed colour while the button is
    /// disabled, else the hovered colour under the mouse, else the base
    /// colour.
    pub open spec fn face_color(&self) -> u32 {
        if !self.enabled {
            self.pressed_color
        } else if self.hovered {
            self.hovered_color
        } else {
            self.base_color
        }
    }

    /// The button without its label.
    pub open spec fn background(&self) -> Seq<u32> {
        Seq::new(
            (self.size_y * self.size_x) as nat,
            |i: int|
                if self.on_border(row_of(i, self.size_x as int), col_of(i, self.size_x as int)) {
                    self.border_color
                } else {
                    self.face_color()
                },
        )
    }

    /// The button with its label, the label shaped as `shaped`.  The picture
    /// is made from the button's state alone, not from what its buffers held.
    pub open spec fn rendered(&self, shaped: Seq<Vec<PlacedGlyph>>) -> Seq<u32> {
        overlaid(self.background(), self.text.rendered(shaped))
    }

    pub fn new(
        pos_y: usize,
        pos_x: usize,
        size_y: usize,
        size_x: usize,
        text: String,
        text_size: usize,
        text_color: u32,
        font: FontData,
        base_color: u32,
        hovered_color: u32,
        pressed_color: u32,
        border_color: u32,
        border_size: usize,
        delay: u16,
    ) -> (r: TextRendererButton)
        requires
            size_y * size_x <= usize::MAX,
        ensures
            r.wf(),
            r.pos_y == pos_y,
            r.pos_x == pos_x,
            r.size_y == size_y,
            r.size_x == size_x,
            r.base_color == base_color,
            r.hovered_color == hovered_color,
            r.pressed_color == pressed_color,
            r.border_color == border_color,
            r.border_size == border_size,
            r.delay == delay,
            r.interaction() == (Interaction {
                enabled: true,
                hovered: false,
                pressed: false,
                remaining: 0,
            }),
            r.buffer@ == uniform((size_y * size_x) as nat, OPAQUE_BLACK),
            r.text.pos_y == label_inset(size_y as int, text_size as int),
            r.text.pos_x == label_inset(size_y as int, text_size as int),
            r.text.text == text,
            r.text.text_size == text_size % 0x1_0000,
            r.text.text_line_margin == 1,
            r.text.text_char_margin == 1,
            r.text.text_color == text_color,
            r.text.text_secondary_color == None::<u32>,
            r.text.text_font == font,
            r.text.buffer@ == uniform((size_y * size_x) as nat, crate::pixel::TRANSPARENT),
    {
        let inset: u16 = if size_y / 4 >= text_size / 4 {
            ((size_y / 4 - text_size / 4) % 0x1_0000) as u16
        } else {
            0
        };
        let label = Text::new(
            inset,
            inset,
            size_y,
            size_x,
            text,
            (text_size % 0x1_0000) as u16,
            1,
            1,
            text_color,
            font,
        );
        let buffer = vec![OPAQUE_BLACK; size_y * size_x];
        assert(buffer@ =~= uniform((size_y * size_x) as nat, OPAQUE_BLACK));
        TextRendererButton {
            text: label,
            pos_y,
            pos_x,
            size_y,
            size_x,
            base_color,
            hovered_color,
            pressed_color,
            border_color,
            border_size,
            buffer,
            delay,
            delay_counter: 0,
            pressed: false,
            enabled: true,
            hovered: false,
        }
    }

    /// Copies the button's picture onto the screen at the button's position.
    pub fn draw(&mut self, screen: &mut Screen) -> (r: Result<(), RenderError>)
        requires
            old(screen).wf(),
        ensures
            *final(self) == *old(self),
            final(screen).wf(),
            final(screen).same_frame(old(screen)),
            final(screen).buffer@ == blitted(
                old(screen).buffer@,
                old(screen).size_x as int,
                old(self).buffer@,
                old(self).size_y as int,
                old(self).size_x as int,
                old(self).pos_y as int,
                old(self).pos_x as int,
            ),
            r == blit_report(
                old(screen).buffer@,
                old(self).buffer@,
                old(self).size_y as int,
                old(self).size_x as int,
            ),
    {
        screen.draw_sprite(self.buffer.as_slice(), self.size_y, self.size_x, self.pos_y, self.pos_x)
    }

    /// Fills the buffer with the border and the face of the button.
    pub fn render_button(&mut self)
        requires
            old(self).wf(),
        ensures
            final(self).wf(),
            final(self).same_style(old(self)),
            final(self).interaction() == old(self).interaction(),
            final(self).text == old(self).text,
            final(self).buffer@ == old(self).background(),
    {
        let h = self.size_y;
        let w = self.size_x;
        let t = self.border_size;
        let face = if !self.enabled {
            self.pressed_color
        } else if self.hovered {
            self.hovered_color
        } else {
            self.base_color
        };
        let ghost goal = self.background();
        let len = self.buffer.len();
        proof {
            assert forall|i: int| 0 <= i < len implies 0 <= #[trigger] row_of(i, w as int) < h && 0
                <= col_of(i, w as int) < w && row_of(i, w as int) * w + col_of(i, w as int)
                == i by {
                lemma_cell_of_index(i, w as int, h as int);
            }
        }
        let mut y: usize = 0;
        while y < h
            invariant
                y <= h,
                forall|i: int|
                    0 <= i < len ==> 0 <= #[trigger] row_of(i, w as int) < h && 0 <= col_of(
                        i,
                        w as int,
                    ) < w && row_of(i, w as int) * w + col_of(i, w as int) == i,
                h == self.size_y,
                w == self.size_x,
                t == self.border_size,
                face == self.face_color(),
                goal == self.background(),
                goal.len() == len,
                self.buffer@.len() == len,
                len == h * w,
                self.same_style(old(self)),
                self.interaction() == old(self).interaction(),
                self.text == old(self).text,
                self.wf(),
                forall|i: int|
                    0 <= i < len && row_of(i, w as int) < y ==> #[trigger] self.buffer@[i]
                        == goal[i],
            decreases h - y,
        {
            let mut x: usize = 0;
            while x < w
                invariant
                    y < h,
                    x <= w,
                    forall|i: int|
                        0 <= i < len ==> 0 <= #[trigger] row_of(i, w as int) < h && 0 <= col_of(
                            i,
                            w as int,
                        ) < w && row_of(i, w as int) * w + col_of(i, w as int) == i,
                    h == self.size_y,
                    w == self.size_x,
                    t == self.border_size,
                    face == self.face_color(),
                    goal == self.background(),
                    goal.len() == len,
                    self.buffer@.len() == len,
                    len == h * w,
                    self.same_style(old(self)),
                    self.interaction() == old(self).interaction(),
                    self.text == old(self).text,
                    self.wf(),
                    forall|i: int|
                        0 <= i < len && (row_of(i, w as int) < y || (row_of(i, w as int) == y
                            && col_of(i, w as int) < x)) ==> #[trigger] self.buffer@[i] == goal[i],
                decreases w - x,
            {
                proof {
                    lemma_cell_in_buffer(y as int, x as int, w as int, h as int);
                    lemma_index_of_cell(y as int, x as int, w as int);
                }
                let color = if y < t || x < t || t >= h - y || t >= w - x {
                    self.border_color
                } else {
                    face
                };
                self.buffer.set(y * w + x, color);
                x += 1;
            }
            y += 1;
        }
        assert(self.buffer@ =~= goal);
    }

    /// Regenerates the label and lays it over the button's picture.
    pub fn render_text(&mut self, shaped: &Vec<Vec<PlacedGlyph>>)
        requires
            old(self).wf(),
        ensures
            final(self).wf(),
            final(self).same_style(old(self)),
            final(self).interaction() == old(self).interaction(),
            final(self).text.buffer@ == old(self).text.rendered(shaped@),
            final(self).buffer@ == overlaid(old(self).buffer@, old(self).text.rendered(shaped@)),
    {
        let label = self.text.render_into_buffer(shaped);
        let ghost under = self.buffer@;
        let len = self.buffer.len();
        let mut i: usize = 0;
        while i < len
            invariant
                i <= len,
                len == self.buffer@.len(),
                len == label@.len(),
                under.len() == len,
                self.wf(),
                self.same_style(old(self)),
                self.interaction() == old(self).interaction(),
                self.text.buffer@ == old(self).text.rendered(shaped@),
                forall|j: int|
                    0 <= j < len ==> #[trigger] self.buffer@[j] == if j < i {
                        overlaid(under, label@)[j]
                    } else {
                        under[j]
                    },
            decreases len - i,
        {
            let pixel = label[i];
            if !transparent(pixel) {
                self.buffer.set(i, pixel);
            }
            i += 1;
        }
        assert(self.buffer@ =~= overlaid(under, label@));
    }

    /// Regenerates the button's picture from its state and reports a
    /// character of the label that the font lacks.
    pub fn render(&mut self, shaped: &Vec<Vec<PlacedGlyph>>) -> (r: Result<(), RenderError>)
        requires
            old(self).wf(),
        ensures
            final(self).wf(),
            final(self).rendered_from(old(self), shaped@),
            r == glyph_report(shaped@),
    {
        self.render_button();
        self.render_text(shaped);
        if any_missing_glyph(shaped) {
            Err(RenderError::MissingGlyph)
        } else {
            Ok(())
        }
    }

    /// Replaces the label and regenerates the picture.  `shaped` holds the
    /// glyphs of the new label.
    pub fn set_text(&mut self, text: String, shaped: &Vec<Vec<PlacedGlyph>>) -> (r: Result<
        (),
        RenderError,
    >)
        requires
            old(self).wf(),
        ensures
            final(self).wf(),
            final(self).text.text == text,
            final(self).same_style(
                &(TextRendererButton {
                    text: Text { text: text, ..old(self).text },
                    ..*old(self)
                }),
            ),
            final(self).interaction() == old(self).interaction(),
            final(self).text.buffer@ == final(self).text.rendered(shaped@),
            final(self).buffer@ == final(self).rendered(shaped@),
            r == glyph_report(shaped@),
    {
        self.text.text = text;
        self.render(shaped)
    }

    /// Tells whether the mouse at `(mouse_y, mouse_x)` is inside the bounds.
    pub fn is_inside(&self, mouse_y: usize, mouse_x: usize) -> (r: bool)
        ensures
            r == self.contains(mouse_y as int, mouse_x as int),
    {
        mouse_y >= self.pos_y && mouse_y - self.pos_y <= self.size_y && mouse_x >= self.pos_x
            && mouse_x - self.pos_x <= self.size_x
    }

    /// Tells whether a tick with the mouse at `(mouse_y, mouse_x)` would
    /// regenerate the picture, whatever the mouse button does.  Only then
    /// does `update` look at the shaped label.
    pub fn will_redraw(&self, mouse_y: usize, mouse_x: usize) -> (r: bool)
        ensures
            forall|down: bool|
                r == #[trigger] redraws(
                    self.interaction(),
                    self.contains(mouse_y as int, mouse_x as int),
                    down,
                    self.delay,
                ),
    {
        let cooling = self.delay_counter > 0;
        let hovered = !cooling && self.is_inside(mouse_y, mouse_x);
        (!cooling) != self.enabled || hovered != self.hovered
    }

    /// Advances the button by one tick with the mouse at
    /// `(mouse_y, mouse_x)` and its left button down or not.  The picture is
    /// regenerated exactly when the tick changes what the button looks like;
    /// the result then reports a character of the label that the font lacks.
    pub fn update(
        &mut self,
        mouse_y: usize,
        mouse_x: usize,
        down: bool,
        shaped: &Vec<Vec<PlacedGlyph>>,
    ) -> (r: Result<(), RenderError>)
        requires
            old(self).wf(),
        ensures
            final(self).wf(),
            final(self).same_style(old(self)),
            final(self).interaction() == tick(
                old(self).interaction(),
                old(self).contains(mouse_y as int, mouse_x as int),
                down,
                old(self).delay,
            ),
            redraws(
                old(self).interaction(),
                old(self).contains(mouse_y as int, mouse_x as int),
                down,
                old(self).delay,
            ) ==> {
                &&& final(self).buffer@ == final(self).rendered(shaped@)
                &&& final(self).text.buffer@ == final(self).text.rendered(shaped@)
                &&& r == glyph_report(shaped@)
            },
            !redraws(
                old(self).interaction(),
                old(self).contains(mouse_y as int, mouse_x as int),
                down,
                old(self).delay,
            ) ==> {
                &&& final(self).buffer@ == old(self).buffer@
                &&& final(self).text.buffer@ == old(self).text.buffer@
                &&& r == Ok::<(), RenderError>(())
            },
    {
        let cooling = self.delay_counter > 0;
        if cooling {
            self.delay_counter -= 1;
        }
        let hovered = !cooling && self.is_inside(mouse_y, mouse_x);
        let dirty = (!cooling) != self.enabled || hovered != self.hovered;
        self.enabled = !cooling;
        self.hovered = hovered;
        let report = if dirty {
            self.render(shaped)
        } else {
            Ok(())
        };
        if self.hovered && down {
            self.pressed = true;
            self.delay_counter = self.delay;
        } else {
            self.pressed = false;
        }
        report
    }
}

} // verus!
