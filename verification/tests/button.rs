use gfx::error::RenderError;
use gfx::ui::button::TextRendererButton;
use gfx::ui::font::FontData;
use gfx::ui::glyph::{GlyphCell, PlacedGlyph};
use gfx::{Screen, WindowSettings};

const TEXT: u32 = 0xFFFFFFFF;
const BASE: u32 = 0xFF000011;
const HOVER: u32 = 0xFF000022;
const PRESSED: u32 = 0xFF000033;
const BORDER: u32 = 0xFF000044;

fn font() -> FontData {
    FontData::from_checked(vec![1, 2, 3], true).unwrap()
}

fn button(size_y: usize, size_x: usize, border: usize, delay: u16) -> TextRendererButton {
    sized_button(size_y, size_x, border, delay, 12)
}

fn small_button(border: usize) -> TextRendererButton {
    sized_button(8, 8, border, 0, 0)
}

fn sized_button(
    size_y: usize,
    size_x: usize,
    border: usize,
    delay: u16,
    text_size: usize,
) -> TextRendererButton {
    TextRendererButton::new(
        10,
        10,
        size_y,
        size_x,
        String::from("ok"),
        text_size,
        TEXT,
        font(),
        BASE,
        HOVER,
        PRESSED,
        BORDER,
        border,
        delay,
    )
}

fn no_glyphs() -> Vec<Vec<PlacedGlyph>> {
    Vec::new()
}

fn dot(min_y: i32, min_x: i32) -> PlacedGlyph {
    PlacedGlyph {
        missing: false,
        min_y,
        min_x,
        cells: vec![GlyphCell { x: 0, y: 0, coverage: 1.0f32.to_bits() }],
    }
}

#[test]
fn new_button_is_idle() {
    let b = button(40, 20, 1, 5);
    assert!(b.enabled);
    assert!(!b.hovered);
    assert!(!b.pressed);
    assert_eq!(b.delay, 5);
    assert_eq!(b.delay_counter, 0);
    assert_eq!(b.buffer, vec![0xFF000000u32; 800]);
    assert_eq!((b.pos_y, b.pos_x, b.size_y, b.size_x), (10, 10, 40, 20));
    assert_eq!(b.border_size, 1);
}

#[test]
fn label_is_inset_by_a_quarter_of_the_room() {
    let b = button(40, 20, 1, 5);
    assert_eq!(b.text.pos_y, 7);
    assert_eq!(b.text.pos_x, 7);
    assert_eq!((b.text.size_y, b.text.size_x), (40, 20));
    assert_eq!(b.text.text, "ok");
    assert_eq!(b.text.text_size, 12);
    assert_eq!(b.text.text_line_margin, 1);
    assert_eq!(b.text.text_char_margin, 1);
    assert_eq!(b.text.text_color, TEXT);
    assert_eq!(b.text.text_secondary_color, None);
    assert_eq!(b.text.buffer, vec![0u32; 800]);
}

#[test]
fn label_larger_than_the_button_has_no_inset() {
    let b = TextRendererButton::new(
        0, 0, 8, 8, String::new(), 100, TEXT, font(), BASE, HOVER, PRESSED, BORDER, 0, 0,
    );
    assert_eq!(b.text.pos_y, 0);
    assert_eq!(b.text.pos_x, 0);
    assert_eq!(b.text.text_size, 100);
}

#[test]
fn point_size_is_cut_to_sixteen_bits() {
    let b = TextRendererButton::new(
        0, 0, 1, 1, String::new(), 65536 + 9, TEXT, font(), BASE, HOVER, PRESSED, BORDER, 0, 0,
    );
    assert_eq!(b.text.text_size, 9);
}

#[test]
fn press_starts_the_cool_down_and_six_ticks_later_the_button_is_enabled() {
    let mut b = button(40, 20, 1, 5);
    let g = no_glyphs();
    assert_eq!(b.update(20, 20, true, &g), Ok(()));
    assert!(b.pressed);
    assert_eq!(b.delay_counter, 5);
    for left in [4u16, 3, 2, 1, 0] {
        assert_eq!(b.update(20, 20, false, &g), Ok(()));
        assert_eq!(b.delay_counter, left);
        assert!(!b.enabled);
        assert!(!b.hovered);
        assert!(!b.pressed);
    }
    assert_eq!(b.update(20, 20, false, &g), Ok(()));
    assert!(b.enabled);
    assert!(b.hovered);
    assert!(!b.pressed);
    assert_eq!(b.delay_counter, 0);
}

#[test]
fn mouse_is_not_noticed_during_the_cool_down() {
    let mut b = button(40, 20, 1, 3);
    let g = no_glyphs();
    let _ = b.update(20, 20, true, &g);
    for left in [2u16, 1, 0] {
        let _ = b.update(20, 20, true, &g);
        assert!(!b.hovered);
        assert!(!b.pressed);
        assert_eq!(b.delay_counter, left);
    }
    let _ = b.update(20, 20, true, &g);
    assert!(b.hovered);
    assert!(b.pressed);
    assert_eq!(b.delay_counter, 3);
}

#[test]
fn press_outside_the_button_does_nothing() {
    let mut b = button(40, 20, 1, 5);
    let g = no_glyphs();
    let _ = b.update(9, 20, true, &g);
    assert!(!b.hovered);
    assert!(!b.pressed);
    assert_eq!(b.delay_counter, 0);
    assert!(b.enabled);
}

#[test]
fn bounds_include_their_far_edges() {
    let g = no_glyphs();
    for (y, x, inside) in [
        (10usize, 10usize, true),
        (50, 30, true),
        (51, 30, false),
        (50, 31, false),
        (9, 10, false),
        (10, 9, false),
        (usize::MAX, usize::MAX, false),
    ] {
        let mut b = button(40, 20, 1, 5);
        let _ = b.update(y, x, false, &g);
        assert_eq!(b.hovered, inside);
    }
}

#[test]
fn button_without_delay_is_pressed_every_tick() {
    let mut b = button(40, 20, 1, 0);
    let g = no_glyphs();
    for _ in 0..3 {
        let _ = b.update(20, 20, true, &g);
        assert!(b.pressed);
        assert!(b.enabled);
        assert_eq!(b.delay_counter, 0);
    }
}

#[test]
fn picture_is_regenerated_only_when_the_look_changes() {
    let mut b = button(4, 4, 1, 2);
    let g = no_glyphs();
    let fresh = b.buffer.clone();
    let _ = b.update(0, 0, false, &g);
    assert_eq!(b.buffer, fresh);
    let _ = b.update(11, 11, false, &g);
    assert!(b.hovered);
    assert_eq!(b.buffer[5], HOVER);
    b.buffer[5] = 0xFF777777;
    let _ = b.update(12, 12, false, &g);
    assert_eq!(b.buffer[5], 0xFF777777);
    let _ = b.update(0, 0, false, &g);
    assert_eq!(b.buffer[5], BASE);
}

#[test]
fn redraw_is_foretold_from_the_mouse_position() {
    let mut b = button(40, 20, 1, 2);
    let g = no_glyphs();
    assert!(b.is_inside(10, 10));
    assert!(b.is_inside(50, 30));
    assert!(!b.is_inside(51, 30));
    assert!(!b.will_redraw(0, 0));
    assert!(b.will_redraw(20, 20));
    let _ = b.update(20, 20, true, &g);
    assert!(b.will_redraw(20, 20));
    let _ = b.update(20, 20, false, &g);
    assert!(!b.enabled);
    assert!(!b.will_redraw(20, 20));
    assert!(!b.will_redraw(0, 0));
    let _ = b.update(20, 20, false, &g);
    assert_eq!(b.delay_counter, 0);
    assert!(b.will_redraw(0, 0));
}

#[test]
fn disabled_button_shows_the_pressed_color() {
    let mut b = button(4, 4, 1, 2);
    let g = no_glyphs();
    let _ = b.update(11, 11, true, &g);
    assert_eq!(b.buffer[5], HOVER);
    let _ = b.update(11, 11, false, &g);
    assert!(!b.enabled);
    assert_eq!(b.buffer[5], PRESSED);
}

#[test]
fn border_is_as_thick_as_it_is_set() {
    let mut b = button(5, 6, 2, 0);
    b.render_button();
    let mut want = vec![BORDER; 30];
    want[2 * 6 + 2] = BASE;
    want[2 * 6 + 3] = BASE;
    assert_eq!(b.buffer, want);
}

#[test]
fn button_without_border_is_all_face() {
    let mut b = button(2, 3, 0, 0);
    b.render_button();
    assert_eq!(b.buffer, vec![BASE; 6]);
}

#[test]
fn thick_border_covers_the_button() {
    let mut b = button(3, 3, usize::MAX, 0);
    b.render_button();
    assert_eq!(b.buffer, vec![BORDER; 9]);
}

#[test]
fn label_is_laid_over_the_face() {
    let mut b = small_button(1);
    let shaped = vec![vec![dot(0, 0), dot(0, 0)]];
    assert_eq!(b.render(&shaped), Ok(()));
    let inset = 2usize;
    let mut want = vec![BASE; 64];
    for i in 0..8 {
        want[i] = BORDER;
        want[56 + i] = BORDER;
        want[i * 8] = BORDER;
        want[i * 8 + 7] = BORDER;
    }
    want[inset * 8 + inset] = TEXT;
    want[inset * 8 + inset + 1] = TEXT;
    assert_eq!(b.buffer, want);
    assert_eq!(b.text.buffer.iter().filter(|p| **p == TEXT).count(), 2);
}

#[test]
fn rendering_twice_gives_the_same_pixels() {
    let mut b = small_button(1);
    let shaped = vec![vec![dot(1, 1), dot(0, 2)]];
    let _ = b.render(&shaped);
    let once = b.buffer.clone();
    let label_once = b.text.buffer.clone();
    let _ = b.render(&shaped);
    assert_eq!(b.buffer, once);
    assert_eq!(b.text.buffer, label_once);
}

#[test]
fn new_label_leaves_nothing_of_the_old_one() {
    let mut b = small_button(0);
    let _ = b.render(&vec![vec![dot(0, 0), dot(0, 3)]]);
    assert_eq!(b.buffer.iter().filter(|p| **p == TEXT).count(), 2);
    assert_eq!(b.set_text(String::from("x"), &vec![vec![dot(3, 0)]]), Ok(()));
    assert_eq!(b.text.text, "x");
    let mut want = vec![BASE; 64];
    want[(2 + 3) * 8 + 2] = TEXT;
    assert_eq!(b.buffer, want);
}

#[test]
fn character_without_glyph_is_reported() {
    let mut b = small_button(0);
    let gone = PlacedGlyph { missing: true, min_y: 0, min_x: 0, cells: Vec::new() };
    let shaped = vec![vec![gone, dot(0, 0)]];
    assert_eq!(b.render(&shaped), Err(RenderError::MissingGlyph));
    let mut want = vec![BASE; 64];
    want[2 * 8 + 2 + 1] = TEXT;
    assert_eq!(b.buffer, want);
    assert_eq!(b.update(0, 0, false, &shaped), Ok(()));
    assert_eq!(b.update(11, 11, false, &shaped), Err(RenderError::MissingGlyph));
}

#[test]
fn button_is_drawn_at_its_position() {
    let mut s = Screen::new(14, 14, 1, "t", 60, WindowSettings::new(false, true, false, false, false));
    let mut b = button(2, 3, 0, 0);
    b.render_button();
    assert_eq!(b.draw(&mut s), Ok(()));
    for y in 0..14usize {
        for x in 0..14usize {
            let inside = (10..12).contains(&y) && (10..13).contains(&x);
            assert_eq!(s.buffer[y * 14 + x], if inside { BASE } else { 0xFF000000 });
        }
    }
}
