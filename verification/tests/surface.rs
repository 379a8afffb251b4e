use gfx::error::RenderError;
use gfx::frame::{FrameController, Pacing};
use gfx::pixel::{clip_end, transparent, OPAQUE_BLACK, TRANSPARENT};
use gfx::{Screen, WindowSettings};

fn screen(height: usize, width: usize) -> Screen {
    Screen::new(height, width, 1, "test", 60, WindowSettings::new(false, true, false, false, false))
}

#[test]
fn window_settings_keep_each_flag() {
    let s = WindowSettings::new(true, false, true, false, true);
    assert!(s.borderless);
    assert!(!s.title);
    assert!(s.resize);
    assert!(!s.topmost);
    assert!(s.transparency);
}

#[test]
fn new_screen_is_opaque_black() {
    let s = Screen::new(3, 4, 2, "demo", 50, WindowSettings::new(false, true, false, false, false));
    assert_eq!(s.size_y, 3);
    assert_eq!(s.size_x, 4);
    assert_eq!(s.scale, 2);
    assert_eq!(s.title, "demo");
    assert_eq!(s.raw_title, "demo");
    assert_eq!(s.buffer, vec![0xFF000000u32; 12]);
    assert_eq!(s.max_update_time_as_micros, 20000);
    assert!(s.window_options.title);
}

#[test]
fn screen_without_cells_is_empty() {
    let s = screen(0, 7);
    assert!(s.buffer.is_empty());
}

#[test]
fn window_size_is_the_scaled_surface() {
    let s = Screen::new(3, 4, 5, "demo", 60, WindowSettings::new(false, true, false, false, false));
    assert_eq!(s.window_size(), Some((20, 15)));
}

#[test]
fn window_size_that_does_not_fit_is_none() {
    let s = Screen::new(1, 2, usize::MAX, "demo", 60, WindowSettings::new(false, true, false, false, false));
    assert_eq!(s.window_size(), None);
}

#[test]
fn title_is_extended_after_a_dash() {
    let mut s = screen(1, 1);
    assert_eq!(s.add_to_title(String::from("60 fps")), "test - 60 fps");
    assert_eq!(s.title, "test");
}

#[test]
fn fill_rect_is_clipped_at_the_far_corner() {
    let mut s = screen(100, 100);
    s.draw_rectangle(90, 90, 20, 20, 0xFFFF0000);
    assert_eq!(s.buffer.len(), 10000);
    let mut touched = 0;
    for y in 0..100usize {
        for x in 0..100usize {
            let expected = if y >= 90 && x >= 90 { 0xFFFF0000 } else { 0xFF000000 };
            assert_eq!(s.buffer[y * 100 + x], expected);
            if s.buffer[y * 100 + x] == 0xFFFF0000 {
                touched += 1;
            }
        }
    }
    assert_eq!(touched, 100);
}

#[test]
fn fill_rect_inside_touches_exactly_its_cells() {
    let mut s = screen(4, 5);
    s.draw_rectangle(1, 2, 2, 2, 0xFF00FF00);
    let g = 0xFF00FF00u32;
    let b = 0xFF000000u32;
    assert_eq!(
        s.buffer,
        vec![b, b, b, b, b, b, b, g, g, b, b, b, g, g, b, b, b, b, b, b]
    );
}

#[test]
fn fill_rect_outside_changes_nothing() {
    let mut s = screen(4, 5);
    let before = s.buffer.clone();
    s.draw_rectangle(4, 0, 3, 3, 0xFFFFFFFF);
    assert_eq!(s.buffer, before);
    s.draw_rectangle(0, 5, 3, 3, 0xFFFFFFFF);
    assert_eq!(s.buffer, before);
    s.draw_rectangle(1, 1, 0, 3, 0xFFFFFFFF);
    assert_eq!(s.buffer, before);
}

#[test]
fn fill_rect_of_huge_size_does_not_wrap() {
    let mut s = screen(3, 3);
    s.draw_rectangle(1, 1, usize::MAX, usize::MAX, 0xFF0000FF);
    let c = 0xFF0000FFu32;
    let b = 0xFF000000u32;
    assert_eq!(s.buffer, vec![b, b, b, b, c, c, b, c, c]);
    s.draw_rectangle(usize::MAX, usize::MAX, usize::MAX, usize::MAX, 0xFFFFFFFF);
    assert_eq!(s.buffer, vec![b, b, b, b, c, c, b, c, c]);
}

#[test]
fn blit_skips_transparent_cells() {
    let mut s = screen(3, 3);
    let r = 0xFFFF0000u32;
    let half = 0x01123456u32;
    let sprite = [r, 0x00FFFFFF, half, TRANSPARENT];
    assert_eq!(s.draw_sprite(&sprite, 2, 2, 1, 1), Ok(()));
    let b = OPAQUE_BLACK;
    assert_eq!(s.buffer, vec![b, b, b, b, r, b, b, half, b]);
}

#[test]
fn blit_is_clipped_at_the_edges() {
    let mut s = screen(2, 3);
    let sprite = [1u32 << 24, 2 << 24, 3 << 24, 4 << 24, 5 << 24, 6 << 24];
    assert_eq!(s.draw_sprite(&sprite, 2, 3, 1, 2), Ok(()));
    let b = OPAQUE_BLACK;
    assert_eq!(s.buffer, vec![b, b, b, b, b, 1 << 24]);
}

#[test]
fn blit_does_not_wrap_into_the_next_row() {
    let mut s = screen(3, 3);
    let w = 0xFFFFFFFFu32;
    let sprite = [w, w, w];
    assert_eq!(s.draw_sprite(&sprite, 1, 3, 0, 2), Ok(()));
    let b = OPAQUE_BLACK;
    assert_eq!(s.buffer, vec![b, b, w, b, b, b, b, b, b]);
}

#[test]
fn blit_beyond_the_surface_changes_nothing() {
    let mut s = screen(2, 2);
    let before = s.buffer.clone();
    let sprite = [0xFFFFFFFFu32; 4];
    assert_eq!(s.draw_sprite(&sprite, 2, 2, 2, 0), Ok(()));
    assert_eq!(s.draw_sprite(&sprite, 2, 2, usize::MAX, usize::MAX), Ok(()));
    assert_eq!(s.buffer, before);
}

#[test]
fn blit_of_an_empty_sprite_is_reported() {
    let mut s = screen(2, 2);
    let before = s.buffer.clone();
    let sprite: [u32; 0] = [];
    assert_eq!(s.draw_sprite(&sprite, 2, 2, 0, 0), Err(RenderError::EmptySourceOrDestination));
    assert_eq!(s.buffer, before);
}

#[test]
fn blit_onto_an_empty_surface_is_reported() {
    let mut s = screen(0, 0);
    let sprite = [0xFFFFFFFFu32; 4];
    assert_eq!(s.draw_sprite(&sprite, 2, 2, 0, 0), Err(RenderError::EmptySourceOrDestination));
    assert!(s.buffer.is_empty());
}

#[test]
fn blit_of_a_short_sprite_copies_what_there_is() {
    let mut s = screen(2, 2);
    let w = 0xFFFFFFFFu32;
    let sprite = [w, w, w];
    assert_eq!(s.draw_sprite(&sprite, 2, 2, 0, 0), Err(RenderError::BufferBoundsViolation));
    assert_eq!(s.buffer, vec![w, w, w, OPAQUE_BLACK]);
}

#[test]
fn blit_with_sizes_that_overflow_is_reported() {
    let mut s = screen(2, 2);
    let w = 0xFFFFFFFFu32;
    let sprite = [w];
    assert_eq!(
        s.draw_sprite(&sprite, usize::MAX, usize::MAX, 0, 0),
        Err(RenderError::BufferBoundsViolation)
    );
    assert_eq!(s.buffer, vec![w, OPAQUE_BLACK, OPAQUE_BLACK, OPAQUE_BLACK]);
}

#[test]
fn only_a_zero_alpha_byte_is_transparent() {
    assert!(transparent(TRANSPARENT));
    assert!(transparent(0x00FFFFFF));
    assert!(!transparent(0x01000000));
    assert!(!transparent(OPAQUE_BLACK));
}

#[test]
fn clip_end_cuts_at_the_limit() {
    assert_eq!(clip_end(2, 3, 10), 5);
    assert_eq!(clip_end(8, 3, 10), 10);
    assert_eq!(clip_end(12, 3, 10), 10);
    assert_eq!(clip_end(2, usize::MAX, 10), 10);
}

#[test]
fn frame_within_budget_sleeps_the_rest() {
    let c = FrameController::new(60);
    assert_eq!(c.budget_micros, 16666);
    assert_eq!(
        c.frame_done(6666),
        Pacing::Sleep { elapsed: 6666, budget: 16666, remaining: 10000 }
    );
    assert_eq!(
        c.frame_done(16666),
        Pacing::Sleep { elapsed: 16666, budget: 16666, remaining: 0 }
    );
}

#[test]
fn frame_over_budget_is_an_overrun() {
    let c = FrameController::new(1000);
    assert_eq!(c.budget_micros, 1000);
    assert_eq!(c.frame_done(1001), Pacing::Overrun { elapsed: 1001, budget: 1000 });
}
