use gfx::ui::escape::StyledChar;
use gfx::ui::glyph::{
    any_missing_glyph, draw_glyph, draw_line, draw_text, ink, Brush, GlyphCell, PlacedGlyph,
    CORE_COVERAGE, EDGE_COVERAGE, INFINITE_COVERAGE,
};

const P: u32 = 0xFFAA0000;
const S: u32 = 0xFF00BB00;
const OLD: u32 = 0xFF111111;

fn brush(secondary: Option<u32>, clear: bool) -> Brush {
    Brush { primary: P, secondary, clear }
}

fn cell(x: u32, y: u32, coverage: f32) -> GlyphCell {
    GlyphCell { x, y, coverage: coverage.to_bits() }
}

fn glyph(min_y: i32, min_x: i32, cells: Vec<GlyphCell>) -> PlacedGlyph {
    PlacedGlyph { missing: false, min_y, min_x, cells }
}

fn styled(text: &str, color: u32) -> Vec<StyledChar> {
    text.chars().map(|ch| StyledChar { ch, color }).collect()
}

#[test]
fn thresholds_are_the_bit_patterns_of_the_numbers() {
    assert_eq!(CORE_COVERAGE, 0.65f32.to_bits());
    assert_eq!(EDGE_COVERAGE, 0.45f32.to_bits());
    assert_eq!(INFINITE_COVERAGE, f32::INFINITY.to_bits());
}

#[test]
fn core_coverage_takes_the_primary_color() {
    assert_eq!(ink(1.0f32.to_bits(), brush(Some(S), true)), Some(P));
    assert_eq!(ink(0.66f32.to_bits(), brush(None, true)), Some(P));
    assert_eq!(ink(0.65f32.to_bits() + 1, brush(Some(S), true)), Some(P));
    assert_eq!(ink(f32::INFINITY.to_bits(), brush(Some(S), true)), Some(P));
}

#[test]
fn edge_coverage_takes_the_secondary_color() {
    assert_eq!(ink(0.65f32.to_bits(), brush(Some(S), true)), Some(S));
    assert_eq!(ink(0.5f32.to_bits(), brush(Some(S), false)), Some(S));
    assert_eq!(ink(0.45f32.to_bits() + 1, brush(Some(S), true)), Some(S));
}

#[test]
fn edge_coverage_without_secondary_is_dropped() {
    assert_eq!(ink(0.65f32.to_bits(), brush(None, true)), None);
    assert_eq!(ink(0.5f32.to_bits(), brush(None, false)), None);
}

#[test]
fn low_coverage_takes_no_color() {
    assert_eq!(ink(0.45f32.to_bits(), brush(Some(S), true)), None);
    assert_eq!(ink(0.0f32.to_bits(), brush(Some(S), true)), None);
    assert_eq!(ink(0.01f32.to_bits(), brush(Some(S), true)), None);
}

#[test]
fn negative_and_undefined_coverage_take_no_color() {
    assert_eq!(ink((-1.0f32).to_bits(), brush(Some(S), true)), None);
    assert_eq!(ink((-0.0f32).to_bits(), brush(Some(S), true)), None);
    assert_eq!(ink(f32::NAN.to_bits(), brush(Some(S), true)), None);
    assert_eq!(ink(u32::MAX, brush(Some(S), true)), None);
}

#[test]
fn glyph_is_painted_at_its_shifted_place() {
    let mut buf = vec![OLD; 12];
    let g = glyph(1, -1, vec![cell(0, 0, 1.0), cell(1, 0, 0.5), cell(2, 0, 0.1)]);
    draw_glyph(&mut buf, 3, 4, &g, 0, 2, brush(Some(S), true));
    let mut want = vec![OLD; 12];
    want[4 + 1] = P;
    want[4 + 2] = S;
    want[4 + 3] = 0;
    assert_eq!(buf, want);
}

#[test]
fn uncovered_cell_is_left_alone_without_clear() {
    let mut buf = vec![OLD; 4];
    let g = glyph(0, 0, vec![cell(0, 0, 0.2), cell(1, 0, 0.5), cell(0, 1, 0.9)]);
    draw_glyph(&mut buf, 2, 2, &g, 0, 0, brush(None, false));
    assert_eq!(buf, vec![OLD, OLD, P, OLD]);
}

#[test]
fn cells_outside_the_buffer_are_dropped() {
    let mut buf = vec![OLD; 4];
    let g = glyph(
        -1,
        -1,
        vec![
            cell(0, 0, 1.0),
            cell(1, 1, 1.0),
            cell(3, 1, 1.0),
            cell(1, 3, 1.0),
            cell(u32::MAX, u32::MAX, 1.0),
        ],
    );
    draw_glyph(&mut buf, 2, 2, &g, 0, 0, brush(None, true));
    assert_eq!(buf, vec![P, OLD, OLD, OLD]);
}

#[test]
fn column_past_the_row_end_does_not_wrap() {
    let mut buf = vec![OLD; 6];
    let g = glyph(0, 0, vec![cell(3, 0, 1.0), cell(2, 0, 1.0)]);
    draw_glyph(&mut buf, 2, 3, &g, 0, 0, brush(None, true));
    assert_eq!(buf, vec![OLD, OLD, P, OLD, OLD, OLD]);
}

#[test]
fn extreme_offsets_are_dropped() {
    let mut buf = vec![OLD; 4];
    let g = glyph(i32::MIN, i32::MAX, vec![cell(0, 0, 1.0), cell(u32::MAX, u32::MAX, 1.0)]);
    draw_glyph(&mut buf, 2, 2, &g, 0, 0, brush(None, true));
    assert_eq!(buf, vec![OLD; 4]);
    let h = glyph(0, 0, vec![cell(0, 0, 1.0)]);
    draw_glyph(&mut buf, 2, 2, &h, -5, 0, brush(None, true));
    assert_eq!(buf, vec![OLD; 4]);
}

#[test]
fn later_cell_decides_where_two_overlap() {
    let mut buf = vec![OLD; 2];
    let g = glyph(0, 0, vec![cell(0, 0, 1.0), cell(0, 0, 0.0), cell(1, 0, 0.0), cell(1, 0, 1.0)]);
    draw_glyph(&mut buf, 1, 2, &g, 0, 0, brush(None, true));
    assert_eq!(buf, vec![0, P]);
}

#[test]
fn missing_glyph_is_skipped() {
    let mut buf = vec![OLD; 2];
    let g = PlacedGlyph { missing: true, min_y: 0, min_x: 0, cells: vec![cell(0, 0, 1.0)] };
    draw_glyph(&mut buf, 1, 2, &g, 0, 0, brush(None, true));
    assert_eq!(buf, vec![OLD; 2]);
}

#[test]
fn each_glyph_moves_right_by_its_place_times_the_gap() {
    let mut buf = vec![OLD; 10];
    let one = || glyph(0, 0, vec![cell(0, 0, 1.0)]);
    let glyphs = vec![one(), one(), one()];
    let chars = vec![
        StyledChar { ch: 'a', color: 1 << 24 },
        StyledChar { ch: 'b', color: 2 << 24 },
        StyledChar { ch: 'c', color: 3 << 24 },
    ];
    draw_line(&mut buf, 1, 10, &glyphs, &chars, 0, 1, 3, None, true);
    let mut want = vec![OLD; 10];
    want[1] = 1 << 24;
    want[4] = 2 << 24;
    want[7] = 3 << 24;
    assert_eq!(buf, want);
}

#[test]
fn glyph_without_a_character_is_not_painted() {
    let mut buf = vec![OLD; 4];
    let one = || glyph(0, 0, vec![cell(0, 0, 1.0)]);
    let glyphs = vec![one(), one()];
    draw_line(&mut buf, 1, 4, &glyphs, &styled("a", P), 0, 0, 2, None, true);
    assert_eq!(buf, vec![P, OLD, OLD, OLD]);
}

#[test]
fn each_line_moves_down_by_the_advance() {
    let mut buf = vec![OLD; 8];
    let one = || vec![glyph(0, 0, vec![cell(0, 0, 1.0)])];
    let shaped = vec![one(), one(), one()];
    let lines = vec![styled("a", 1 << 24), styled("b", 2 << 24), styled("c", 3 << 24)];
    draw_text(&mut buf, 8, 1, &shaped, &lines, 1, 0, 3, 0, None, false);
    let mut want = vec![OLD; 8];
    want[1] = 1 << 24;
    want[4] = 2 << 24;
    want[7] = 3 << 24;
    assert_eq!(buf, want);
}

#[test]
fn line_of_glyphs_without_a_line_of_text_is_not_painted() {
    let mut buf = vec![OLD; 4];
    let one = || vec![glyph(0, 0, vec![cell(0, 0, 1.0)])];
    let shaped = vec![one(), one()];
    let lines = vec![styled("a", P)];
    draw_text(&mut buf, 4, 1, &shaped, &lines, 0, 0, 1, 0, None, false);
    assert_eq!(buf, vec![P, OLD, OLD, OLD]);
}

#[test]
fn missing_glyph_is_found_anywhere() {
    let ok = || glyph(0, 0, vec![]);
    let gone = || PlacedGlyph { missing: true, min_y: 0, min_x: 0, cells: vec![] };
    assert!(!any_missing_glyph(&vec![]));
    assert!(!any_missing_glyph(&vec![vec![], vec![ok(), ok()]]));
    assert!(any_missing_glyph(&vec![vec![ok()], vec![ok(), gone()]]));
    assert!(any_missing_glyph(&vec![vec![gone()], vec![]]));
}
