use gfx::ui::escape::{
    chars_of, escape_at, palette, split_lines, style_line, styled_lines, StyledChar, BLACK, BLUE,
    CYAN, GREEN, MAGENTA, RED, WHITE, YELLOW,
};

fn chars(s: &str) -> Vec<char> {
    s.chars().collect()
}

fn drawn(line: &[StyledChar]) -> String {
    line.iter().map(|c| c.ch).collect()
}

fn colors(line: &[StyledChar]) -> Vec<u32> {
    line.iter().map(|c| c.color).collect()
}

#[test]
fn palette_has_eight_colors() {
    assert_eq!(palette('0'), Some(BLACK));
    assert_eq!(palette('1'), Some(RED));
    assert_eq!(palette('2'), Some(GREEN));
    assert_eq!(palette('3'), Some(YELLOW));
    assert_eq!(palette('4'), Some(BLUE));
    assert_eq!(palette('5'), Some(MAGENTA));
    assert_eq!(palette('6'), Some(CYAN));
    assert_eq!(palette('7'), Some(WHITE));
    assert_eq!(palette('8'), None);
    assert_eq!(palette('m'), None);
    assert_eq!(RED, 0xFFFF0000);
    assert_eq!(WHITE, 0xFFFFFFFF);
}

#[test]
fn escape_is_found_only_where_it_starts() {
    let s = chars("a\x1b[32mb");
    assert_eq!(escape_at(&s, 0), None);
    assert_eq!(escape_at(&s, 1), Some(GREEN));
    assert_eq!(escape_at(&s, 2), None);
    assert_eq!(escape_at(&s, 6), None);
    assert_eq!(escape_at(&s, 7), None);
    assert_eq!(escape_at(&s, usize::MAX), None);
}

#[test]
fn escape_cut_short_is_no_escape() {
    let s = chars("\x1b[31");
    assert_eq!(escape_at(&s, 0), None);
    assert_eq!(escape_at(&chars(""), 0), None);
}

#[test]
fn red_escape_colors_the_rest_of_the_line() {
    let line = style_line(&chars("\x1b[31mRED"), 0xFFFFFFFF);
    assert_eq!(drawn(&line), "RED");
    assert_eq!(colors(&line), vec![RED, RED, RED]);
}

#[test]
fn escape_in_the_middle_switches_the_color() {
    let base = 0xFF123456;
    let line = style_line(&chars("ab\x1b[34mcd\x1b[32m"), base);
    assert_eq!(drawn(&line), "abcd");
    assert_eq!(colors(&line), vec![base, base, BLUE, BLUE]);
}

#[test]
fn unknown_window_is_drawn_as_text() {
    let base = 0xFF123456;
    let line = style_line(&chars("\x1b[38mx"), base);
    assert_eq!(drawn(&line), "\x1b[38mx");
    assert_eq!(colors(&line), vec![base; 6]);
    let line = style_line(&chars("\x1b[1mx"), base);
    assert_eq!(drawn(&line), "\x1b[1mx");
}

#[test]
fn line_without_escapes_keeps_its_characters() {
    let line = style_line(&chars("héllo"), 7);
    assert_eq!(drawn(&line), "héllo");
    assert_eq!(colors(&line), vec![7; 5]);
    assert!(style_line(&chars(""), 7).is_empty());
}

#[test]
fn chars_of_gives_every_character() {
    assert_eq!(chars_of("aé\n€"), vec!['a', 'é', '\n', '€']);
    assert!(chars_of("").is_empty());
}

#[test]
fn text_is_cut_at_line_feeds() {
    let lines = split_lines(&chars("one\ntwo\r\n\nfour"));
    assert_eq!(lines, vec![chars("one"), chars("two"), chars(""), chars("four")]);
}

#[test]
fn final_line_feed_starts_no_line() {
    assert_eq!(split_lines(&chars("one\n")), vec![chars("one")]);
    assert_eq!(split_lines(&chars("\n")), vec![chars("")]);
    assert!(split_lines(&chars("")).is_empty());
}

#[test]
fn lone_carriage_return_stays_in_the_line() {
    assert_eq!(split_lines(&chars("a\rb\nc\r")), vec![chars("a\rb"), chars("c\r")]);
}

#[test]
fn color_starts_anew_on_each_line() {
    let base = 0xFF0A0B0C;
    let lines = styled_lines("\x1b[31mR\nplain", base);
    assert_eq!(lines.len(), 2);
    assert_eq!(drawn(&lines[0]), "R");
    assert_eq!(colors(&lines[0]), vec![RED]);
    assert_eq!(drawn(&lines[1]), "plain");
    assert_eq!(colors(&lines[1]), vec![base; 5]);
}
