//! Lines of text and the colour escapes inside them.
//!
//! A text is cut into lines at line feeds.  Inside a line, five characters of
//! the form `ESC [ 3 d m`, with `d` a digit from 0 to 7, are a colour escape:
//! they are not drawn, and from there to the end of the line the text takes
//! the colour that `d` names.  Anything else is drawn as it stands.

use vstd::prelude::*;

verus! {

pub const BLACK: u32 = 0xFF00_0000;

pub const RED: u32 = 0xFFFF_0000;

pub const GREEN: u32 = 0xFF00_FF00;

pub const YELLOW: u32 = 0xFFFF_FF00;

pub const BLUE: u32 = 0xFF00_00FF;

pub const MAGENTA: u32 = 0xFFFF_00FF;

pub const CYAN: u32 = 0xFF00_FFFF;

pub const WHITE: u32 = 0xFFFF_FFFF;

/// The number of characters that a colour escape takes up.
pub const ESCAPE_LEN: usize = 5;

/// A character that is drawn, and the colour it is drawn in.
#[derive(Clone, Copy, Debug, PartialEq, Eq, Structural)]
pub struct StyledChar {
    pub ch: char,
    pub color: u32,
}

/// The character `ch` drawn in `color`.
pub open spec fn styled_char(ch: char, color: u32) -> StyledChar {
    StyledChar { ch, color }
}

/// The colour that the digit of an escape names.
pub open spec fn palette_color(digit: char) -> Option<u32> {
    if digit == '0' {
        Some(BLACK)
    } else if digit == '1' {
        Some(RED)
    } else if digit == '2' {
        Some(GREEN)
    } else if digit == '3' {
        Some(YELLOW)
    } else if digit == '4' {
        Some(BLUE)
    } else if digit == '5' {
        Some(MAGENTA)
    } else if digit == '6' {
        Some(CYAN)
    } else if digit == '7' {
        Some(WHITE)
    } else {
        None
    }
}

/// The colour of the escape that starts at `at`, if one starts there.
pub open spec fn escape_color(s: Seq<char>, at: int) -> Option<u32> {
    if 0 <= at && at + ESCAPE_LEN <= s.len() && s[at] == '\x1b' && s[at + 1] == '[' && s[at + 2]
        == '3' && s[at + 4] == 'm' {
        palette_color(s[at + 3])
    } else {
        None
    }
}

/// The drawn characters of `s` from `at` on, each with its colour, when the
/// colour in force at `at` is `color`.
pub open spec fn styled_from(s: Seq<char>, at: int, color: u32) -> Seq<StyledChar>
    decreases s.len() - at,
{
    if at < 0 || at >= s.len() {
        Seq::empty()
    } else {
        match escape_color(s, at) {
            Some(next) => styled_from(s, at + ESCAPE_LEN, next),
            None => seq![styled_char(s[at], color)] + styled_from(s, at + 1, color),
        }
    }
}

/// The drawn characters of a line whose colour at its start is `base`.
pub open spec fn styled(line: Seq<char>, base: u32) -> Seq<StyledChar> {
    styled_from(line, 0, base)
}

/// A line without the carriage return that stood before its line feed.
pub open spec fn without_return(line: Seq<char>) -> Seq<char> {
    if line.len() > 0 && line.last() == '\r' {
        line.drop_last()
    } else {
        line
    }
}

/// The lines of `s` that are not yet complete at `at`, when the line being
/// read began at `start`.
pub open spec fn lines_from(s: Seq<char>, at: int, start: int) -> Seq<Seq<char>>
    decreases s.len() - at,
{
    if at < 0 || at >= s.len() {
        if 0 <= start < s.len() {
            seq![s.subrange(start, s.len() as int)]
        } else {
            Seq::empty()
        }
    } else if s[at] == '\n' {
        seq![without_return(s.subrange(start, at))] + lines_from(s, at + 1, at + 1)
    } else {
        lines_from(s, at + 1, start)
    }
}

/// The lines of a text.  A line ends at a line feed, or at a carriage return
/// followed by one; neither belongs to the line.  A line feed at the very end
/// of the text starts no further line.
pub open spec fn lines_of(s: Seq<char>) -> Seq<Seq<char>> {
    lines_from(s, 0, 0)
}

/// The drawn characters of every line of a text, each line starting in the
/// colour `base`.
pub open spec fn styled_text(s: Seq<char>, base: u32) -> Seq<Seq<StyledChar>> {
    Seq::new(lines_of(s).len(), |l: int| styled(lines_of(s)[l], base))
}

/// The contents of each vector of a sequence of vectors.
pub open spec fn views<T>(rows: Seq<Vec<T>>) -> Seq<Seq<T>> {
    Seq::new(rows.len(), |l: int| rows[l]@)
}

/// Appending one item and then a tail is appending the tail with the item in
/// front.
pub proof fn lemma_push_then_rest<T>(head: Seq<T>, item: T, rest: Seq<T>)
    ensures
        head.push(item) + rest == head + (seq![item] + rest),
{
    assert(head.push(item) + rest =~= head + (seq![item] + rest));
}

pub fn palette(digit: char) -> (r: Option<u32>)
    ensures
        r == palette_color(digit),
{
    if digit == '0' {
        Some(BLACK)
    } else if digit == '1' {
        Some(RED)
    } else if digit == '2' {
        Some(GREEN)
    } else if digit == '3' {
        Some(YELLOW)
    } else if digit == '4' {
        Some(BLUE)
    } else if digit == '5' {
        Some(MAGENTA)
    } else if digit == '6' {
        Some(CYAN)
    } else if digit == '7' {
        Some(WHITE)
    } else {
        None
    }
}

/// Looks for a colour escape at `at`.
pub fn escape_at(s: &Vec<char>, at: usize) -> (r: Option<u32>)
    ensures
        r == escape_color(s@, at as int),
{
    if s.len() >= ESCAPE_LEN && at <= s.len() - ESCAPE_LEN && s[at] == '\x1b' && s[at + 1] == '['
        && s[at + 2] == '3' && s[at + 4] == 'm' {
        palette(s[at + 3])
    } else {
        None
    }
}

/// Takes the colour escapes out of a line and gives each remaining character
/// the colour that is in force where it stands.
pub fn style_line(line: &Vec<char>, base: u32) -> (r: Vec<StyledChar>)
    ensures
        r@ == styled(line@, base),
{
    let mut out: Vec<StyledChar> = Vec::new();
    let mut color = base;
    let mut at: usize = 0;
    while at < line.len()
        invariant
            at <= line.len() + ESCAPE_LEN,
            out@ + styled_from(line@, at as int, color) == styled(line@, base),
        decreases line.len() + ESCAPE_LEN - at,
    {
        match escape_at(line, at) {
            Some(next) => {
                assert(styled_from(line@, at as int, color) == styled_from(
                    line@,
                    at + ESCAPE_LEN,
                    next,
                ));
                color = next;
                at += ESCAPE_LEN;
            },
            None => {
                proof {
                    let here = styled_char(line@[at as int], color);
                    let rest = styled_from(line@, at + 1, color);
                    assert(styled_from(line@, at as int, color) == seq![here] + rest);
                    lemma_push_then_rest(out@, here, rest);
                }
                out.push(StyledChar { ch: line[at], color });
                at += 1;
            },
        }
    }
    assert(out@ + Seq::<StyledChar>::empty() =~= out@);
    out
}

/// The characters of a text, one by one.
pub fn chars_of(text: &str) -> (r: Vec<char>)
    ensures
        r@ == text@,
{
    let mut out: Vec<char> = Vec::new();
    let len = text.unicode_len();
    let mut at: usize = 0;
    while at < len
        invariant
            len == text@.len(),
            at <= len,
            out@ == text@.take(at as int),
        decreases len - at,
    {
        out.push(text.get_char(at));
        at += 1;
        assert(out@ =~= text@.take(at as int));
    }
    assert(text@.take(len as int) =~= text@);
    out
}

/// Cuts a text into its lines.
pub fn split_lines(text: &Vec<char>) -> (r: Vec<Vec<char>>)
    ensures
        r@.len() == lines_of(text@).len(),
        forall|l: int| 0 <= l < r@.len() ==> (#[trigger] r@[l])@ == lines_of(text@)[l],
{
    let mut out: Vec<Vec<char>> = Vec::new();
    let mut line: Vec<char> = Vec::new();
    let ghost mut done: Seq<Seq<char>> = Seq::empty();
    let ghost mut start: int = 0;
    let mut at: usize = 0;
    while at < text.len()
        invariant
            at <= text.len(),
            0 <= start <= at,
            line@ == text@.subrange(start, at as int),
            done.len() == out@.len(),
            forall|l: int| 0 <= l < out@.len() ==> (#[trigger] out@[l])@ == done[l],
            done + lines_from(text@, at as int, start) == lines_of(text@),
        decreases text.len() - at,
    {
        let c = text[at];
        if c == '\n' {
            let ghost whole = line@;
            if line.len() > 0 && line[line.len() - 1] == '\r' {
                line.pop();
            }
            assert(line@ =~= without_return(whole));
            let ghost rest = lines_from(text@, at + 1, at + 1);
            proof {
                lemma_push_then_rest(done, line@, rest);
            }
            proof {
                done = done.push(line@);
                start = at + 1;
            }
            out.push(line);
            line = Vec::new();
            at += 1;
            assert(line@ =~= text@.subrange(start, at as int));
        } else {
            line.push(c);
            at += 1;
            assert(line@ =~= text@.subrange(start, at as int));
        }
    }
    if line.len() > 0 {
        assert(line@ =~= text@.subrange(start, text@.len() as int));
        assert(done.push(line@) =~= done + seq![line@]);
        proof {
            done = done.push(line@);
        }
        out.push(line);
    } else {
        assert(done + Seq::<Seq<char>>::empty() =~= done);
    }
    out
}

/// Cuts a text into lines and takes the colour escapes out of each.
pub fn styled_lines(text: &str, base: u32) -> (r: Vec<Vec<StyledChar>>)
    ensures
        views(r@) == styled_text(text@, base),
{
    let chars = chars_of(text);
    let lines = split_lines(&chars);
    let mut out: Vec<Vec<StyledChar>> = Vec::new();
    let mut l: usize = 0;
    while l < lines.len()
        invariant
            l <= lines@.len(),
            chars@ == text@,
            lines@.len() == lines_of(text@).len(),
            forall|i: int| 0 <= i < lines@.len() ==> (#[trigger] lines@[i])@ == lines_of(text@)[i],
            out@.len() == l,
            forall|i: int| 0 <= i < l ==> (#[trigger] out@[i])@ == styled(lines_of(text@)[i], base),
        decreases lines@.len() - l,
    {
        let line = style_line(&lines[l], base);
        out.push(line);
        l += 1;
    }
    assert(views(out@) =~= styled_text(text@, base));
    out
}

} // verus!
