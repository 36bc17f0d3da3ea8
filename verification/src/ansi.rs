//! Conversion of an RGBA sprite to text: 24-bit ANSI colors on Unicode
//! half-block characters, two vertical pixels per terminal cell.
use vstd::prelude::*;
use crate::sprite::{Rgba, Sprite, px};
use crate::text::{dec, push_char, push_dec, push_str};

verus! {

broadcast use vstd::string::group_string_axioms;

pub type Rgb = (u8, u8, u8);

/// Current foreground and background colors of the terminal; `None` is the
/// reset state.
pub type Pen = (Option<Rgb>, Option<Rgb>);

pub open spec fn fg_code(c: Rgb) -> Seq<char> {
    "\x1b[38;2;"@ + dec(c.0 as nat) + seq![';'] + dec(c.1 as nat) + seq![';'] + dec(c.2 as nat)
        + seq!['m']
}

pub open spec fn bg_code(c: Rgb) -> Seq<char> {
    "\x1b[48;2;"@ + dec(c.0 as nat) + seq![';'] + dec(c.1 as nat) + seq![';'] + dec(c.2 as nat)
        + seq!['m']
}

/// Text of one cell and the pen after it, given the pen before it and the
/// visible colors of its top and bottom pixels:
/// both visible: `▀` with the top color in front and the bottom one behind;
/// only one: `▀` or `▄` in its color with the background reset;
/// neither: a space with the background reset.
/// A color code is written only when the pen changes.
pub open spec fn cell(pen: Pen, top: Option<Rgb>, bot: Option<Rgb>) -> (Seq<char>, Pen) {
    let (fg, bg) = pen;
    match (top, bot) {
        (None, None) => {
            let reset = if bg is Some {
                "\x1b[49m"@
            } else {
                Seq::empty()
            };
            (reset + seq![' '], (fg, None))
        },
        (Some(tc), None) => {
            let f = if fg != Some(tc) {
                fg_code(tc)
            } else {
                Seq::empty()
            };
            let reset = if bg is Some {
                "\x1b[49m"@
            } else {
                Seq::empty()
            };
            (f + reset + seq!['▀'], (Some(tc), None))
        },
        (None, Some(bc)) => {
            let f = if fg != Some(bc) {
                fg_code(bc)
            } else {
                Seq::empty()
            };
            let reset = if bg is Some {
                "\x1b[49m"@
            } else {
                Seq::empty()
            };
            (f + reset + seq!['▄'], (Some(bc), None))
        },
        (Some(tc), Some(bc)) => {
            let f = if fg != Some(tc) {
                fg_code(tc)
            } else {
                Seq::empty()
            };
            let b = if bg != Some(bc) {
                bg_code(bc)
            } else {
                Seq::empty()
            };
            (f + b + seq!['▀'], (Some(tc), Some(bc)))
        },
    }
}

/// Color of a pixel when it is visible at all (alpha above zero).
pub open spec fn visible_color(p: (u8, u8, u8, u8)) -> Option<Rgb> {
    if p.3 > 0 {
        Some((p.0, p.1, p.2))
    } else {
        None
    }
}

/// Top pixel of the cell at column `x` of text row `r`.
pub open spec fn top_of(m: Rgba, x: int, r: int) -> Option<Rgb> {
    visible_color(px(m, x, 2 * r))
}

/// Bottom pixel of the cell at column `x` of text row `r`; past the last
/// pixel row it is transparent.
pub open spec fn bot_of(m: Rgba, x: int, r: int) -> Option<Rgb> {
    if 2 * r + 1 < m.height {
        visible_color(px(m, x, 2 * r + 1))
    } else {
        None
    }
}

/// Text of the first `n` cells of text row `r`, and the pen after them.
pub open spec fn row_cells(m: Rgba, r: int, n: nat) -> (Seq<char>, Pen)
    decreases n,
{
    if n == 0 {
        (Seq::empty(), (None, None))
    } else {
        let prev = row_cells(m, r, (n - 1) as nat);
        let c = cell(prev.1, top_of(m, n - 1, r), bot_of(m, n - 1, r));
        (prev.0 + c.0, c.1)
    }
}

/// Number of text rows: pixel rows taken two at a time.
pub open spec fn text_rows(m: Rgba) -> nat {
    ((m.height + 1) / 2) as nat
}

/// One text row as it stands in the art, without the newline before it.
pub open spec fn art_row(m: Rgba, r: int) -> Seq<char> {
    row_cells(m, r, m.width as nat).0 + "\x1b[0m"@
}

/// The first `n` text rows, each after a newline.
pub open spec fn art_rows(m: Rgba, n: nat) -> Seq<char>
    decreases n,
{
    if n == 0 {
        Seq::empty()
    } else {
        art_rows(m, (n - 1) as nat) + seq!['\n'] + art_row(m, n - 1)
    }
}

/// The whole art: every text row after a newline, then a final newline.
pub open spec fn art_spec(m: Rgba) -> Seq<char> {
    art_rows(m, text_rows(m)) + seq!['\n']
}

fn push_color(out: &mut String, lead: &str, c: Rgb)
    ensures
        final(out)@ == old(out)@ + lead@ + dec(c.0 as nat) + seq![';'] + dec(c.1 as nat) + seq![';']
            + dec(c.2 as nat) + seq!['m'],
{
    push_str(out, lead);
    push_dec(out, c.0 as u64);
    push_char(out, ';');
    push_dec(out, c.1 as u64);
    push_char(out, ';');
    push_dec(out, c.2 as u64);
    push_char(out, 'm');
    assert(out@ =~= old(out)@ + lead@ + dec(c.0 as nat) + seq![';'] + dec(c.1 as nat) + seq![';']
        + dec(c.2 as nat) + seq!['m']);
}

fn opt_rgb_eq(a: Option<Rgb>, b: Rgb) -> (r: bool)
    ensures
        r == (a == Some(b)),
{
    match a {
        Some(x) => x.0 == b.0 && x.1 == b.1 && x.2 == b.2,
        None => false,
    }
}

/// Appends one cell; returns the pen after it.
fn push_cell(out: &mut String, pen: Pen, top: Option<Rgb>, bot: Option<Rgb>) -> (next: Pen)
    ensures
        final(out)@ == old(out)@ + cell(pen, top, bot).0,
        next == cell(pen, top, bot).1,
{
    let (fg, bg) = pen;
    match (top, bot) {
        (None, None) => {
            if bg.is_some() {
                push_str(out, "\x1b[49m");
            }
            push_char(out, ' ');
            assert(out@ =~= old(out)@ + cell(pen, top, bot).0);
            (fg, None)
        },
        (Some(tc), None) => {
            if !opt_rgb_eq(fg, tc) {
                push_color(out, "\x1b[38;2;", tc);
            }
            if bg.is_some() {
                push_str(out, "\x1b[49m");
            }
            push_char(out, '▀');
            assert(out@ =~= old(out)@ + cell(pen, top, bot).0);
            (Some(tc), None)
        },
        (None, Some(bc)) => {
            if !opt_rgb_eq(fg, bc) {
                push_color(out, "\x1b[38;2;", bc);
            }
            if bg.is_some() {
                push_str(out, "\x1b[49m");
            }
            push_char(out, '▄');
            assert(out@ =~= old(out)@ + cell(pen, top, bot).0);
            (Some(bc), None)
        },
        (Some(tc), Some(bc)) => {
            if !opt_rgb_eq(fg, tc) {
                push_color(out, "\x1b[38;2;", tc);
            }
            if !opt_rgb_eq(bg, bc) {
                push_color(out, "\x1b[48;2;", bc);
            }
            push_char(out, '▀');
            assert(out@ =~= old(out)@ + cell(pen, top, bot).0);
            (Some(tc), Some(bc))
        },
    }
}

fn color_of(p: (u8, u8, u8, u8)) -> (c: Option<Rgb>)
    ensures
        c == visible_color(p),
{
    if p.3 > 0 {
        Some((p.0, p.1, p.2))
    } else {
        None
    }
}

/// Converts an RGBA image to a string of ANSI 24-bit colour escape sequences
/// using Unicode half-block characters (▀/▄) to pack 2 vertical pixels per
/// terminal cell.
///
/// - Both opaque   → ▀  fg=top colour, bg=bottom colour
/// - Top only      → ▀  fg=top colour, bg=reset
/// - Bottom only   → ▄  fg=bottom colour, bg=reset
/// - Both transp.  → space (bg reset so terminal background shows through)
/// - Consecutive same-state pixels share escape sequences
/// - Each row ends with \x1b[0m to reset colour state
pub fn image_to_ansi_art(img: &Sprite) -> (art: String)
    requires
        img@.height < u32::MAX,
        img@.width * text_rows(img@) * 30 <= u32::MAX,
    ensures
        art@ == art_spec(img@),
{
    let width = img.width();
    let height = img.height();
    let rows = (height + 1) / 2;
    let mut art = String::new();
    let mut row: u32 = 0;
    while row < rows
        invariant
            width == img@.width,
            height == img@.height,
            rows == text_rows(img@),
            row <= rows,
            art@ == art_rows(img@, row as nat),
        decreases rows - row,
    {
        push_char(&mut art, '\n');
        let y_top = row * 2;
        let y_bot = row * 2 + 1;
        let ghost before = art@;
        let mut pen: Pen = (None, None);
        let mut x: u32 = 0;
        while x < width
            invariant
                width == img@.width,
                height == img@.height,
                rows == text_rows(img@),
                row < rows,
                y_top == 2 * row,
                y_bot == 2 * row + 1,
                x <= width,
                art@ == before + row_cells(img@, row as int, x as nat).0,
                pen == row_cells(img@, row as int, x as nat).1,
            decreases width - x,
        {
            let top = color_of(img.pixel(x, y_top));
            let bot = if y_bot < height {
                color_of(img.pixel(x, y_bot))
            } else {
                None
            };
            assert(top == top_of(img@, x as int, row as int));
            assert(bot == bot_of(img@, x as int, row as int));
            pen = push_cell(&mut art, pen, top, bot);
            assert(art@ =~= before + row_cells(img@, row as int, (x + 1) as nat).0);
            x = x + 1;
        }
        push_str(&mut art, "\x1b[0m");
        assert(art@ =~= art_rows(img@, (row + 1) as nat));
        row = row + 1;
    }
    push_char(&mut art, '\n');
    art
}

} // verus!
