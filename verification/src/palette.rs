//! ANSI color palette → CSS color string conversion.
use vstd::prelude::*;

use crate::attr::Color;
use crate::text::{chars_to_string, decimal, push_decimal_chars};

verus! {

/// The 16 standard ANSI colors as RGB triples (xterm defaults).
pub open spec fn ansi16(i: int) -> (u8, u8, u8) {
    if i == 0 {
        (0, 0, 0)  // black
    } else if i == 1 {
        (205, 0, 0)  // red
    } else if i == 2 {
        (0, 205, 0)  // green
    } else if i == 3 {
        (205, 205, 0)  // yellow
    } else if i == 4 {
        (0, 0, 238)  // blue
    } else if i == 5 {
        (205, 0, 205)  // magenta
    } else if i == 6 {
        (0, 205, 205)  // cyan
    } else if i == 7 {
        (229, 229, 229)  // white
    } else if i == 8 {
        (127, 127, 127)  // bright black
    } else if i == 9 {
        (255, 0, 0)  // bright red
    } else if i == 10 {
        (0, 255, 0)  // bright green
    } else if i == 11 {
        (255, 255, 0)  // bright yellow
    } else if i == 12 {
        (92, 92, 255)  // bright blue
    } else if i == 13 {
        (255, 0, 255)  // bright magenta
    } else if i == 14 {
        (0, 255, 255)  // bright cyan
    } else {
        (255, 255, 255)  // bright white
    }
}

/// One channel level of the 6×6×6 color cube: 0, then 95 + 40·(c − 1).
pub open spec fn cube_level(c: int) -> int {
    if c == 0 {
        0
    } else {
        55 + 40 * c
    }
}

/// The RGB value of an indexed color: the 16 ANSI colors, then the
/// 6×6×6 cube (16–231), then a 24-step grayscale ramp (232–255).
pub open spec fn indexed_rgb(idx: u8) -> (int, int, int) {
    if idx < 16 {
        let (r, g, b) = ansi16(idx as int);
        (r as int, g as int, b as int)
    } else if idx < 232 {
        let i = idx - 16;
        (cube_level(i / 36), cube_level((i / 6) % 6), cube_level(i % 6))
    } else {
        let v: int = 8 + 10 * (idx - 232);
        (v, v, v)
    }
}

fn ansi_16(i: u8) -> (rgb: (u8, u8, u8))
    requires
        i < 16,
    ensures
        rgb == ansi16(i as int),
{
    if i == 0 {
        (0, 0, 0)
    } else if i == 1 {
        (205, 0, 0)
    } else if i == 2 {
        (0, 205, 0)
    } else if i == 3 {
        (205, 205, 0)
    } else if i == 4 {
        (0, 0, 238)
    } else if i == 5 {
        (205, 0, 205)
    } else if i == 6 {
        (0, 205, 205)
    } else if i == 7 {
        (229, 229, 229)
    } else if i == 8 {
        (127, 127, 127)
    } else if i == 9 {
        (255, 0, 0)
    } else if i == 10 {
        (0, 255, 0)
    } else if i == 11 {
        (255, 255, 0)
    } else if i == 12 {
        (92, 92, 255)
    } else if i == 13 {
        (255, 0, 255)
    } else if i == 14 {
        (0, 255, 255)
    } else {
        (255, 255, 255)
    }
}

fn to_val(c: u8) -> (v: u8)
    requires
        c < 6,
    ensures
        v == cube_level(c as int),
{
    if c == 0 {
        0
    } else {
        55 + 40 * c
    }
}

/// Convert an indexed color (0-255) to RGB.
pub fn indexed_to_rgb(idx: u8) -> (rgb: (u8, u8, u8))
    ensures
        (rgb.0 as int, rgb.1 as int, rgb.2 as int) == indexed_rgb(idx),
{
    if idx < 16 {
        ansi_16(idx)
    } else if idx < 232 {
        // 6x6x6 color cube (indices 16-231)
        let idx = idx - 16;
        let b = idx % 6;
        let g = (idx / 6) % 6;
        let r = idx / 36;
        (to_val(r), to_val(g), to_val(b))
    } else {
        // Grayscale ramp (indices 232-255)
        let v: u8 = 8 + 10 * (idx - 232);
        (v, v, v)
    }
}

/// The characters `rgb(r,g,b)` with decimal channels.
pub open spec fn css_rgb(r: u8, g: u8, b: u8) -> Seq<char> {
    let digits = |d: Seq<u8>| d.map_values(|x: u8| x as char);
    seq!['r', 'g', 'b', '('] + digits(decimal(r as nat)) + seq![','] + digits(decimal(g as nat))
        + seq![','] + digits(decimal(b as nat)) + seq![')']
}

/// The CSS text of a terminal color; `default_color` stands for `Color::Default`.
pub open spec fn css_color(color: Color, default_color: Seq<char>) -> Seq<char> {
    match color {
        Color::Default => default_color,
        Color::Indexed(idx) => {
            let (r, g, b) = indexed_rgb(idx);
            css_rgb(r as u8, g as u8, b as u8)
        },
        Color::Rgb(r, g, b) => css_rgb(r, g, b),
    }
}

fn rgb_chars(r: u8, g: u8, b: u8) -> (s: Vec<char>)
    ensures
        s@ == css_rgb(r, g, b),
{
    let mut out: Vec<char> = vec!['r', 'g', 'b', '('];
    push_decimal_chars(&mut out, r as u64);
    out.push(',');
    push_decimal_chars(&mut out, g as u64);
    out.push(',');
    push_decimal_chars(&mut out, b as u64);
    out.push(')');
    assert(out@ =~= css_rgb(r, g, b));
    out
}

/// Convert a terminal `Color` to a CSS color string.
/// `default_color` is used for `Color::Default`.
pub fn color_to_css(color: Color, default_color: &str) -> (css: String)
    ensures
        css@ == css_color(color, default_color@),
{
    match color {
        Color::Default => default_color.to_owned(),
        Color::Indexed(idx) => {
            let (r, g, b) = indexed_to_rgb(idx);
            let chars = rgb_chars(r, g, b);
            chars_to_string(chars.as_slice())
        },
        Color::Rgb(r, g, b) => {
            let chars = rgb_chars(r, g, b);
            chars_to_string(chars.as_slice())
        },
    }
}

/// Theme colors for the terminal.
#[derive(Debug, Clone)]
pub struct Theme {
    pub foreground: String,
    pub background: String,
    pub cursor_color: String,
    pub selection_bg: String,
    pub selection_fg: String,
}

impl Default for Theme {
    fn default() -> (t: Self)
        ensures
            t.foreground@ == "#d4d4d4"@,
            t.background@ == "#1e1e1e"@,
            t.cursor_color@ == "#d4d4d4"@,
            t.selection_bg@ == "rgba(68,138,255,0.35)"@,
            t.selection_fg@ == "#ffffff"@,
    {
        Self {
            foreground: "#d4d4d4".to_owned(),
            background: "#1e1e1e".to_owned(),
            cursor_color: "#d4d4d4".to_owned(),
            selection_bg: "rgba(68,138,255,0.35)".to_owned(),
            selection_fg: "#ffffff".to_owned(),
        }
    }
}

/// The 16 ANSI colors are xterm's defaults: black, red (205,0,0), green,
/// yellow (205,205,0), blue (0,0,238), magenta, cyan, white (229,229,229),
/// then the bright variants.
pub proof fn lemma_ansi_colors()
    ensures
        indexed_rgb(0u8) == (0int, 0int, 0int),
        indexed_rgb(1u8) == (205int, 0int, 0int),
        indexed_rgb(2u8) == (0int, 205int, 0int),
        indexed_rgb(3u8) == (205int, 205int, 0int),
        indexed_rgb(4u8) == (0int, 0int, 238int),
        indexed_rgb(5u8) == (205int, 0int, 205int),
        indexed_rgb(6u8) == (0int, 205int, 205int),
        indexed_rgb(7u8) == (229int, 229int, 229int),
        indexed_rgb(8u8) == (127int, 127int, 127int),
        indexed_rgb(9u8) == (255int, 0int, 0int),
        indexed_rgb(10u8) == (0int, 255int, 0int),
        indexed_rgb(11u8) == (255int, 255int, 0int),
        indexed_rgb(12u8) == (92int, 92int, 255int),
        indexed_rgb(13u8) == (255int, 0int, 255int),
        indexed_rgb(14u8) == (0int, 255int, 255int),
        indexed_rgb(15u8) == (255int, 255int, 255int),
{
}

/// Indices 16–231 are the 6×6×6 cube `16 + 36·r + 6·g + b`, each channel on
/// the levels 0, 95, 135, 175, 215, 255.
pub proof fn lemma_color_cube(r: int, g: int, b: int)
    requires
        0 <= r < 6,
        0 <= g < 6,
        0 <= b < 6,
    ensures
        ({
            let levels = seq![0int, 95, 135, 175, 215, 255];
            indexed_rgb((16 + 36 * r + 6 * g + b) as u8) == (levels[r], levels[g], levels[b])
        }),
{
    let i = 36 * r + 6 * g + b;
    assert(i / 36 == r && (i / 6) % 6 == g && i % 6 == b) by (nonlinear_arith)
        requires
            i == 36 * r + 6 * g + b,
            0 <= r < 6,
            0 <= g < 6,
            0 <= b < 6,
    ;
}

/// Indices 232–255 are a gray ramp from (8,8,8) up in steps of 10.
pub proof fn lemma_gray_ramp(k: int)
    requires
        0 <= k < 24,
    ensures
        indexed_rgb((232 + k) as u8) == (8 + 10 * k, 8 + 10 * k, 8 + 10 * k),
{
}

} // verus!
