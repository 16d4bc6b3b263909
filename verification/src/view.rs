//! What the canvas renderer decides before it draws: how far the view is
//! scrolled back into the scrollback, which stored line each screen row
//! shows, and how each cell is painted.
use vstd::prelude::*;

use crate::attr::Color;
use crate::cell::Cell;
use crate::palette::{color_to_css, css_color};
use crate::text::{decimal, push_decimal_chars, str_chars};

verus! {

/// How many lines the view is scrolled back from the live screen.
pub struct Viewport {
    offset: usize,
}

impl View for Viewport {
    type V = nat;

    closed spec fn view(&self) -> nat {
        self.offset as nat
    }
}

/// `a + b`, but no more than `max`.
pub open spec fn capped_sum(a: int, b: int, max: int) -> int {
    if a + b <= max {
        a + b
    } else {
        max
    }
}

impl Viewport {
    /// The live view: not scrolled back.
    pub fn new() -> (v: Self)
        ensures
            v@ == 0,
    {
        Viewport { offset: 0 }
    }

    pub fn scroll_offset(&self) -> (n: usize)
        ensures
            n == self@,
    {
        self.offset
    }

    /// Scroll back by `lines`, never further than `max_scrollback` lines.
    pub fn scroll_up(&mut self, lines: usize, max_scrollback: usize) -> (n: usize)
        ensures
            final(self)@ == if old(self)@ <= max_scrollback {
                capped_sum(old(self)@ as int, lines as int, max_scrollback as int)
            } else {
                max_scrollback as int
            },
            n == final(self)@,
    {
        if self.offset >= max_scrollback || lines >= max_scrollback - self.offset {
            self.offset = max_scrollback;
        } else {
            self.offset = self.offset + lines;
        }
        self.offset
    }

    /// Scroll toward the live view by `lines`, stopping there.
    pub fn scroll_down(&mut self, lines: usize) -> (n: usize)
        ensures
            final(self)@ == if old(self)@ >= lines {
                old(self)@ - lines
            } else {
                0
            },
            n == final(self)@,
    {
        self.offset = self.offset.saturating_sub(lines);
        self.offset
    }

    /// Back to the live view.
    pub fn scroll_to_bottom(&mut self)
        ensures
            final(self)@ == 0,
    {
        self.offset = 0;
    }

    /// Pull the offset back within the scrollback that exists.
    pub fn clamp(&mut self, scrollback_len: usize)
        ensures
            final(self)@ == if old(self)@ <= scrollback_len {
                old(self)@
            } else {
                scrollback_len as nat
            },
    {
        if self.offset > scrollback_len {
            self.offset = scrollback_len;
        }
    }

    /// Whether the view shows some scrollback.
    pub fn is_scrolled(&self) -> (b: bool)
        ensures
            b == (self@ > 0),
    {
        self.offset > 0
    }
}

/// Where the content of a screen row comes from.
#[derive(Debug, Clone, Copy, PartialEq, Eq)]
pub enum RowSource {
    /// A row of the live grid.
    Live(usize),
    /// A line of the scrollback, oldest first.
    History(usize),
    /// Nothing: the row stays blank.
    Blank,
}

/// The source of screen row `screen_row` when the view is scrolled back by
/// `offset` lines over `scrollback_len` lines of history and a grid of
/// `rows` rows: the window starts `offset` lines (at most all of them) back
/// into the history and runs on into the live grid.
pub open spec fn row_source_of(offset: int, scrollback_len: int, rows: int, screen_row: int) -> RowSource {
    if offset == 0 {
        RowSource::Live(screen_row as usize)
    } else {
        let start = if scrollback_len >= offset {
            scrollback_len - offset
        } else {
            0
        };
        let idx = start + screen_row;
        if idx < scrollback_len {
            RowSource::History(idx as usize)
        } else if idx - scrollback_len < rows {
            RowSource::Live((idx - scrollback_len) as usize)
        } else {
            RowSource::Blank
        }
    }
}

/// Which stored line screen row `screen_row` shows.
pub fn row_source(offset: usize, scrollback_len: usize, rows: usize, screen_row: usize) -> (src:
    RowSource)
    ensures
        src == row_source_of(offset as int, scrollback_len as int, rows as int, screen_row as int),
{
    if offset == 0 {
        return RowSource::Live(screen_row);
    }
    let start = scrollback_len.saturating_sub(offset);
    let room = scrollback_len - start;
    if screen_row < room {
        RowSource::History(start + screen_row)
    } else {
        let live = screen_row - room;
        if live < rows {
            RowSource::Live(live)
        } else {
            RowSource::Blank
        }
    }
}

/// The face a glyph is drawn in.
#[derive(Debug, Clone, Copy, PartialEq, Eq)]
pub enum FontStyle {
    Normal,
    Bold,
    Italic,
    BoldItalic,
}

pub open spec fn font_style_of(bold: bool, italic: bool) -> FontStyle {
    if bold && italic {
        FontStyle::BoldItalic
    } else if bold {
        FontStyle::Bold
    } else if italic {
        FontStyle::Italic
    } else {
        FontStyle::Normal
    }
}

/// The face for the given boldness and slant.
pub fn font_style(bold: bool, italic: bool) -> (f: FontStyle)
    ensures
        f == font_style_of(bold, italic),
{
    if bold && italic {
        FontStyle::BoldItalic
    } else if bold {
        FontStyle::Bold
    } else if italic {
        FontStyle::Italic
    } else {
        FontStyle::Normal
    }
}

/// Scrolled back by `offset` lines (no more than the history holds), the
/// screen shows one contiguous window: the last `offset` history lines,
/// oldest first, then the top of the live grid.
pub proof fn lemma_scrolled_window(offset: int, scrollback_len: int, rows: int, screen_row: int)
    requires
        0 < offset <= scrollback_len,
        0 <= screen_row < rows,
        scrollback_len + rows <= usize::MAX,
    ensures
        row_source_of(offset, scrollback_len, rows, screen_row) == if screen_row < offset {
            RowSource::History((scrollback_len - offset + screen_row) as usize)
        } else {
            RowSource::Live((screen_row - offset) as usize)
        },
{
}

/// How one cell is painted.
#[derive(Debug, Clone, Copy, PartialEq, Eq)]
pub struct CellPaint {
    /// Glyph and decoration color (the background color when inverse).
    pub fg: Color,
    /// Background color (the foreground color when inverse).
    pub bg: Color,
    /// Whether the cell covers two columns.
    pub wide: bool,
    /// Whether a glyph is drawn: not for blanks, NUL or hidden text.
    pub glyph: bool,
    pub font: FontStyle,
    pub underline: bool,
    pub strikethrough: bool,
}

/// The painting of a cell; nothing for the spacer after a wide character.
pub open spec fn paint_of(cell: Cell) -> Option<CellPaint> {
    if cell.width == 0 {
        None
    } else {
        let a = cell.attr;
        Some(
            CellPaint {
                fg: if a.inverse {
                    a.bg
                } else {
                    a.fg
                },
                bg: if a.inverse {
                    a.fg
                } else {
                    a.bg
                },
                wide: cell.width == 2,
                glyph: cell.c != ' ' && cell.c != '\0' && !a.hidden,
                font: font_style_of(a.bold, a.italic),
                underline: a.underline,
                strikethrough: a.strikethrough,
            },
        )
    }
}

/// How to paint `cell`.
pub fn cell_paint(cell: &Cell) -> (p: Option<CellPaint>)
    ensures
        p == paint_of(*cell),
{
    if cell.width == 0 {
        return None;
    }
    let a = cell.attr;
    let (fg, bg) = if a.inverse {
        (a.bg, a.fg)
    } else {
        (a.fg, a.bg)
    };
    Some(
        CellPaint {
            fg,
            bg,
            wide: cell.width == 2,
            glyph: cell.c != ' ' && cell.c != '\0' && !a.hidden,
            font: font_style(a.bold, a.italic),
            underline: a.underline,
            strikethrough: a.strikethrough,
        },
    )
}

/// The CSS color to fill a cell background with, when it differs from the
/// theme background (which the whole canvas is already cleared to).
pub fn background_fill(bg: Color, theme_background: &str) -> (fill: Option<String>)
    ensures
        match fill {
            Some(css) => css@ == css_color(bg, theme_background@) && css@ != theme_background@,
            None => css_color(bg, theme_background@) == theme_background@,
        },
{
    let css = color_to_css(bg, theme_background);
    let got = str_chars(css.as_str());
    let want = str_chars(theme_background);
    if same_chars(&got, &want) {
        None
    } else {
        Some(css)
    }
}

fn same_chars(a: &Vec<char>, b: &Vec<char>) -> (same: bool)
    ensures
        same == (a@ == b@),
{
    if a.len() != b.len() {
        return false;
    }
    let mut i: usize = 0;
    while i < a.len()
        invariant
            a@.len() == b@.len(),
            i <= a@.len(),
            forall|k: int| 0 <= k < i ==> a@[k] == b@[k],
        decreases a@.len() - i,
    {
        if a[i] != b[i] {
            return false;
        }
        i += 1;
    }
    assert(a@ =~= b@);
    true
}

/// The text of the scrollback indicator: an up arrow, the offset, a slash
/// and the scrollback length.
pub open spec fn indicator_text(offset: nat, total: nat) -> Seq<char> {
    seq!['\u{2191}'] + decimal(offset).map_values(|x: u8| x as char) + seq!['/'] + decimal(
        total,
    ).map_values(|x: u8| x as char)
}

/// The scrollback indicator shown while scrolled back, such as `↑12/300`.
pub fn scroll_indicator_text(offset: usize, total: usize) -> (s: String)
    ensures
        s@ == indicator_text(offset as nat, total as nat),
{
    let mut out: Vec<char> = Vec::new();
    out.push('\u{2191}');
    push_decimal_chars(&mut out, offset as u64);
    out.push('/');
    push_decimal_chars(&mut out, total as u64);
    assert(out@ =~= indicator_text(offset as nat, total as nat));
    crate::text::chars_to_string(out.as_slice())
}

} // verus!
