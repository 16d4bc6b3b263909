//! The abstract state of a terminal and what every action does to it.
use vstd::prelude::*;

use crate::action::Action;
use crate::attr::{plain_attr, Attr, Color};
use crate::cell::{blank_cell, Cell};
use crate::cursor::{home_cursor, Cursor, CursorShape};
use crate::grid::{blank_line, clamp_dim, Screen};
use crate::term::Modes;
use crate::text::{decimal, display_width, utf8_lossy, utf8_prefix};
use vstd::utf8::{decode_utf8, valid_utf8};

verus! {

/// Maximum length for OSC title to prevent unbounded allocation.
pub const MAX_TITLE_LEN: usize = 4096;

/// The title set from `raw`: at most `MAX_TITLE_LEN` bytes of it decoded
/// as UTF-8 (invalid sequences replaced), then cut to the longest prefix
/// whose UTF-8 form is at most `MAX_TITLE_LEN` bytes.
pub open spec fn title_text(raw: Seq<u8>) -> Seq<char> {
    let capped = raw.take(min(raw.len() as int, MAX_TITLE_LEN as int));
    let text = if valid_utf8(capped) {
        decode_utf8(capped)
    } else {
        utf8_lossy(capped)
    };
    utf8_prefix(text, MAX_TITLE_LEN as int)
}

/// Whether `c` takes two columns on a grid `cols` wide: its display width
/// is 2 and the grid has room for both halves.
pub open spec fn prints_wide(c: char, cols: int) -> bool {
    display_width(c) == Some(2usize) && cols >= 2
}

/// Maximum CSI parameter value honored for repeat counts (scroll, move, etc).
pub const MAX_REPEAT: usize = 10_000;

/// The modes of a fresh terminal: autowrap on, everything else off.
pub open spec fn initial_modes() -> Modes {
    Modes {
        autowrap: true,
        origin: false,
        insert: false,
        bracket_paste: false,
        alt_screen: false,
        app_cursor: false,
        app_keypad: false,
    }
}

/// Tab stops every eight columns.
pub open spec fn default_tabs(cols: nat) -> Seq<bool> {
    Seq::new(cols, |i: int| i % 8 == 0)
}

/// The first tab stop at or after column `c`, or `cols` if there is none.
pub open spec fn next_tab_stop(tabs: Seq<bool>, c: int, cols: int) -> int
    decreases cols - c,
{
    if c >= cols {
        c
    } else if 0 <= c < tabs.len() && tabs[c] {
        c
    } else {
        next_tab_stop(tabs, c + 1, cols)
    }
}

/// `a - b`, but never below zero.
pub open spec fn sat_sub(a: int, b: int) -> int {
    if a > b {
        a - b
    } else {
        0
    }
}

pub open spec fn min(a: int, b: int) -> int {
    if a < b {
        a
    } else {
        b
    }
}

/// The first value of the `i`-th parameter, if there is one.
pub open spec fn first_value(ps: Seq<Vec<u16>>, i: int) -> Option<u16> {
    if 0 <= i < ps.len() && ps[i]@.len() > 0 {
        Some(ps[i]@[0])
    } else {
        None
    }
}

/// The `i`-th CSI parameter, with zero or absence meaning `default`.
pub open spec fn param(ps: Seq<Vec<u16>>, i: int, default: int) -> int {
    match first_value(ps, i) {
        Some(v) => if v != 0 {
            v as int
        } else {
            default
        },
        None => default,
    }
}

/// The repeat count of a CSI command: the first parameter (default one),
/// capped at `MAX_REPEAT`.
pub open spec fn repeat_count(ps: Seq<Vec<u16>>) -> int {
    min(param(ps, 0, 1), MAX_REPEAT as int)
}

/// Whether some parameter's first value is `v`.
pub open spec fn some_param_is(ps: Seq<Vec<u16>>, v: u16) -> bool {
    exists|i: int| 0 <= i < ps.len() && first_value(ps, i) == Some(v)
}

/// Line `line` with `n` blank cells inserted at `col`, cut to `cols`.
pub open spec fn line_insert(line: Seq<Cell>, col: int, n: int, cols: nat) -> Seq<Cell> {
    Seq::new(
        cols,
        |j: int|
            if j < col {
                line[j]
            } else if j < col + n {
                blank_cell()
            } else {
                line[j - n]
            },
    )
}

/// Line `line` with `n` cells removed at `col`, blank cells filling in at the end.
pub open spec fn line_delete(line: Seq<Cell>, col: int, n: int, cols: nat) -> Seq<Cell> {
    Seq::new(
        cols,
        |j: int|
            if j < col {
                line[j]
            } else if j + n < cols {
                line[j + n]
            } else {
                blank_cell()
            },
    )
}

/// The reply to a version query (XTVERSION): `ESC P > | crytter 0.1.0 ESC \`.
pub open spec fn xtversion_reply() -> Seq<u8> {
    seq![
        0x1bu8, 0x50, 0x3e, 0x7c, 0x63, 0x72, 0x79, 0x74, 0x74, 0x65, 0x72, 0x20, 0x30, 0x2e,
        0x31, 0x2e, 0x30, 0x1b, 0x5c,
    ]
}

/// The reply to secondary device attributes (DA2): `ESC [ > 1 ; 0 ; 0 c`.
pub open spec fn da2_reply() -> Seq<u8> {
    seq![0x1bu8, 0x5b, 0x3e, 0x31, 0x3b, 0x30, 0x3b, 0x30, 0x63]
}

/// The reply to primary device attributes (DA1): `ESC [ ? 6 2 ; 2 2 c`.
pub open spec fn da1_reply() -> Seq<u8> {
    seq![0x1bu8, 0x5b, 0x3f, 0x36, 0x32, 0x3b, 0x32, 0x32, 0x63]
}

/// The reply to a status report request: `ESC [ 0 n`.
pub open spec fn status_ok_reply() -> Seq<u8> {
    seq![0x1bu8, 0x5b, 0x30, 0x6e]
}

/// The reply to a mode query (DECRQM): `ESC [ ? mode ; status $ y`.
pub open spec fn mode_report_reply(mode: nat, status: nat) -> Seq<u8> {
    seq![0x1bu8, 0x5b, 0x3f] + decimal(mode) + seq![0x3bu8] + decimal(status) + seq![0x24u8, 0x79]
}

/// The cursor position report (CPR): `ESC [ row ; col R`, one-based.
pub open spec fn cursor_report_reply(row: nat, col: nat) -> Seq<u8> {
    seq![0x1bu8, 0x5b] + decimal(row) + seq![0x3bu8] + decimal(col) + seq![0x52u8]
}

/// The size report: `ESC [ 8 ; rows ; cols t`.
pub open spec fn size_report_reply(rows: nat, cols: nat) -> Seq<u8> {
    seq![0x1bu8, 0x5b, 0x38, 0x3b] + decimal(rows) + seq![0x3bu8] + decimal(cols) + seq![0x74u8]
}

/// The status a mode query reports for private mode `mode`:
/// 1 set, 2 reset, 4 permanently reset, 0 not recognized.
pub open spec fn mode_status(modes: Modes, visible: bool, mode: u16) -> nat {
    let flag = |b: bool|
        if b {
            1nat
        } else {
            2nat
        };
    if mode == 1 {
        flag(modes.app_cursor)
    } else if mode == 6 {
        flag(modes.origin)
    } else if mode == 7 {
        flag(modes.autowrap)
    } else if mode == 25 {
        flag(visible)
    } else if mode == 1004 {
        2
    } else if mode == 2004 {
        flag(modes.bracket_paste)
    } else if mode == 2026 {
        4
    } else {
        0
    }
}

/// The cursor shape selected by a DECSCUSR style number.
pub open spec fn shape_for_style(style: int) -> CursorShape {
    if style == 3 || style == 4 {
        CursorShape::Underline
    } else if style == 5 || style == 6 {
        CursorShape::Bar
    } else {
        CursorShape::Block
    }
}

/// The effect of one SGR code (other than 38 and 48) on the attributes.
pub open spec fn sgr_code(a: Attr, p: u16) -> Attr {
    if p == 0 {
        plain_attr()
    } else if p == 1 {
        Attr { bold: true, ..a }
    } else if p == 2 {
        Attr { dim: true, ..a }
    } else if p == 3 {
        Attr { italic: true, ..a }
    } else if p == 4 {
        Attr { underline: true, ..a }
    } else if p == 5 {
        Attr { blink: true, ..a }
    } else if p == 7 {
        Attr { inverse: true, ..a }
    } else if p == 8 {
        Attr { hidden: true, ..a }
    } else if p == 9 {
        Attr { strikethrough: true, ..a }
    } else if p == 22 {
        Attr { bold: false, dim: false, ..a }
    } else if p == 23 {
        Attr { italic: false, ..a }
    } else if p == 24 {
        Attr { underline: false, ..a }
    } else if p == 25 {
        Attr { blink: false, ..a }
    } else if p == 27 {
        Attr { inverse: false, ..a }
    } else if p == 28 {
        Attr { hidden: false, ..a }
    } else if p == 29 {
        Attr { strikethrough: false, ..a }
    } else if 30 <= p <= 37 {
        Attr { fg: Color::Indexed((p - 30) as u8), ..a }
    } else if p == 39 {
        Attr { fg: Color::Default, ..a }
    } else if 40 <= p <= 47 {
        Attr { bg: Color::Indexed((p - 40) as u8), ..a }
    } else if p == 49 {
        Attr { bg: Color::Default, ..a }
    } else if 90 <= p <= 97 {
        Attr { fg: Color::Indexed((p - 90 + 8) as u8), ..a }
    } else if 100 <= p <= 107 {
        Attr { bg: Color::Indexed((p - 100 + 8) as u8), ..a }
    } else {
        a
    }
}

/// Sets the foreground or the background color.
pub open spec fn with_color(a: Attr, color: Color, foreground: bool) -> Attr {
    if foreground {
        Attr { fg: color, ..a }
    } else {
        Attr { bg: color, ..a }
    }
}

/// An extended color (`5;n` or `2;r;g;b`) whose kind sits at parameter `i`:
/// the new attributes and the index of the next unread parameter.
pub open spec fn extended_color(a: Attr, ps: Seq<Vec<u16>>, i: int, foreground: bool) -> (
    Attr,
    int,
) {
    match first_value(ps, i) {
        Some(k) => if k == 5 {
            match first_value(ps, i + 1) {
                Some(idx) => (with_color(a, Color::Indexed(idx as u8), foreground), i + 2),
                None => (a, i + 2),
            }
        } else if k == 2 {
            let r = match first_value(ps, i + 1) {
                Some(v) => v,
                None => 0,
            };
            let g = match first_value(ps, i + 2) {
                Some(v) => v,
                None => 0,
            };
            let b = match first_value(ps, i + 3) {
                Some(v) => v,
                None => 0,
            };
            (with_color(a, Color::Rgb(r as u8, g as u8, b as u8), foreground), i + 4)
        } else {
            (a, i + 1)
        },
        None => (a, i + 1),
    }
}

/// The attributes after reading the SGR parameters from index `i` on.
pub open spec fn sgr_from(a: Attr, ps: Seq<Vec<u16>>, i: int) -> Attr
    decreases ps.len() - i,
{
    if i < 0 || i >= ps.len() {
        a
    } else {
        let p = match first_value(ps, i) {
            Some(v) => v,
            None => 0,
        };
        if p == 38 || p == 48 {
            let (a2, j) = extended_color(a, ps, i + 1, p == 38);
            sgr_from(a2, ps, min(j, ps.len() as int))
        } else {
            sgr_from(sgr_code(a, p), ps, i + 1)
        }
    }
}

/// The attributes after a whole SGR sequence; no parameters means reset.
pub open spec fn sgr_all(a: Attr, ps: Seq<Vec<u16>>) -> Attr {
    if ps.len() == 0 {
        plain_attr()
    } else {
        sgr_from(a, ps, 0)
    }
}

/// The abstract terminal state.
pub struct TermView {
    /// The grid on display.
    pub screen: Screen,
    /// The other grid (primary while the alternate screen is shown, and vice versa).
    pub alt: Screen,
    pub cursor: Cursor,
    pub modes: Modes,
    /// Scroll region top (inclusive).
    pub scroll_top: nat,
    /// Scroll region bottom (exclusive).
    pub scroll_bottom: nat,
    pub tabs: Seq<bool>,
    pub title: Seq<char>,
    pub wrap_pending: bool,
    /// Replies queued for the PTY, oldest first.
    pub responses: Seq<Seq<u8>>,
}

impl TermView {
    /// Both grids well formed and of one size, cursor on the grid, scroll
    /// region non-empty and inside the grid, one tab flag per column.
    pub open spec fn wf(self) -> bool {
        &&& self.screen.wf()
        &&& self.alt.wf()
        &&& self.alt.cols == self.screen.cols
        &&& self.alt.rows == self.screen.rows
        &&& self.cursor.col < self.screen.cols
        &&& self.cursor.row < self.screen.rows
        &&& self.scroll_top < self.scroll_bottom <= self.screen.rows
        &&& self.tabs.len() == self.screen.cols
    }

    /// A fresh terminal of the clamped size.
    pub open spec fn fresh(cols: int, rows: int) -> TermView {
        TermView {
            screen: Screen::fresh(cols, rows),
            alt: Screen::fresh(cols, rows),
            cursor: home_cursor(),
            modes: initial_modes(),
            scroll_top: 0,
            scroll_bottom: clamp_dim(rows),
            tabs: default_tabs(clamp_dim(cols)),
            title: Seq::empty(),
            wrap_pending: false,
            responses: Seq::empty(),
        }
    }

    pub open spec fn cols(self) -> int {
        self.screen.cols as int
    }

    pub open spec fn rows(self) -> int {
        self.screen.rows as int
    }

    pub open spec fn with_col(self, col: int) -> TermView {
        TermView { cursor: Cursor { col: col as usize, ..self.cursor }, ..self }
    }

    pub open spec fn with_row(self, row: int) -> TermView {
        TermView { cursor: Cursor { row: row as usize, ..self.cursor }, ..self }
    }

    pub open spec fn with_wrap(self, pending: bool) -> TermView {
        TermView { wrap_pending: pending, ..self }
    }

    pub open spec fn with_screen(self, screen: Screen) -> TermView {
        TermView { screen: screen, ..self }
    }

    pub open spec fn with_modes(self, modes: Modes) -> TermView {
        TermView { modes: modes, ..self }
    }

    pub open spec fn with_cursor(self, cursor: Cursor) -> TermView {
        TermView { cursor: cursor, ..self }
    }

    pub open spec fn reply(self, bytes: Seq<u8>) -> TermView {
        TermView { responses: self.responses.push(bytes), ..self }
    }

    /// The cursor pulled back onto the grid.
    pub open spec fn clamped(self) -> TermView {
        self.with_col(min(self.cursor.col as int, self.cols() - 1)).with_row(
            min(self.cursor.row as int, self.rows() - 1),
        )
    }

    /// Line feed: down one row, or scroll the region when on its last line
    /// (or below it).
    pub open spec fn linefeed(self) -> TermView {
        if self.cursor.row + 1 >= self.scroll_bottom {
            self.with_screen(
                self.screen.scroll_up(self.scroll_top as int, self.scroll_bottom as int, true),
            )
        } else {
            self.with_row(self.cursor.row + 1)
        }
    }

    /// `n` blank cells inserted at the cursor, shifting the rest of the line right.
    pub open spec fn insert_chars(self, n: int) -> TermView {
        let row = self.cursor.row as int;
        self.with_screen(
            self.screen.with_line(
                row,
                line_insert(self.screen.lines[row], self.cursor.col as int, n, self.screen.cols),
            ),
        )
    }

    /// `n` cells deleted at the cursor, shifting the rest of the line left.
    pub open spec fn delete_chars(self, n: int) -> TermView {
        let row = self.cursor.row as int;
        self.with_screen(
            self.screen.with_line(
                row,
                line_delete(self.screen.lines[row], self.cursor.col as int, n, self.screen.cols),
            ),
        )
    }

    /// A pending wrap taken: to the start of the next line.
    pub open spec fn wrapped(self) -> TermView {
        if self.wrap_pending {
            self.with_col(0).linefeed().with_wrap(false)
        } else {
            self
        }
    }

    /// Room made for a character: a wide one that would start in the last
    /// column wraps to the next line with autowrap on, and starts one column
    /// left otherwise.
    pub open spec fn placed(self, wide: bool) -> TermView {
        if wide && self.cursor.col + 1 >= self.cols() {
            if self.modes.autowrap {
                self.with_col(0).linefeed()
            } else {
                self.with_col(self.cols() - 2)
            }
        } else {
            self
        }
    }

    /// A character written at the cursor, one or (wide) two columns: in
    /// insert mode the line first shifts right by that much; the character
    /// gets the current attributes and its width, a wide one is followed by
    /// a spacer cell of width 0; the cursor moves past it, or to the last
    /// column with a wrap pending (when autowrap is on) once the line is full.
    pub open spec fn put_glyph(self, c: char, wide: bool) -> TermView {
        let n: int = if wide {
            2
        } else {
            1
        };
        let t = if self.modes.insert {
            self.insert_chars(n)
        } else {
            self
        };
        let row = t.cursor.row as int;
        let col = t.cursor.col as int;
        let attr = t.cursor.attr;
        let s1 = t.screen.with_cell(row, col, Cell { c: c, attr: attr, width: n as u8, dirty: true });
        let s2 = if wide {
            s1.with_cell(row, col + 1, Cell { c: ' ', attr: attr, width: 0, dirty: true })
        } else {
            s1
        };
        let t2 = t.with_screen(s2);
        if col + n >= t2.cols() {
            let t3 = t2.with_col(t2.cols() - 1);
            if t2.modes.autowrap {
                t3.with_wrap(true)
            } else {
                t3
            }
        } else {
            t2.with_col(col + n)
        }
    }

    /// Printing a character: a pending wrap is taken first, then the
    /// character is placed and written, two columns wide when its display
    /// width is 2 and the grid has two columns.
    pub open spec fn print(self, c: char) -> TermView {
        let t = self.wrapped();
        let wide = prints_wide(c, t.cols());
        t.placed(wide).put_glyph(c, wide)
    }

    /// Horizontal tab: to the next tab stop, or the last column.
    pub open spec fn tab(self) -> TermView {
        self.with_col(
            min(next_tab_stop(self.tabs, self.cursor.col + 1, self.cols()), self.cols() - 1),
        ).with_wrap(false)
    }

    /// A C0 control code.
    pub open spec fn execute(self, byte: u8) -> TermView {
        if byte == 0x08 {
            if self.cursor.col > 0 {
                self.with_col(self.cursor.col - 1).with_wrap(false)
            } else {
                self
            }
        } else if byte == 0x09 {
            self.tab()
        } else if byte == 0x0A || byte == 0x0B || byte == 0x0C {
            self.linefeed().with_wrap(false)
        } else if byte == 0x0D {
            self.with_col(0).with_wrap(false)
        } else {
            self
        }
    }

    /// Erase in display (ED).
    pub open spec fn erase_display(self, mode: int) -> TermView {
        let row = self.cursor.row as int;
        let col = self.cursor.col as int;
        let s = self.screen;
        if mode == 0 {
            self.with_screen(
                Screen {
                    lines: Seq::new(
                        s.rows,
                        |i: int|
                            if i < row {
                                s.lines[i]
                            } else if i == row {
                                s.erase_cells(row, col, s.cols as int).lines[i]
                            } else {
                                blank_line(s.cols)
                            },
                    ),
                    ..s
                },
            )
        } else if mode == 1 {
            self.with_screen(
                Screen {
                    lines: Seq::new(
                        s.rows,
                        |i: int|
                            if i < row {
                                blank_line(s.cols)
                            } else if i == row {
                                s.erase_cells(row, 0, col + 1).lines[i]
                            } else {
                                s.lines[i]
                            },
                    ),
                    ..s
                },
            )
        } else if mode == 2 {
            self.with_screen(s.cleared())
        } else if mode == 3 {
            self.with_screen(s.cleared().without_scrollback())
        } else {
            self
        }
    }

    /// Erase in line (EL).
    pub open spec fn erase_line(self, mode: int) -> TermView {
        let row = self.cursor.row as int;
        let col = self.cursor.col as int;
        if mode == 0 {
            self.with_screen(self.screen.erase_cells(row, col, self.cols()))
        } else if mode == 1 {
            self.with_screen(self.screen.erase_cells(row, 0, col + 1))
        } else if mode == 2 {
            self.with_screen(self.screen.erase_cells(row, 0, self.cols()))
        } else {
            self
        }
    }

    /// Switching to or from the alternate screen. Entering clears the
    /// alternate grid; asking for the screen already shown does nothing.
    pub open spec fn switch_screen(self, alt: bool) -> TermView {
        if alt != self.modes.alt_screen {
            TermView {
                screen: if alt {
                    self.alt.cleared()
                } else {
                    self.alt
                },
                alt: self.screen,
                modes: Modes { alt_screen: alt, ..self.modes },
                ..self
            }
        } else {
            self
        }
    }

    /// One DEC private mode set (`CSI ? Pm h`).
    pub open spec fn dec_set_one(self, mode: u16) -> TermView {
        if mode == 1 {
            self.with_modes(Modes { app_cursor: true, ..self.modes })
        } else if mode == 6 {
            self.with_modes(Modes { origin: true, ..self.modes })
        } else if mode == 7 {
            self.with_modes(Modes { autowrap: true, ..self.modes })
        } else if mode == 25 {
            self.with_cursor(Cursor { visible: true, ..self.cursor })
        } else if mode == 47 || mode == 1047 {
            self.switch_screen(true)
        } else if mode == 1049 {
            self.with_cursor(self.cursor.after_save()).switch_screen(true)
        } else if mode == 2004 {
            self.with_modes(Modes { bracket_paste: true, ..self.modes })
        } else {
            self
        }
    }

    /// One DEC private mode reset (`CSI ? Pm l`).
    pub open spec fn dec_reset_one(self, mode: u16) -> TermView {
        if mode == 1 {
            self.with_modes(Modes { app_cursor: false, ..self.modes })
        } else if mode == 6 {
            self.with_modes(Modes { origin: false, ..self.modes })
        } else if mode == 7 {
            self.with_modes(Modes { autowrap: false, ..self.modes })
        } else if mode == 25 {
            self.with_cursor(Cursor { visible: false, ..self.cursor })
        } else if mode == 47 || mode == 1047 {
            self.switch_screen(false)
        } else if mode == 1049 {
            let t = self.switch_screen(false);
            t.with_cursor(t.cursor.after_restore()).clamped()
        } else if mode == 2004 {
            self.with_modes(Modes { bracket_paste: false, ..self.modes })
        } else {
            self
        }
    }

    /// The first `n` parameters applied as DEC private mode sets, in order.
    pub open spec fn dec_set_upto(self, ps: Seq<Vec<u16>>, n: int) -> TermView
        decreases n,
    {
        if n <= 0 {
            self
        } else {
            let m = match first_value(ps, n - 1) {
                Some(v) => v,
                None => 0,
            };
            self.dec_set_upto(ps, n - 1).dec_set_one(m)
        }
    }

    /// The first `n` parameters applied as DEC private mode resets, in order.
    pub open spec fn dec_reset_upto(self, ps: Seq<Vec<u16>>, n: int) -> TermView
        decreases n,
    {
        if n <= 0 {
            self
        } else {
            let m = match first_value(ps, n - 1) {
                Some(v) => v,
                None => 0,
            };
            self.dec_reset_upto(ps, n - 1).dec_reset_one(m)
        }
    }

    /// A DEC private mode report request (DECRQM).
    pub open spec fn mode_report(self, ps: Seq<Vec<u16>>) -> TermView {
        match first_value(ps, 0) {
            Some(mode) => self.reply(
                mode_report_reply(mode as nat, mode_status(self.modes, self.cursor.visible, mode)),
            ),
            None => self,
        }
    }

    /// Set scrolling region (DECSTBM): accepted only when at least two lines
    /// tall; the cursor goes home either way.
    pub open spec fn set_scroll_region(self, ps: Seq<Vec<u16>>) -> TermView {
        let top = param(ps, 0, 1);
        let bottom = param(ps, 1, self.rows());
        let new_top = min(sat_sub(top, 1), self.rows() - 1);
        let new_bottom = min(bottom, self.rows());
        let t = if new_top < new_bottom && new_bottom - new_top >= 2 {
            TermView { scroll_top: new_top as nat, scroll_bottom: new_bottom as nat, ..self }
        } else {
            self
        };
        t.with_row(0).with_col(0).with_wrap(false)
    }

    /// A CSI command without a `>` or `?` prefix.
    pub open spec fn csi_plain(self, ps: Seq<Vec<u16>>, inter: Seq<u8>, action: char) -> TermView {
        let n = repeat_count(ps);
        let row = self.cursor.row as int;
        let col = self.cursor.col as int;
        let last_row = self.rows() - 1;
        let last_col = self.cols() - 1;
        if action == 'A' {
            self.with_row(sat_sub(row, n)).with_wrap(false)
        } else if action == 'B' {
            self.with_row(min(row + n, last_row)).with_wrap(false)
        } else if action == 'C' {
            self.with_col(min(col + n, last_col)).with_wrap(false)
        } else if action == 'D' {
            self.with_col(sat_sub(col, n)).with_wrap(false)
        } else if action == 'E' {
            self.with_row(min(row + n, last_row)).with_col(0).with_wrap(false)
        } else if action == 'F' {
            self.with_row(sat_sub(row, n)).with_col(0).with_wrap(false)
        } else if action == 'G' {
            self.with_col(min(sat_sub(param(ps, 0, 1), 1), last_col)).with_wrap(false)
        } else if action == 'H' || action == 'f' {
            self.with_row(min(sat_sub(param(ps, 0, 1), 1), last_row)).with_col(
                min(sat_sub(param(ps, 1, 1), 1), last_col),
            ).with_wrap(false)
        } else if action == 'J' {
            self.erase_display(param(ps, 0, 0))
        } else if action == 'K' {
            self.erase_line(param(ps, 0, 0))
        } else if action == 'L' {
            self.with_screen(self.screen.insert_lines(row, n, self.scroll_bottom as int))
        } else if action == 'M' {
            self.with_screen(self.screen.delete_lines(row, n, self.scroll_bottom as int))
        } else if action == 'P' {
            self.delete_chars(n)
        } else if action == 'S' {
            self.with_screen(
                self.screen.scroll_up_times(
                    self.scroll_top as int,
                    self.scroll_bottom as int,
                    n as nat,
                ),
            )
        } else if action == 'T' {
            self.with_screen(
                self.screen.scroll_down_times(
                    self.scroll_top as int,
                    self.scroll_bottom as int,
                    n as nat,
                ),
            )
        } else if action == 'X' {
            self.with_screen(self.screen.erase_cells(row, col, col + n))
        } else if action == 'd' {
            self.with_row(min(sat_sub(param(ps, 0, 1), 1), last_row)).with_wrap(false)
        } else if action == 'm' {
            self.with_cursor(Cursor { attr: sgr_all(self.cursor.attr, ps), ..self.cursor })
        } else if action == 'r' {
            self.set_scroll_region(ps)
        } else if action == '@' {
            self.insert_chars(n)
        } else if action == 'h' {
            if some_param_is(ps, 4) {
                self.with_modes(Modes { insert: true, ..self.modes })
            } else {
                self
            }
        } else if action == 'l' {
            if some_param_is(ps, 4) {
                self.with_modes(Modes { insert: false, ..self.modes })
            } else {
                self
            }
        } else if action == 'c' {
            if inter.len() == 0 {
                self.reply(da1_reply())
            } else {
                self
            }
        } else if action == 'n' {
            let mode = param(ps, 0, 0);
            if mode == 5 {
                self.reply(status_ok_reply())
            } else if mode == 6 {
                self.reply(cursor_report_reply((row + 1) as nat, (col + 1) as nat))
            } else {
                self
            }
        } else if action == 'q' && inter.len() > 0 && inter[0] == 0x20 {
            self.with_cursor(Cursor { shape: shape_for_style(param(ps, 0, 1)), ..self.cursor })
        } else if action == 't' {
            if param(ps, 0, 0) == 18 {
                self.reply(size_report_reply(self.rows() as nat, self.cols() as nat))
            } else {
                self
            }
        } else {
            self
        }
    }

    /// A CSI command.
    pub open spec fn csi(self, ps: Seq<Vec<u16>>, inter: Seq<u8>, action: char) -> TermView {
        if inter.len() > 0 && inter[0] == 0x3e {
            if action == 'q' {
                self.reply(xtversion_reply())
            } else if action == 'c' {
                self.reply(da2_reply())
            } else {
                self
            }
        } else if inter.len() > 0 && inter[0] == 0x3f {
            if action == 'h' {
                self.dec_set_upto(ps, ps.len() as int)
            } else if action == 'l' {
                self.dec_reset_upto(ps, ps.len() as int)
            } else if action == 'p' {
                self.mode_report(ps)
            } else {
                self
            }
        } else {
            self.csi_plain(ps, inter, action)
        }
    }

    /// Reverse index: at the top of the scroll region scroll it down,
    /// otherwise move up a row (not above the first).
    pub open spec fn reverse_index(self) -> TermView {
        if self.cursor.row == self.scroll_top {
            self.with_screen(
                self.screen.scroll_down(self.scroll_top as int, self.scroll_bottom as int),
            )
        } else if self.cursor.row > 0 {
            self.with_row(self.cursor.row - 1)
        } else {
            self
        }
    }

    /// Full reset: a fresh terminal of the same size.
    pub open spec fn reset(self) -> TermView {
        TermView::fresh(self.cols(), self.rows())
    }

    /// An ESC sequence.
    pub open spec fn esc(self, inter: Seq<u8>, action: u8) -> TermView {
        if inter.len() != 0 {
            self
        } else if action == 0x37 {
            self.with_cursor(self.cursor.after_save())
        } else if action == 0x38 {
            self.with_cursor(self.cursor.after_restore()).clamped()
        } else if action == 0x44 {
            self.linefeed()
        } else if action == 0x4d {
            self.reverse_index()
        } else if action == 0x45 {
            self.with_col(0).linefeed()
        } else if action == 0x63 {
            self.reset()
        } else if action == 0x48 {
            let col = self.cursor.col as int;
            if col < self.tabs.len() {
                TermView { tabs: self.tabs.update(col, true), ..self }
            } else {
                self
            }
        } else {
            self
        }
    }

    /// An OSC command: `0` and `2` set the title from the second parameter.
    pub open spec fn osc(self, ps: Seq<Vec<u8>>) -> TermView {
        if ps.len() > 1 && (ps[0]@ == seq![0x30u8] || ps[0]@ == seq![0x32u8]) {
            TermView { title: title_text(ps[1]@), ..self }
        } else {
            self
        }
    }

    /// One parsed action.
    #[verifier::opaque]
    pub open spec fn step(self, a: Action) -> TermView {
        match a {
            Action::Print(c) => self.print(c),
            Action::Execute(b) => self.execute(b),
            Action::Csi { params, intermediates, action } => self.csi(
                params@,
                intermediates@,
                action,
            ),
            Action::Esc { intermediates, action } => self.esc(intermediates@, action),
            Action::Osc(params) => self.osc(params@),
            Action::Dcs { .. } => self,
        }
    }

    /// A sequence of actions, applied in order.
    pub open spec fn run(self, actions: Seq<Action>) -> TermView
        decreases actions.len(),
    {
        if actions.len() == 0 {
            self
        } else {
            self.run(actions.drop_last()).step(actions.last())
        }
    }

    /// Resizing: both grids resized, scroll region reset to the whole
    /// screen, tab stops reset, cursor pulled onto the grid, no wrap pending.
    pub open spec fn resized(self, cols: int, rows: int) -> TermView {
        let screen = self.screen.resized(cols, rows);
        TermView {
            screen: screen,
            alt: self.alt.resized(cols, rows),
            scroll_top: 0,
            scroll_bottom: screen.rows,
            tabs: default_tabs(screen.cols),
            wrap_pending: false,
            ..self
        }.clamped()
    }
}

} // verus!
