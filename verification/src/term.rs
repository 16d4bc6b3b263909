use vstd::prelude::*;

use crate::action::Action;
use crate::attr::{Attr, Color};
use crate::cell::{blank_cell, Cell};
use crate::cursor::{Cursor, CursorShape};
use crate::grid::{blank_line, Grid, Screen};
use crate::model::{
    cursor_report_reply, default_tabs, extended_color, size_report_reply, first_value, min, sgr_all, sgr_code, sgr_from, mode_report_reply, mode_status, initial_modes, line_delete, line_insert, next_tab_stop, param,
    TermView, MAX_REPEAT, MAX_TITLE_LEN,
};
use crate::text::{
    char_display_width, chars_to_string, push_decimal, str_chars, string_from_utf8_lossy, utf8_truncate,
};

verus! {

/// Terminal modes.
#[derive(Debug, Clone, Copy, PartialEq, Eq, Structural)]
pub struct Modes {
    /// Auto-wrap at end of line (DECAWM).
    pub autowrap: bool,
    /// Origin mode (DECOM) — cursor relative to scroll region.
    pub origin: bool,
    /// Insert mode (IRM) — insert chars instead of overwriting.
    pub insert: bool,
    /// Bracket paste mode.
    pub bracket_paste: bool,
    /// Alternate screen buffer active.
    pub alt_screen: bool,
    /// Application cursor keys (DECCKM).
    pub app_cursor: bool,
    /// Application keypad mode (DECKPAM/DECKPNM).
    pub app_keypad: bool,
}

impl Default for Modes {
    fn default() -> (m: Self)
        ensures
            m == initial_modes(),
    {
        Modes {
            autowrap: true,
            origin: false,
            insert: false,
            bracket_paste: false,
            alt_screen: false,
            app_cursor: false,
            app_keypad: false,
        }
    }
}

/// Full terminal state.
pub struct Terminal {
    /// Primary grid.
    grid: Grid,
    /// Alternate screen grid.
    alt_grid: Grid,
    /// Cursor.
    cursor: Cursor,
    /// Terminal modes.
    modes: Modes,
    /// Scroll region top (inclusive).
    scroll_top: usize,
    /// Scroll region bottom (exclusive).
    scroll_bottom: usize,
    /// Tab stops.
    tabs: Vec<bool>,
    /// Window title (set via OSC).
    title: String,
    /// Whether the cursor needs to wrap on next print.
    wrap_pending: bool,
    /// Response queue — bytes to send back to the PTY (DA1, CPR, etc).
    responses: Vec<Vec<u8>>,
}

impl View for Terminal {
    type V = TermView;

    closed spec fn view(&self) -> TermView {
        TermView {
            screen: self.grid@,
            alt: self.alt_grid@,
            cursor: self.cursor,
            modes: self.modes,
            scroll_top: self.scroll_top as nat,
            scroll_bottom: self.scroll_bottom as nat,
            tabs: self.tabs@,
            title: self.title@,
            wrap_pending: self.wrap_pending,
            responses: self.responses@.map_values(|r: Vec<u8>| r@),
        }
    }
}

/// Writes one cell of a grid.
fn put_cell(grid: &mut Grid, row: usize, col: usize, cell: Cell)
    requires
        old(grid).wf(),
        row < old(grid)@.rows,
        col < old(grid)@.cols,
    ensures
        final(grid).wf(),
        final(grid)@ == old(grid)@.with_cell(row as int, col as int, cell),
{
    proof {
        reveal(Screen::wf);
    }
    if let Some(dst) = grid.cell_mut(row, col) {
        *dst = cell;
    }
    assert(grid@.lines[row as int].len() == old(grid)@.cols);
}

/// The `i`-th CSI parameter, with zero or absence meaning `default`.
fn csi_param(params: &[Vec<u16>], i: usize, default: u16) -> (v: u16)
    ensures
        v as int == param(params@, i as int, default as int),
{
    if i < params.len() && params[i].len() > 0 && params[i][0] != 0 {
        params[i][0]
    } else {
        default
    }
}

/// The first value of the `i`-th parameter, if any.
fn first_of(params: &[Vec<u16>], i: usize) -> (v: Option<u16>)
    ensures
        v == first_value(params@, i as int),
{
    if i < params.len() && params[i].len() > 0 {
        Some(params[i][0])
    } else {
        None
    }
}

/// Tab stops every eight columns.
fn default_tab_stops(cols: usize) -> (tabs: Vec<bool>)
    ensures
        tabs@ == default_tabs(cols as nat),
{
    let mut tabs: Vec<bool> = Vec::new();
    let mut i: usize = 0;
    while i < cols
        invariant
            i <= cols,
            tabs@ == default_tabs(i as nat),
        decreases cols - i,
    {
        tabs.push(i % 8 == 0);
        i += 1;
        assert(tabs@ =~= default_tabs(i as nat));
    }
    tabs
}

impl Terminal {
    pub closed spec fn grids_ok(&self) -> bool {
        self.grid.limits_ok() && self.alt_grid.limits_ok()
    }

    /// The terminal is consistent: both grids well formed and of one size,
    /// cursor on the grid, scroll region non-empty and inside the grid, one
    /// tab flag per column.
    pub closed spec fn wf(&self) -> bool {
        &&& self.grid.wf()
        &&& self.alt_grid.wf()
        &&& self.alt_grid@.cols == self.grid@.cols
        &&& self.alt_grid@.rows == self.grid@.rows
        &&& self.cursor.col < self.grid@.cols
        &&& self.cursor.row < self.grid@.rows
        &&& self.scroll_top < self.scroll_bottom <= self.grid@.rows
        &&& self.tabs@.len() == self.grid@.cols
    }

    /// A consistent terminal has a well-formed abstract state.
    pub proof fn lemma_wf(&self)
        requires
            self.wf(),
        ensures
            self@.wf(),
    {
    }

    pub fn new(cols: usize, rows: usize) -> (t: Self)
        ensures
            t.wf(),
            t@.wf(),
            t@ == TermView::fresh(cols as int, rows as int),
    {
        // Grid::new clamps to min 1, so use its actual dimensions
        let grid = Grid::new(cols, rows);
        let cols = grid.cols();
        let rows = grid.rows();
        let tabs = default_tab_stops(cols);
        let t = Terminal {
            alt_grid: Grid::new(cols, rows),
            grid,
            cursor: Cursor::default(),
            modes: Modes::default(),
            scroll_top: 0,
            scroll_bottom: rows,
            tabs,
            title: String::new(),
            wrap_pending: false,
            responses: Vec::new(),
        };
        assert(t@.responses =~= Seq::empty());
        proof {
            t.lemma_wf();
        }
        t
    }

    pub fn grid(&self) -> (g: &Grid)
        ensures
            g@ == self@.screen,
            self.wf() ==> g.wf(),
    {
        &self.grid
    }

    pub fn cursor(&self) -> (c: &Cursor)
        ensures
            *c == self@.cursor,
    {
        &self.cursor
    }

    pub fn modes(&self) -> (m: &Modes)
        ensures
            *m == self@.modes,
    {
        &self.modes
    }

    pub fn title(&self) -> (t: &str)
        ensures
            t@ == self@.title,
    {
        self.title.as_str()
    }

    pub fn cols(&self) -> (n: usize)
        ensures
            n == self@.screen.cols,
    {
        self.grid.cols()
    }

    /// Drain response bytes queued by terminal queries (DA1, CPR, etc).
    /// The caller should send these back to the PTY.
    pub fn drain_responses(&mut self) -> (r: Vec<Vec<u8>>)
        requires
            old(self).wf(),
        ensures
            final(self).wf(),
            r@.map_values(|v: Vec<u8>| v@) == old(self)@.responses,
            final(self)@ == (TermView { responses: Seq::empty(), ..old(self)@ }),
    {
        let mut out: Vec<Vec<u8>> = Vec::new();
        std::mem::swap(&mut out, &mut self.responses);
        assert(self@.responses =~= Seq::empty());
        assert(out@.map_values(|v: Vec<u8>| v@) =~= old(self)@.responses);
        out
    }

    pub fn rows(&self) -> (n: usize)
        ensures
            n == self@.screen.rows,
    {
        self.grid.rows()
    }

    /// Clamp cursor to grid bounds.
    fn clamp_cursor(&mut self)
        requires
            old(self)@.screen.wf(),
        ensures
            final(self)@ == old(self)@.clamped(),
            final(self).grids_ok() == old(self).grids_ok(),
            final(self).cursor.col < final(self).grid@.cols,
            final(self).cursor.row < final(self).grid@.rows,
    {
        proof {
            reveal(Screen::wf);
        }
        let max_col = self.grid.cols() - 1;
        let max_row = self.grid.rows() - 1;
        if self.cursor.col > max_col {
            self.cursor.col = max_col;
        }
        if self.cursor.row > max_row {
            self.cursor.row = max_row;
        }
    }

    /// Queue a reply for the PTY.
    fn reply(&mut self, bytes: Vec<u8>)
        ensures
            final(self)@ == old(self)@.reply(bytes@),
            final(self).grids_ok() == old(self).grids_ok(),
    {
        self.responses.push(bytes);
        assert(self@.responses =~= old(self)@.responses.push(bytes@));
    }
}

impl Terminal {
    fn linefeed(&mut self)
        requires
            old(self).wf(),
        ensures
            final(self).wf(),
            final(self)@ == old(self)@.linefeed(),
    {
        proof {
            reveal(Screen::wf);
        }
        if self.cursor.row + 1 >= self.scroll_bottom {
            self.grid.scroll_up(self.scroll_top, self.scroll_bottom);
        } else {
            self.cursor.row += 1;
        }
    }

    fn tab(&mut self)
        requires
            old(self).wf(),
        ensures
            final(self).wf(),
            final(self)@ == old(self)@.tab(),
    {
        let cols = self.grid.cols();
        let mut col = self.cursor.col + 1;
        while col < cols
            invariant
                self.wf(),
                cols == self@.cols(),
                self.cursor.col < col <= cols,
                next_tab_stop(self.tabs@, col as int, cols as int) == next_tab_stop(
                    self.tabs@,
                    self.cursor.col + 1,
                    cols as int,
                ),
            ensures
                self.cursor.col < col <= cols,
                next_tab_stop(self.tabs@, col as int, cols as int) == col,
                next_tab_stop(self.tabs@, col as int, cols as int) == next_tab_stop(
                    self.tabs@,
                    self.cursor.col + 1,
                    cols as int,
                ),
            decreases cols - col,
        {
            if col < self.tabs.len() && self.tabs[col] {
                break;
            }
            col += 1;
        }
        self.cursor.col = if col < cols - 1 {
            col
        } else {
            cols - 1
        };
        self.wrap_pending = false;
    }

    /// `count` blank cells inserted at the cursor.
    fn insert_chars(&mut self, count: usize)
        requires
            old(self).wf(),
            count <= MAX_REPEAT,
        ensures
            final(self).wf(),
            final(self)@ == old(self)@.insert_chars(count as int),
    {
        proof {
            reveal(Screen::wf);
        }
        let row = self.cursor.row;
        let col = self.cursor.col;
        let cols = self.grid.cols();
        let ghost before = self@;
        let ghost line = before.screen.lines[row as int];
        let ghost target = line_insert(line, col as int, count as int, before.screen.cols);

        proof {
            assert(Seq::new(
                cols as nat,
                |j: int|
                    if j < cols {
                        line[j]
                    } else {
                        target[j]
                    },
            ) =~= line);
            assert(before.screen.with_line(row as int, line) =~~= before.screen);
        }
        // Shift cells right
        let mut c = cols;
        while c > col
            invariant
                before.wf(),
                count <= MAX_REPEAT,
                col <= c <= cols,
                row == before.cursor.row,
                col == before.cursor.col,
                cols == before.screen.cols,
                line == before.screen.lines[row as int],
                target == line_insert(line, col as int, count as int, before.screen.cols),
                self.grid.wf(),
                self.grids_ok(),
                self@ == before.with_screen(
                    before.screen.with_line(
                        row as int,
                        Seq::new(
                            cols as nat,
                            |j: int|
                                if j < c {
                                    line[j]
                                } else {
                                    target[j]
                                },
                        ),
                    ),
                ),
            decreases c - col,
        {
            proof {
                reveal(Screen::wf);
            }
            c -= 1;
            let ghost cur = self@.screen;
            if c >= col + count {
                let src_cell = self.grid.cell(row, c - count);
                put_cell(&mut self.grid, row, c, src_cell);
            } else {
                put_cell(&mut self.grid, row, c, Cell::default());
            }
            proof {
                assert(self@.screen.lines[row as int] =~= Seq::new(
                    cols as nat,
                    |j: int|
                        if j < c {
                            line[j]
                        } else {
                            target[j]
                        },
                ));
                assert(self@.screen =~~= before.screen.with_line(
                        row as int,
                        Seq::new(
                            cols as nat,
                            |j: int|
                                if j < c {
                                    line[j]
                                } else {
                                    target[j]
                                },
                        ),
                    ));
            }
        }
        proof {
            assert(Seq::new(
                cols as nat,
                |j: int|
                    if j < c {
                        line[j]
                    } else {
                        target[j]
                    },
            ) =~= target);
        }
    }

    /// `count` cells deleted at the cursor.
    fn delete_chars(&mut self, count: usize)
        requires
            old(self).wf(),
            count <= MAX_REPEAT,
        ensures
            final(self).wf(),
            final(self)@ == old(self)@.delete_chars(count as int),
    {
        proof {
            reveal(Screen::wf);
        }
        let row = self.cursor.row;
        let col = self.cursor.col;
        let cols = self.grid.cols();
        let ghost before = self@;
        let ghost line = before.screen.lines[row as int];
        let ghost target = line_delete(line, col as int, count as int, before.screen.cols);

        proof {
            assert(Seq::new(
                cols as nat,
                |j: int|
                    if j < col {
                        target[j]
                    } else {
                        line[j]
                    },
            ) =~= line);
            assert(before.screen.with_line(row as int, line) =~~= before.screen);
        }
        // Shift cells left
        let mut c = col;
        while c < cols
            invariant
                before.wf(),
                col <= c <= cols,
                count <= MAX_REPEAT,
                row == before.cursor.row,
                col == before.cursor.col,
                cols == before.screen.cols,
                line == before.screen.lines[row as int],
                target == line_delete(line, col as int, count as int, before.screen.cols),
                self.grid.wf(),
                self.grids_ok(),
                self@ == before.with_screen(
                    before.screen.with_line(
                        row as int,
                        Seq::new(
                            cols as nat,
                            |j: int|
                                if j < c {
                                    target[j]
                                } else {
                                    line[j]
                                },
                        ),
                    ),
                ),
            decreases cols - c,
        {
            proof {
                reveal(Screen::wf);
            }
            let src = c + count;
            if src < cols {
                let src_cell = self.grid.cell(row, src);
                put_cell(&mut self.grid, row, c, src_cell);
            } else {
                put_cell(&mut self.grid, row, c, Cell::default());
            }
            c += 1;
            proof {
                assert(self@.screen.lines[row as int] =~= Seq::new(
                    cols as nat,
                    |j: int|
                        if j < c {
                            target[j]
                        } else {
                            line[j]
                        },
                ));
                assert(self@.screen =~~= before.screen.with_line(
                        row as int,
                        Seq::new(
                            cols as nat,
                            |j: int|
                                if j < c {
                                    target[j]
                                } else {
                                    line[j]
                                },
                        ),
                    ));
            }
        }
        proof {
            assert(Seq::new(
                cols as nat,
                |j: int|
                    if j < c {
                        target[j]
                    } else {
                        line[j]
                    },
            ) =~= target);
        }
    }

    fn take_wrap(&mut self)
        requires
            old(self).wf(),
        ensures
            final(self).wf(),
            final(self)@ == old(self)@.wrapped(),
    {
        if self.wrap_pending {
            self.cursor.col = 0;
            self.linefeed();
            self.wrap_pending = false;
        }
    }

    fn place(&mut self, wide: bool)
        requires
            old(self).wf(),
            wide ==> old(self)@.cols() >= 2,
        ensures
            final(self).wf(),
            final(self)@ == old(self)@.placed(wide),
            wide ==> final(self)@.cursor.col + 1 < final(self)@.cols(),
    {
        proof {
            reveal(Screen::wf);
        }
        let cols = self.grid.cols();
        if wide && self.cursor.col + 1 >= cols {
            if self.modes.autowrap {
                self.cursor.col = 0;
                self.linefeed();
            } else {
                self.cursor.col = cols - 2;
            }
        }
        proof {
            self.lemma_wf();
        }
    }

    #[verifier::rlimit(40)]
    fn put_glyph(&mut self, c: char, wide: bool)
        requires
            old(self).wf(),
            wide ==> old(self)@.cursor.col + 1 < old(self)@.cols(),
        ensures
            final(self).wf(),
            final(self)@ == old(self)@.put_glyph(c, wide),
    {
        proof {
            reveal(Screen::wf);
        }
        let cols = self.grid.cols();
        let n: usize = if wide {
            2
        } else {
            1
        };
        // Insert mode: shift chars right before writing
        if self.modes.insert {
            self.insert_chars(n);
        }
        let col = self.cursor.col;
        let row = self.cursor.row;
        let attr = self.cursor.attr;
        put_cell(&mut self.grid, row, col, Cell { c: c, attr: attr, width: n as u8, dirty: true });
        if wide {
            put_cell(&mut self.grid, row, col + 1, Cell { c: ' ', attr: attr, width: 0, dirty: true });
        }
        if col + n >= cols {
            self.cursor.col = cols - 1;
            if self.modes.autowrap {
                self.wrap_pending = true;
            }
        } else {
            self.cursor.col = col + n;
        }
    }

    fn print(&mut self, c: char)
        requires
            old(self).wf(),
        ensures
            final(self).wf(),
            final(self)@ == old(self)@.print(c),
    {
        self.take_wrap();
        let cols = self.grid.cols();
        let wide = cols >= 2 && match char_display_width(c) {
            Some(w) => w == 2,
            None => false,
        };
        self.place(wide);
        self.put_glyph(c, wide);
    }

    fn execute(&mut self, byte: u8)
        requires
            old(self).wf(),
        ensures
            final(self).wf(),
            final(self)@ == old(self)@.execute(byte),
    {
        if byte == 0x08 {
            // BS — backspace
            if self.cursor.col > 0 {
                self.cursor.col -= 1;
                self.wrap_pending = false;
            }
        } else if byte == 0x09 {
            // HT — horizontal tab
            self.tab();
        } else if byte == 0x0A || byte == 0x0B || byte == 0x0C {
            // LF, VT, FF — linefeed
            self.linefeed();
            self.wrap_pending = false;
        } else if byte == 0x0D {
            // CR — carriage return
            self.cursor.col = 0;
            self.wrap_pending = false;
        }
        // BEL, SO, SI and other controls are ignored
    }
}

impl Terminal {
    fn erase_display(&mut self, mode: u16)
        requires
            old(self).wf(),
        ensures
            final(self).wf(),
            final(self)@ == old(self)@.erase_display(mode as int),
    {
        proof {
            reveal(Screen::wf);
        }
        let row = self.cursor.row;
        let col = self.cursor.col;
        let rows = self.grid.rows();
        let cols = self.grid.cols();
        let ghost before = self@;
        let ghost s = before.screen;

        // Below (from cursor to end)
        if mode == 0 {
            self.grid.erase_cells(row, col, cols);
            let mut r: usize = row + 1;
            proof {
                assert(self@.screen =~~= Screen {
                    lines: Seq::new(
                        s.rows,
                        |i: int|
                            if i < row {
                                s.lines[i]
                            } else if i == row {
                                s.erase_cells(row as int, col as int, s.cols as int).lines[i]
                            } else if i < r {
                                blank_line(s.cols)
                            } else {
                                s.lines[i]
                            },
                    ),
                    ..s
                });
            }
            while r < rows
                invariant
                    before.wf(),
                    row < r <= rows,
                    rows == s.rows,
                    cols == s.cols,
                    s == before.screen,
                    row == before.cursor.row,
                    col == before.cursor.col,
                    self.grid.wf(),
                    self.grids_ok(),
                    self@ == before.with_screen(
                        Screen {
                            lines: Seq::new(
                                s.rows,
                                |i: int|
                                    if i < row {
                                        s.lines[i]
                                    } else if i == row {
                                        s.erase_cells(row as int, col as int, s.cols as int).lines[i]
                                    } else if i < r {
                                        blank_line(s.cols)
                                    } else {
                                        s.lines[i]
                                    },
                            ),
                            ..s
                        },
                    ),
                decreases rows - r,
            {
                proof {
                    reveal(Screen::wf);
                }
                self.grid.erase_cells(r, 0, cols);
                r += 1;
                proof {
                    assert(self@.screen =~~= Screen {
                            lines: Seq::new(
                                s.rows,
                                |i: int|
                                    if i < row {
                                        s.lines[i]
                                    } else if i == row {
                                        s.erase_cells(row as int, col as int, s.cols as int).lines[i]
                                    } else if i < r {
                                        blank_line(s.cols)
                                    } else {
                                        s.lines[i]
                                    },
                            ),
                            ..s
                        });
                }
            }
            proof {
                assert(self@.screen =~~= before.erase_display(0).screen);
            }
        } else if mode == 1 {
            // Above (from start to cursor)
            let mut r: usize = 0;
            proof {
                assert(self@.screen =~~= Screen {
                    lines: Seq::new(
                        s.rows,
                        |i: int|
                            if i < r {
                                blank_line(s.cols)
                            } else {
                                s.lines[i]
                            },
                    ),
                    ..s
                });
            }
            while r < row
                invariant
                    before.wf(),
                    r <= row,
                    rows == s.rows,
                    cols == s.cols,
                    s == before.screen,
                    row == before.cursor.row,
                    col == before.cursor.col,
                    self.grid.wf(),
                    self.grids_ok(),
                    self@ == before.with_screen(
                        Screen {
                            lines: Seq::new(
                                s.rows,
                                |i: int|
                                    if i < r {
                                        blank_line(s.cols)
                                    } else {
                                        s.lines[i]
                                    },
                            ),
                            ..s
                        },
                    ),
                decreases row - r,
            {
                proof {
                    reveal(Screen::wf);
                }
                self.grid.erase_cells(r, 0, cols);
                r += 1;
                proof {
                    assert(self@.screen =~~= Screen {
                            lines: Seq::new(
                                s.rows,
                                |i: int|
                                    if i < r {
                                        blank_line(s.cols)
                                    } else {
                                        s.lines[i]
                                    },
                            ),
                            ..s
                        });
                }
            }
            self.grid.erase_cells(row, 0, col + 1);
            proof {
                assert(self@.screen =~~= before.erase_display(1).screen);
            }
        } else if mode == 2 {
            // Entire display
            self.grid.clear();
        } else if mode == 3 {
            // Entire display + scrollback
            self.grid.clear();
            self.grid.clear_scrollback();
        }
    }

    fn erase_line(&mut self, mode: u16)
        requires
            old(self).wf(),
        ensures
            final(self).wf(),
            final(self)@ == old(self)@.erase_line(mode as int),
    {
        let row = self.cursor.row;
        let col = self.cursor.col;
        let cols = self.grid.cols();
        if mode == 0 {
            self.grid.erase_cells(row, col, cols);
        } else if mode == 1 {
            self.grid.erase_cells(row, 0, col + 1);
        } else if mode == 2 {
            self.grid.erase_cells(row, 0, cols);
        }
    }

    fn switch_alt_screen(&mut self, alt: bool)
        requires
            old(self).wf(),
        ensures
            final(self).wf(),
            final(self)@ == old(self)@.switch_screen(alt),
    {
        if alt != self.modes.alt_screen {
            std::mem::swap(&mut self.grid, &mut self.alt_grid);
            self.modes.alt_screen = alt;
            if alt {
                self.grid.clear();
            }
        }
    }

    fn dec_set_one(&mut self, mode: u16)
        requires
            old(self).wf(),
        ensures
            final(self).wf(),
            final(self)@ == old(self)@.dec_set_one(mode),
    {
        if mode == 1 {
            self.modes.app_cursor = true;
        } else if mode == 6 {
            self.modes.origin = true;
        } else if mode == 7 {
            self.modes.autowrap = true;
        } else if mode == 25 {
            self.cursor.visible = true;
        } else if mode == 47 || mode == 1047 {
            self.switch_alt_screen(true);
        } else if mode == 1049 {
            self.cursor.save();
            self.switch_alt_screen(true);
        } else if mode == 2004 {
            self.modes.bracket_paste = true;
        }
        // 12 (cursor blink), 1004 (focus reporting) and 2026 (synchronized
        // output) are acknowledged without effect, like any other mode.
    }

    fn dec_set(&mut self, params: &[Vec<u16>])
        requires
            old(self).wf(),
        ensures
            final(self).wf(),
            final(self)@ == old(self)@.dec_set_upto(params@, params@.len() as int),
    {
        let ghost before = self@;
        let mut i: usize = 0;
        while i < params.len()
            invariant
                i <= params@.len(),
                self.wf(),
                self@ == before.dec_set_upto(params@, i as int),
            decreases params@.len() - i,
        {
            let mode = match first_of(params, i) {
                Some(v) => v,
                None => 0,
            };
            self.dec_set_one(mode);
            i += 1;
        }
    }

    fn dec_reset_one(&mut self, mode: u16)
        requires
            old(self).wf(),
        ensures
            final(self).wf(),
            final(self)@ == old(self)@.dec_reset_one(mode),
    {
        if mode == 1 {
            self.modes.app_cursor = false;
        } else if mode == 6 {
            self.modes.origin = false;
        } else if mode == 7 {
            self.modes.autowrap = false;
        } else if mode == 25 {
            self.cursor.visible = false;
        } else if mode == 47 || mode == 1047 {
            self.switch_alt_screen(false);
        } else if mode == 1049 {
            self.switch_alt_screen(false);
            self.cursor.restore();
            self.clamp_cursor();
        } else if mode == 2004 {
            self.modes.bracket_paste = false;
        }
        // 12, 1004 and 2026 are acknowledged without effect.
    }

    fn dec_reset(&mut self, params: &[Vec<u16>])
        requires
            old(self).wf(),
        ensures
            final(self).wf(),
            final(self)@ == old(self)@.dec_reset_upto(params@, params@.len() as int),
    {
        let ghost before = self@;
        let mut i: usize = 0;
        while i < params.len()
            invariant
                i <= params@.len(),
                self.wf(),
                self@ == before.dec_reset_upto(params@, i as int),
            decreases params@.len() - i,
        {
            let mode = match first_of(params, i) {
                Some(v) => v,
                None => 0,
            };
            self.dec_reset_one(mode);
            i += 1;
        }
    }

    /// DEC private mode report (DECRQM).
    fn mode_report(&mut self, params: &[Vec<u16>])
        requires
            old(self).wf(),
        ensures
            final(self).wf(),
            final(self)@ == old(self)@.mode_report(params@),
    {
        if let Some(mode) = first_of(params, 0) {
            let status: u64 = if mode == 1 {
                if self.modes.app_cursor {
                    1
                } else {
                    2
                }
            } else if mode == 6 {
                if self.modes.origin {
                    1
                } else {
                    2
                }
            } else if mode == 7 {
                if self.modes.autowrap {
                    1
                } else {
                    2
                }
            } else if mode == 25 {
                if self.cursor.visible {
                    1
                } else {
                    2
                }
            } else if mode == 1004 {
                2  // focus reporting — not active
            } else if mode == 2004 {
                if self.modes.bracket_paste {
                    1
                } else {
                    2
                }
            } else if mode == 2026 {
                4  // synchronized output — permanently reset
            } else {
                0  // not recognized
            };
            let mut bytes: Vec<u8> = vec![0x1b, 0x5b, 0x3f];
            push_decimal(&mut bytes, mode as u64);
            bytes.push(0x3b);
            push_decimal(&mut bytes, status);
            bytes.push(0x24);
            bytes.push(0x79);
            assert(bytes@ =~= mode_report_reply(
                mode as nat,
                mode_status(self.modes, self.cursor.visible, mode),
            ));
            self.reply(bytes);
        }
    }
}

/// Next parameter index, not moving past the end.
fn next_index(i: usize, len: usize) -> (j: usize)
    ensures
        j == (if i < len {
            i + 1
        } else {
            i as int
        }),
{
    if i < len {
        i + 1
    } else {
        i
    }
}

/// Reads an extended color (`5;n` or `2;r;g;b`) whose kind is at `*i`,
/// updating `attr` and moving `*i` past what was read.
fn parse_extended_color(attr: &mut Attr, params: &[Vec<u16>], i: &mut usize, foreground: bool)
    requires
        *old(i) <= params@.len(),
    ensures
        *final(i) <= params@.len(),
        (*final(attr), *final(i) as int) == ({
            let (a, j) = extended_color(*old(attr), params@, *old(i) as int, foreground);
            (a, min(j, params@.len() as int))
        }),
{
    let len = params.len();
    let kind = first_of(params, *i);
    if kind == Some(5u16) {
        // 256-color
        *i = next_index(*i, len);
        if let Some(idx) = first_of(params, *i) {
            let color = Color::Indexed(idx as u8);
            if foreground {
                attr.fg = color;
            } else {
                attr.bg = color;
            }
        }
        *i = next_index(*i, len);
    } else if kind == Some(2u16) {
        // RGB
        *i = next_index(*i, len);
        let r = match first_of(params, *i) {
            Some(v) => v,
            None => 0,
        } as u8;
        *i = next_index(*i, len);
        let g = match first_of(params, *i) {
            Some(v) => v,
            None => 0,
        } as u8;
        *i = next_index(*i, len);
        let b = match first_of(params, *i) {
            Some(v) => v,
            None => 0,
        } as u8;
        let color = Color::Rgb(r, g, b);
        if foreground {
            attr.fg = color;
        } else {
            attr.bg = color;
        }
        *i = next_index(*i, len);
    } else {
        *i = next_index(*i, len);
    }
}

/// The effect of one SGR code (other than 38 and 48).
fn apply_sgr_code(attr: &mut Attr, p: u16)
    ensures
        *final(attr) == sgr_code(*old(attr), p),
{
    if p == 0 {
        attr.reset();
    } else if p == 1 {
        attr.bold = true;
    } else if p == 2 {
        attr.dim = true;
    } else if p == 3 {
        attr.italic = true;
    } else if p == 4 {
        attr.underline = true;
    } else if p == 5 {
        attr.blink = true;
    } else if p == 7 {
        attr.inverse = true;
    } else if p == 8 {
        attr.hidden = true;
    } else if p == 9 {
        attr.strikethrough = true;
    } else if p == 22 {
        attr.bold = false;
        attr.dim = false;
    } else if p == 23 {
        attr.italic = false;
    } else if p == 24 {
        attr.underline = false;
    } else if p == 25 {
        attr.blink = false;
    } else if p == 27 {
        attr.inverse = false;
    } else if p == 28 {
        attr.hidden = false;
    } else if p == 29 {
        attr.strikethrough = false;
    } else if 30 <= p && p <= 37 {
        // Foreground colors
        attr.fg = Color::Indexed((p - 30) as u8);
    } else if p == 39 {
        attr.fg = Color::Default;
    } else if 40 <= p && p <= 47 {
        // Background colors
        attr.bg = Color::Indexed((p - 40) as u8);
    } else if p == 49 {
        attr.bg = Color::Default;
    } else if 90 <= p && p <= 97 {
        // Bright foreground
        attr.fg = Color::Indexed((p - 90 + 8) as u8);
    } else if 100 <= p && p <= 107 {
        // Bright background
        attr.bg = Color::Indexed((p - 100 + 8) as u8);
    }
}

/// The attributes after a Select Graphic Rendition sequence.
fn apply_sgr(attr: &mut Attr, params: &[Vec<u16>])
    ensures
        *final(attr) == sgr_all(*old(attr), params@),
{
    if params.len() == 0 {
        attr.reset();
        return ;
    }
    let ghost start = *attr;
    let mut i: usize = 0;
    while i < params.len()
        invariant
            i <= params@.len(),
            params@.len() > 0,
            sgr_from(*attr, params@, i as int) == sgr_from(start, params@, 0),
        decreases params@.len() - i,
    {
        let p = match first_of(params, i) {
            Some(v) => v,
            None => 0,
        };
        let ghost a = *attr;
        if p == 38 || p == 48 {
            i += 1;
            parse_extended_color(attr, params, &mut i, p == 38);
            continue ;
        }
        proof {
            assert(sgr_from(a, params@, i as int) == sgr_from(sgr_code(a, p), params@, i + 1));
        }
        apply_sgr_code(attr, p);
        i += 1;
    }
}

impl Terminal {
    /// Select graphic rendition (SGR).
    fn sgr(&mut self, params: &[Vec<u16>])
        requires
            old(self).wf(),
        ensures
            final(self).wf(),
            final(self)@ == old(self)@.with_cursor(
                Cursor { attr: sgr_all(old(self)@.cursor.attr, params@), ..old(self)@.cursor },
            ),
    {
        let mut attr = self.cursor.attr;
        apply_sgr(&mut attr, params);
        self.cursor.attr = attr;
    }
}

impl Terminal {
    /// Cursor motion commands (CUU, CUD, CUF, CUB, CNL, CPL, CHA, CUP, HVP, VPA).
    fn csi_motion(&mut self, params: &[Vec<u16>], intermediates: &[u8], action: char)
        requires
            old(self).wf(),
            action == 'A' || action == 'B' || action == 'C' || action == 'D' || action == 'E'
                || action == 'F' || action == 'G' || action == 'H' || action == 'f' || action
                == 'd',
        ensures
            final(self).wf(),
            final(self)@ == old(self)@.csi_plain(params@, intermediates@, action),
    {
        proof {
            self.grid@.lemma_dims();
        }
        let rows = self.grid.rows();
        let cols = self.grid.cols();
        let p0 = csi_param(params, 0, 1) as usize;
        let n = if p0 < MAX_REPEAT {
            p0
        } else {
            MAX_REPEAT
        };
        let row = self.cursor.row;
        let col = self.cursor.col;
        let down = if row + n < rows - 1 {
            row + n
        } else {
            rows - 1
        };
        let up = if row > n {
            row - n
        } else {
            0
        };
        if action == 'A' {
            // CUU — Cursor Up
            self.cursor.row = up;
        } else if action == 'B' {
            // CUD — Cursor Down
            self.cursor.row = down;
        } else if action == 'C' {
            // CUF — Cursor Forward
            self.cursor.col = if col + n < cols - 1 {
                col + n
            } else {
                cols - 1
            };
        } else if action == 'D' {
            // CUB — Cursor Backward
            self.cursor.col = if col > n {
                col - n
            } else {
                0
            };
        } else if action == 'E' {
            // CNL — Cursor Next Line
            self.cursor.row = down;
            self.cursor.col = 0;
        } else if action == 'F' {
            // CPL — Cursor Previous Line
            self.cursor.row = up;
            self.cursor.col = 0;
        } else if action == 'G' {
            // CHA — Cursor Horizontal Absolute
            let target = if p0 > 1 {
                p0 - 1
            } else {
                0
            };
            self.cursor.col = if target < cols - 1 {
                target
            } else {
                cols - 1
            };
        } else if action == 'H' || action == 'f' {
            // CUP — Cursor Position
            let target_row = if p0 > 1 {
                p0 - 1
            } else {
                0
            };
            let p1 = csi_param(params, 1, 1) as usize;
            let target_col = if p1 > 1 {
                p1 - 1
            } else {
                0
            };
            self.cursor.row = if target_row < rows - 1 {
                target_row
            } else {
                rows - 1
            };
            self.cursor.col = if target_col < cols - 1 {
                target_col
            } else {
                cols - 1
            };
        } else {
            // VPA — Vertical Line Position Absolute
            let target_row = if p0 > 1 {
                p0 - 1
            } else {
                0
            };
            self.cursor.row = if target_row < rows - 1 {
                target_row
            } else {
                rows - 1
            };
        }
        self.wrap_pending = false;
    }

    /// Editing commands (ED, EL, IL, DL, DCH, SU, SD, ECH, ICH).
    fn csi_edit(&mut self, params: &[Vec<u16>], intermediates: &[u8], action: char)
        requires
            old(self).wf(),
            action == 'J' || action == 'K' || action == 'L' || action == 'M' || action == 'P'
                || action == 'S' || action == 'T' || action == 'X' || action == '@',
        ensures
            final(self).wf(),
            final(self)@ == old(self)@.csi_plain(params@, intermediates@, action),
    {
        proof {
            self.grid@.lemma_dims();
        }
        let p0 = csi_param(params, 0, 1) as usize;
        let n = if p0 < MAX_REPEAT {
            p0
        } else {
            MAX_REPEAT
        };
        let ghost before = self@;
        if action == 'J' {
            // ED — Erase in Display
            let mode = csi_param(params, 0, 0);
            self.erase_display(mode);
        } else if action == 'K' {
            // EL — Erase in Line
            let mode = csi_param(params, 0, 0);
            self.erase_line(mode);
        } else if action == 'L' {
            // IL — Insert Lines
            self.grid.insert_lines(self.cursor.row, n, self.scroll_bottom);
        } else if action == 'M' {
            // DL — Delete Lines
            self.grid.delete_lines(self.cursor.row, n, self.scroll_bottom);
        } else if action == 'P' {
            // DCH — Delete Characters
            self.delete_chars(n);
        } else if action == 'S' {
            // SU — Scroll Up
            let mut k: usize = 0;
            while k < n
                invariant
                    k <= n,
                    self.wf(),
                    self@ == before.with_screen(
                        before.screen.scroll_up_times(
                            before.scroll_top as int,
                            before.scroll_bottom as int,
                            k as nat,
                        ),
                    ),
                decreases n - k,
            {
                self.grid.scroll_up(self.scroll_top, self.scroll_bottom);
                k += 1;
            }
        } else if action == 'T' {
            // SD — Scroll Down
            let mut k: usize = 0;
            while k < n
                invariant
                    k <= n,
                    self.wf(),
                    self@ == before.with_screen(
                        before.screen.scroll_down_times(
                            before.scroll_top as int,
                            before.scroll_bottom as int,
                            k as nat,
                        ),
                    ),
                decreases n - k,
            {
                self.grid.scroll_down(self.scroll_top, self.scroll_bottom);
                k += 1;
            }
        } else if action == 'X' {
            // ECH — Erase Characters
            let row = self.cursor.row;
            let col = self.cursor.col;
            self.grid.erase_cells(row, col, col + n);
        } else {
            // ICH — Insert Characters
            self.insert_chars(n);
        }
    }

    /// Set scrolling region (DECSTBM).
    #[verifier::rlimit(30)]
    fn set_scroll_region(&mut self, params: &[Vec<u16>])
        requires
            old(self).wf(),
        ensures
            final(self).wf(),
            final(self)@ == old(self)@.set_scroll_region(params@),
    {
        proof {
            self.grid@.lemma_dims();
        }
        let rows = self.grid.rows();
        let top = csi_param(params, 0, 1) as usize;
        let bottom = csi_param(params, 1, rows as u16) as usize;
        assert(bottom as int == param(params@, 1, self@.rows()));
        let top_less = if top > 1 {
            top - 1
        } else {
            0
        };
        let new_top = if top_less < rows - 1 {
            top_less
        } else {
            rows - 1
        };
        let new_bottom = if bottom < rows {
            bottom
        } else {
            rows
        };
        // Validate: top must be above bottom, region must be at least 2 lines
        if new_top < new_bottom && new_bottom - new_top >= 2 {
            self.scroll_top = new_top;
            self.scroll_bottom = new_bottom;
        }
        // Cursor goes home regardless
        self.cursor.row = 0;
        self.cursor.col = 0;
        self.wrap_pending = false;
    }

    /// Device queries and the remaining commands (SGR, DECSTBM, SM, RM, DA1,
    /// DSR, DECSCUSR, window reports).
    fn csi_other(&mut self, params: &[Vec<u16>], intermediates: &[u8], action: char)
        requires
            old(self).wf(),
            !(action == 'A' || action == 'B' || action == 'C' || action == 'D' || action == 'E'
                || action == 'F' || action == 'G' || action == 'H' || action == 'f' || action
                == 'd'),
            !(action == 'J' || action == 'K' || action == 'L' || action == 'M' || action == 'P'
                || action == 'S' || action == 'T' || action == 'X' || action == '@'),
        ensures
            final(self).wf(),
            final(self)@ == old(self)@.csi_plain(params@, intermediates@, action),
    {
        proof {
            self.grid@.lemma_dims();
        }
        if action == 'm' {
            // SGR — Select Graphic Rendition
            self.sgr(params);
        } else if action == 'r' {
            // DECSTBM — Set Scrolling Region
            self.set_scroll_region(params);
        } else if action == 'h' || action == 'l' {
            // SM / RM — Set / Reset Mode (only insert mode, 4, is handled)
            let set = action == 'h';
            let mut i: usize = 0;
            let mut found = false;
            while i < params.len()
                invariant
                    i <= params@.len(),
                    found == exists|k: int| 0 <= k < i && first_value(params@, k) == Some(4u16),
                decreases params@.len() - i,
            {
                if first_of(params, i) == Some(4u16) {
                    found = true;
                }
                i += 1;
            }
            if found {
                self.modes.insert = set;
            }
        } else if action == 'c' {
            // DA1 — Primary Device Attributes (DA2 is handled with the `>` prefix)
            if intermediates.len() == 0 {
                self.reply(vec![0x1b, 0x5b, 0x3f, 0x36, 0x32, 0x3b, 0x32, 0x32, 0x63]);
            }
        } else if action == 'n' {
            // DSR — Device Status Report
            let mode = csi_param(params, 0, 0);
            if mode == 5 {
                // Status report — respond "OK"
                self.reply(vec![0x1b, 0x5b, 0x30, 0x6e]);
            } else if mode == 6 {
                // CPR — Cursor Position Report
                let mut bytes: Vec<u8> = vec![0x1b, 0x5b];
                push_decimal(&mut bytes, (self.cursor.row + 1) as u64);
                bytes.push(0x3b);
                push_decimal(&mut bytes, (self.cursor.col + 1) as u64);
                bytes.push(0x52);
                assert(bytes@ =~= cursor_report_reply(
                    (self.cursor.row + 1) as nat,
                    (self.cursor.col + 1) as nat,
                ));
                self.reply(bytes);
            }
        } else if action == 'q' && intermediates.len() > 0 && intermediates[0] == 0x20 {
            // DECSCUSR — Set Cursor Style (CSI Ps SP q)
            let style = csi_param(params, 0, 1);
            self.cursor.shape = if style == 3 || style == 4 {
                CursorShape::Underline
            } else if style == 5 || style == 6 {
                CursorShape::Bar
            } else {
                CursorShape::Block
            };
        } else if action == 't' {
            // Window manipulation: 18 reports the size in characters
            if csi_param(params, 0, 0) == 18 {
                let mut bytes: Vec<u8> = vec![0x1b, 0x5b, 0x38, 0x3b];
                push_decimal(&mut bytes, self.grid.rows() as u64);
                bytes.push(0x3b);
                push_decimal(&mut bytes, self.grid.cols() as u64);
                bytes.push(0x74);
                assert(bytes@ =~= size_report_reply(self@.rows() as nat, self@.cols() as nat));
                self.reply(bytes);
            }
        }
    }

    fn csi(&mut self, params: &[Vec<u16>], intermediates: &[u8], action: char)
        requires
            old(self).wf(),
        ensures
            final(self).wf(),
            final(self)@ == old(self)@.csi(params@, intermediates@, action),
    {
        // CSI > ... — xterm-style queries
        if intermediates.len() > 0 && intermediates[0] == 0x3e {
            if action == 'q' {
                // XTVERSION — report terminal name/version
                self.reply(
                    vec![
                        0x1b, 0x50, 0x3e, 0x7c, 0x63, 0x72, 0x79, 0x74, 0x74, 0x65, 0x72, 0x20,
                        0x30, 0x2e, 0x31, 0x2e, 0x30, 0x1b, 0x5c,
                    ],
                );
            } else if action == 'c' {
                // DA2 — Secondary Device Attributes
                self.reply(vec![0x1b, 0x5b, 0x3e, 0x31, 0x3b, 0x30, 0x3b, 0x30, 0x63]);
            }
            return ;
        }
        // DEC private modes (? prefix)
        if intermediates.len() > 0 && intermediates[0] == 0x3f {
            if action == 'h' {
                self.dec_set(params);
            } else if action == 'l' {
                self.dec_reset(params);
            } else if action == 'p' {
                // DECRQM — DEC private mode report
                self.mode_report(params);
            }
            return ;
        }
        if action == 'A' || action == 'B' || action == 'C' || action == 'D' || action == 'E'
            || action == 'F' || action == 'G' || action == 'H' || action == 'f' || action == 'd' {
            self.csi_motion(params, intermediates, action);
        } else if action == 'J' || action == 'K' || action == 'L' || action == 'M' || action == 'P'
            || action == 'S' || action == 'T' || action == 'X' || action == '@' {
            self.csi_edit(params, intermediates, action);
        } else {
            self.csi_other(params, intermediates, action);
        }
    }
}

impl Terminal {
    fn reverse_index(&mut self)
        requires
            old(self).wf(),
        ensures
            final(self).wf(),
            final(self)@ == old(self)@.reverse_index(),
    {
        if self.cursor.row == self.scroll_top {
            self.grid.scroll_down(self.scroll_top, self.scroll_bottom);
        } else if self.cursor.row > 0 {
            self.cursor.row -= 1;
        }
    }

    fn esc(&mut self, intermediates: &[u8], action: u8)
        requires
            old(self).wf(),
        ensures
            final(self).wf(),
            final(self)@ == old(self)@.esc(intermediates@, action),
    {
        // ESC ( and ESC ) (character set designations) and every other
        // sequence with intermediates are ignored.
        if intermediates.len() != 0 {
            return ;
        }
        if action == 0x37 {
            // ESC 7 — Save Cursor (DECSC)
            self.cursor.save();
        } else if action == 0x38 {
            // ESC 8 — Restore Cursor (DECRC)
            self.cursor.restore();
            self.clamp_cursor();
        } else if action == 0x44 {
            // ESC D — Index (linefeed)
            self.linefeed();
        } else if action == 0x4d {
            // ESC M — Reverse Index (reverse linefeed)
            self.reverse_index();
        } else if action == 0x45 {
            // ESC E — Next Line
            self.cursor.col = 0;
            self.linefeed();
        } else if action == 0x63 {
            // ESC c — Full Reset (RIS)
            self.reset();
        } else if action == 0x48 {
            // ESC H — Tab Set (HTS)
            let col = self.cursor.col;
            if col < self.tabs.len() {
                self.tabs.set(col, true);
            }
        }
    }

    fn osc(&mut self, params: &[Vec<u8>])
        requires
            old(self).wf(),
        ensures
            final(self).wf(),
            final(self)@ == old(self)@.osc(params@),
    {
        if params.len() == 0 {
            return ;
        }
        let cmd = &params[0];
        // Set window title
        if cmd.len() == 1 && (cmd[0] == 0x30 || cmd[0] == 0x32) {
            proof {
                assert(cmd@ =~= seq![cmd@[0]]);
            }
            if params.len() > 1 {
                let title = &params[1];
                // Cap title length to prevent unbounded allocation
                let len = if title.len() < MAX_TITLE_LEN {
                    title.len()
                } else {
                    MAX_TITLE_LEN
                };
                let raw = vstd::slice::slice_subrange(title.as_slice(), 0, len);
                assert(raw@ =~= title@.take(len as int));
                let text = string_from_utf8_lossy(raw);
                let chars = str_chars(text.as_str());
                let kept = utf8_truncate(chars.as_slice(), MAX_TITLE_LEN);
                self.title = chars_to_string(kept.as_slice());
            }
        } else {
            proof {
                if cmd@.len() == 1 {
                    assert(cmd@ != seq![0x30u8] || cmd@[0] == 0x30);
                    assert(cmd@ != seq![0x32u8] || cmd@[0] == 0x32);
                } else {
                    assert(seq![0x30u8].len() == 1);
                    assert(seq![0x32u8].len() == 1);
                }
            }
        }
    }

    /// Full terminal reset.
    pub fn reset(&mut self)
        requires
            old(self).wf(),
        ensures
            final(self).wf(),
            final(self)@.wf(),
            final(self)@ == old(self)@.reset(),
    {
        let cols = self.grid.cols();
        let rows = self.grid.rows();
        proof {
            self.grid@.lemma_dims();
        }
        *self = Self::new(cols, rows);
        proof {
            self.lemma_wf();
        }
    }

    /// Resize the terminal.
    pub fn resize(&mut self, cols: usize, rows: usize)
        requires
            old(self).wf(),
        ensures
            final(self).wf(),
            final(self)@.wf(),
            final(self)@ == old(self)@.resized(cols as int, rows as int),
    {
        self.grid.resize(cols, rows);
        self.alt_grid.resize(cols, rows);
        proof {
            self.grid@.lemma_dims();
        }
        let cols = self.grid.cols();
        let rows = self.grid.rows();
        self.scroll_top = 0;
        self.scroll_bottom = rows;
        self.tabs = default_tab_stops(cols);
        self.clamp_cursor();
        self.wrap_pending = false;
        proof {
            self.lemma_wf();
        }
    }

    /// Apply one parsed action.
    fn apply(&mut self, action: &Action)
        requires
            old(self).wf(),
        ensures
            final(self).wf(),
            final(self)@ == old(self)@.step(*action),
    {
        proof {
            reveal(TermView::step);
        }
        match action {
            Action::Print(c) => self.print(*c),
            Action::Execute(byte) => self.execute(*byte),
            Action::Csi { params, intermediates, action } => self.csi(
                params.as_slice(),
                intermediates.as_slice(),
                *action,
            ),
            Action::Esc { intermediates, action } => self.esc(intermediates.as_slice(), *action),
            Action::Osc(params) => self.osc(params.as_slice()),
            Action::Dcs { .. } => {},  // DCS strings are not interpreted
        }
    }

    /// Feed parsed VTE actions into the terminal.
    pub fn process(&mut self, actions: &[Action])
        requires
            old(self).wf(),
        ensures
            final(self).wf(),
            final(self)@.wf(),
            final(self)@ == old(self)@.run(actions@),
            final(self)@.screen.cols == old(self)@.screen.cols,
            final(self)@.screen.rows == old(self)@.screen.rows,
    {
        let ghost start = self@;
        proof {
            self.lemma_wf();
            crate::laws::lemma_run_keeps_grid_size(start, actions@);
        }
        let mut i: usize = 0;
        while i < actions.len()
            invariant
                i <= actions@.len(),
                self.wf(),
                self@ == start.run(actions@.take(i as int)),
            decreases actions@.len() - i,
        {
            let ghost prefix = actions@.take(i as int);
            proof {
                assert(actions@.take(i + 1).drop_last() =~= prefix);
                assert(actions@.take(i + 1).last() == actions@[i as int]);
            }
            self.apply(&actions[i]);
            i += 1;
        }
        assert(actions@.take(actions@.len() as int) =~= actions@);
        proof {
            self.lemma_wf();
        }
    }
}

} // verus!
