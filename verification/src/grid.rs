use std::collections::VecDeque;

use vstd::prelude::*;

use crate::cell::{blank_cell, Cell};

verus! {

/// Maximum allowed terminal dimension to prevent absurd allocations.
pub const MAX_DIMENSION: usize = 10_000;

/// Maximum number of lines kept in the scrollback buffer.
pub const MAX_SCROLLBACK: usize = 10_000;

/// A requested dimension clamped into `1..=MAX_DIMENSION`.
pub open spec fn clamp_dim(n: int) -> nat {
    if n < 1 {
        1
    } else if n > MAX_DIMENSION {
        MAX_DIMENSION as nat
    } else {
        n as nat
    }
}

/// A line of `n` blank cells.
pub open spec fn blank_line(n: nat) -> Seq<Cell> {
    Seq::new(n, |_j: int| blank_cell())
}

/// What an out-of-bounds read sees: a blank cell that is not dirty.
pub open spec fn outside_cell() -> Cell {
    Cell { dirty: false, ..blank_cell() }
}

/// Appends a line to the scrollback, dropping the oldest line once the
/// buffer would exceed `MAX_SCROLLBACK` lines.
pub open spec fn push_scrollback(sb: Seq<Seq<Cell>>, line: Seq<Cell>) -> Seq<Seq<Cell>> {
    if sb.len() + 1 > MAX_SCROLLBACK {
        sb.push(line).drop_first()
    } else {
        sb.push(line)
    }
}

/// The abstract content of a grid: visible lines (top first) and the
/// scrollback (oldest first).
#[verifier::ext_equal]
pub struct Screen {
    pub cols: nat,
    pub rows: nat,
    pub lines: Seq<Seq<Cell>>,
    pub scrollback: Seq<Seq<Cell>>,
}

impl Screen {
    /// Dimensions in range, every visible line exactly `cols` wide, scrollback bounded.
    #[verifier::opaque]
    pub open spec fn wf(self) -> bool {
        &&& 1 <= self.cols <= MAX_DIMENSION
        &&& 1 <= self.rows <= MAX_DIMENSION
        &&& self.lines.len() == self.rows
        &&& forall|i: int| 0 <= i < self.rows ==> (#[trigger] self.lines[i]).len() == self.cols
        &&& self.scrollback.len() <= MAX_SCROLLBACK
    }

    /// The size bounds a well-formed screen keeps.
    pub proof fn lemma_dims(self)
        requires
            self.wf(),
        ensures
            1 <= self.cols <= MAX_DIMENSION,
            1 <= self.rows <= MAX_DIMENSION,
            self.lines.len() == self.rows,
    {
        reveal(Screen::wf);
    }

    /// A blank screen of the clamped size with an empty scrollback.
    pub open spec fn fresh(cols: int, rows: int) -> Screen {
        Screen {
            cols: clamp_dim(cols),
            rows: clamp_dim(rows),
            lines: Seq::new(clamp_dim(rows), |_i: int| blank_line(clamp_dim(cols))),
            scrollback: Seq::empty(),
        }
    }

    /// The cell at `(row, col)`, or a clean blank cell outside the grid.
    pub open spec fn cell(self, row: int, col: int) -> Cell {
        if 0 <= row < self.lines.len() && 0 <= col < self.lines[row].len() {
            self.lines[row][col]
        } else {
            outside_cell()
        }
    }

    /// The screen with one cell replaced.
    pub open spec fn with_cell(self, row: int, col: int, cell: Cell) -> Screen {
        Screen { lines: self.lines.update(row, self.lines[row].update(col, cell)), ..self }
    }

    /// The screen with one line replaced.
    pub open spec fn with_line(self, row: int, line: Seq<Cell>) -> Screen {
        Screen { lines: self.lines.update(row, line), ..self }
    }

    /// Lines `top..bottom` moved up by `n`; the `n` lines freed at the
    /// bottom of the region are blank. Lines outside the region stay.
    pub open spec fn shift_up(self, top: int, bottom: int, n: int) -> Screen {
        Screen {
            lines: Seq::new(
                self.rows,
                |i: int|
                    if i < top || i >= bottom {
                        self.lines[i]
                    } else if i + n < bottom {
                        self.lines[i + n]
                    } else {
                        blank_line(self.cols)
                    },
            ),
            ..self
        }
    }

    /// Lines `top..bottom` moved down by `n`; the `n` lines freed at the
    /// top of the region are blank. Lines outside the region stay.
    pub open spec fn shift_down(self, top: int, bottom: int, n: int) -> Screen {
        Screen {
            lines: Seq::new(
                self.rows,
                |i: int|
                    if i < top || i >= bottom {
                        self.lines[i]
                    } else if i < top + n {
                        blank_line(self.cols)
                    } else {
                        self.lines[i - n]
                    },
            ),
            ..self
        }
    }

    /// One line of scrolling in the region `top..bottom`. When the region
    /// starts at the top of the screen and `to_scrollback` is set, the line
    /// that leaves goes to the scrollback. An empty or out-of-range region
    /// changes nothing.
    pub open spec fn scroll_up(self, top: int, bottom: int, to_scrollback: bool) -> Screen {
        if top >= bottom || bottom > self.rows {
            self
        } else {
            Screen {
                scrollback: if to_scrollback && top == 0 {
                    push_scrollback(self.scrollback, self.lines[0])
                } else {
                    self.scrollback
                },
                ..self.shift_up(top, bottom, 1)
            }
        }
    }

    /// `n` successive scrolls up (with scrollback) of the region `top..bottom`.
    pub open spec fn scroll_up_times(self, top: int, bottom: int, n: nat) -> Screen
        decreases n,
    {
        if n == 0 {
            self
        } else {
            self.scroll_up_times(top, bottom, (n - 1) as nat).scroll_up(top, bottom, true)
        }
    }

    /// One line of reverse scrolling in the region `top..bottom`: the bottom
    /// line is lost, a blank line appears at the top.
    pub open spec fn scroll_down(self, top: int, bottom: int) -> Screen {
        if top >= bottom || bottom > self.rows {
            self
        } else {
            self.shift_down(top, bottom, 1)
        }
    }

    /// `n` successive reverse scrolls of the region `top..bottom`.
    pub open spec fn scroll_down_times(self, top: int, bottom: int, n: nat) -> Screen
        decreases n,
    {
        if n == 0 {
            self
        } else {
            self.scroll_down_times(top, bottom, (n - 1) as nat).scroll_down(top, bottom)
        }
    }

    /// How many lines a delete or insert of `count` lines at `row` moves,
    /// with the region ending at `bottom`.
    pub open spec fn line_count(row: int, count: int, bottom: int) -> int {
        if bottom > row {
            if count < bottom - row {
                count
            } else {
                bottom - row
            }
        } else {
            0
        }
    }

    /// Deleting `count` lines at `row`: lines below move up within
    /// `row..bottom`, blank lines fill in at the bottom, nothing reaches
    /// the scrollback.
    pub open spec fn delete_lines(self, row: int, count: int, bottom: int) -> Screen {
        let n = Screen::line_count(row, count, bottom);
        if n == 0 || bottom > self.rows {
            self
        } else {
            self.shift_up(row, bottom, n)
        }
    }

    /// Inserting `count` blank lines at `row`: lines move down within
    /// `row..bottom`, lines pushed past `bottom` are lost.
    pub open spec fn insert_lines(self, row: int, count: int, bottom: int) -> Screen {
        let n = Screen::line_count(row, count, bottom);
        if n == 0 || bottom > self.rows {
            self
        } else {
            self.shift_down(row, bottom, n)
        }
    }

    /// Cells `start..end` of `row` reset to blank, with `end` cut at the
    /// width and `start` cut at `end`. A row outside the grid changes nothing.
    pub open spec fn erase_cells(self, row: int, start: int, end: int) -> Screen {
        if row < 0 || row >= self.rows {
            self
        } else {
            let e = if end < self.cols {
                end
            } else {
                self.cols as int
            };
            let s = if start < e {
                start
            } else {
                e
            };
            self.with_line(
                row,
                Seq::new(
                    self.cols,
                    |j: int|
                        if s <= j < e {
                            blank_cell()
                        } else {
                            self.lines[row][j]
                        },
                ),
            )
        }
    }

    /// Every visible line blank; scrollback kept.
    pub open spec fn cleared(self) -> Screen {
        Screen { lines: Seq::new(self.rows, |_i: int| blank_line(self.cols)), ..self }
    }

    /// Scrollback emptied; visible lines kept.
    pub open spec fn without_scrollback(self) -> Screen {
        Screen { scrollback: Seq::empty(), ..self }
    }

    /// The screen resized to the clamped size: the overlap with the old
    /// content is kept (marked dirty), everything new is blank, the
    /// scrollback is untouched.
    pub open spec fn resized(self, cols: int, rows: int) -> Screen {
        let nc = clamp_dim(cols);
        let nr = clamp_dim(rows);
        Screen {
            cols: nc,
            rows: nr,
            lines: Seq::new(
                nr,
                |i: int|
                    Seq::new(
                        nc,
                        |j: int|
                            if i < self.rows && j < self.cols {
                                Cell { dirty: true, ..self.lines[i][j] }
                            } else {
                                blank_cell()
                            },
                    ),
            ),
            scrollback: self.scrollback,
        }
    }

    /// Every visible cell marked clean.
    pub open spec fn dirty_cleared(self) -> Screen {
        Screen {
            lines: Seq::new(
                self.rows,
                |i: int| Seq::new(self.cols, |j: int| Cell { dirty: false, ..self.lines[i][j] }),
            ),
            ..self
        }
    }
}

/// The terminal cell grid with scrollback.
pub struct Grid {
    /// Number of columns.
    cols: usize,
    /// Number of visible rows.
    rows: usize,
    /// The visible buffer: rows × cols.
    cells: Vec<Vec<Cell>>,
    /// Scrollback buffer (oldest first). VecDeque for O(1) pop_front.
    scrollback: VecDeque<Vec<Cell>>,
    /// Maximum scrollback lines.
    max_scrollback: usize,
}

impl View for Grid {
    type V = Screen;

    closed spec fn view(&self) -> Screen {
        Screen {
            cols: self.cols as nat,
            rows: self.rows as nat,
            lines: self.cells@.map_values(|r: Vec<Cell>| r@),
            scrollback: self.scrollback@.map_values(|r: Vec<Cell>| r@),
        }
    }
}

/// A fresh row of `n` blank cells.
fn blank_row(n: usize) -> (row: Vec<Cell>)
    ensures
        row@ == blank_line(n as nat),
{
    let mut row: Vec<Cell> = Vec::new();
    let mut j: usize = 0;
    while j < n
        invariant
            j <= n,
            row@ == blank_line(j as nat),
        decreases n - j,
    {
        row.push(Cell::default());
        j += 1;
        assert(row@ =~= blank_line(j as nat));
    }
    row
}

fn clamp_dimension(n: usize) -> (r: usize)
    ensures
        r as nat == clamp_dim(n as int),
{
    if n > MAX_DIMENSION {
        MAX_DIMENSION
    } else if n < 1 {
        1
    } else {
        n
    }
}


/// Resets cells `start..end` of a line to blank.
fn reset_cells(line: &mut Vec<Cell>, start: usize, end: usize)
    requires
        start <= end <= old(line)@.len(),
    ensures
        final(line)@ == Seq::new(
            old(line)@.len(),
            |k: int|
                if start <= k < end {
                    blank_cell()
                } else {
                    old(line)@[k]
                },
        ),
{
    let ghost before = line@;
    let mut k = start;
    while k < end
        invariant
            start <= k <= end,
            end <= before.len(),
            line@.len() == before.len(),
            forall|i: int|
                0 <= i < before.len() ==> (#[trigger] line@[i]) == if start <= i < k {
                    blank_cell()
                } else {
                    before[i]
                },
        decreases end - k,
    {
        line[k].reset();
        k += 1;
    }
    assert(line@ =~= Seq::new(
        before.len(),
        |i: int|
            if start <= i < end {
                blank_cell()
            } else {
                before[i]
            },
    ));
}

/// Sets the dirty flag of every cell of a line.
fn mark_line(line: &mut Vec<Cell>, dirty: bool)
    ensures
        final(line)@ == Seq::new(old(line)@.len(), |k: int| Cell { dirty: dirty, ..old(line)@[k] }),
{
    let ghost before = line@;
    let n = line.len();
    let mut k: usize = 0;
    while k < n
        invariant
            k <= n,
            n == before.len(),
            line@.len() == n,
            forall|i: int|
                0 <= i < n ==> (#[trigger] line@[i]) == if i < k {
                    Cell { dirty: dirty, ..before[i] }
                } else {
                    before[i]
                },
        decreases n - k,
    {
        line[k].dirty = dirty;
        k += 1;
    }
    assert(line@ =~= Seq::new(n as nat, |i: int| Cell { dirty: dirty, ..before[i] }));
}

/// Pads a line with blank cells or cuts it to exactly `n` cells.
fn fit_line(line: &mut Vec<Cell>, n: usize)
    ensures
        final(line)@ == Seq::new(
            n as nat,
            |k: int|
                if k < old(line)@.len() {
                    old(line)@[k]
                } else {
                    blank_cell()
                },
        ),
{
    let ghost before = line@;
    while line.len() < n
        invariant
            line@.len() >= before.len(),
            forall|i: int|
                0 <= i < line@.len() ==> (#[trigger] line@[i]) == if i < before.len() {
                    before[i]
                } else {
                    blank_cell()
                },
        decreases n - line@.len(),
    {
        line.push(Cell::default());
    }
    line.truncate(n);
    assert(line@ =~= Seq::new(
        n as nat,
        |k: int|
            if k < before.len() {
                before[k]
            } else {
                blank_cell()
            },
    ));
}

impl Grid {
    pub closed spec fn limits_ok(&self) -> bool {
        self.max_scrollback == MAX_SCROLLBACK
    }

    /// The grid is consistent: its content is a well-formed screen.
    pub open spec fn wf(&self) -> bool {
        self@.wf() && self.limits_ok()
    }

    pub fn new(cols: usize, rows: usize) -> (g: Self)
        ensures
            g.wf(),
            g@ == Screen::fresh(cols as int, rows as int),
    {
        proof {
            reveal(Screen::wf);
        }
        let cols = clamp_dimension(cols);
        let rows = clamp_dimension(rows);
        let mut cells: Vec<Vec<Cell>> = Vec::new();
        let mut i: usize = 0;
        while i < rows
            invariant
                i <= rows,
                cells@.len() == i,
                forall|k: int| 0 <= k < i ==> (#[trigger] cells@[k])@ == blank_line(cols as nat),
            decreases rows - i,
        {
            proof {
                reveal(Screen::wf);
            }
            cells.push(blank_row(cols));
            i += 1;
        }
        let g = Grid { cols, rows, cells, scrollback: VecDeque::new(), max_scrollback: 10_000 };
        assert(g@.lines =~= Screen::fresh(cols as int, rows as int).lines);
        assert(g@.scrollback =~= Seq::empty());
        g
    }

    pub fn cols(&self) -> (n: usize)
        ensures
            n as nat == self@.cols,
    {
        proof {
            reveal(Screen::wf);
        }
        self.cols
    }

    pub fn rows(&self) -> (n: usize)
        ensures
            n as nat == self@.rows,
    {
        proof {
            reveal(Screen::wf);
        }
        self.rows
    }

    /// Get a copy of a cell. Returns a clean blank cell for out-of-bounds.
    pub fn cell(&self, row: usize, col: usize) -> (c: Cell)
        ensures
            c == self@.cell(row as int, col as int),
    {
        proof {
            reveal(Screen::wf);
        }
        if row < self.cells.len() && col < self.cells[row].len() {
            self.cells[row][col]
        } else {
            let mut c = Cell::default();
            c.dirty = false;
            c
        }
    }

    /// Get a mutable reference to a cell. Returns None for out-of-bounds.
    pub fn cell_mut(&mut self, row: usize, col: usize) -> (r: Option<&mut Cell>)
        ensures
            old(self).wf() ==> ((r is Some) <==> (row < old(self)@.rows && col < old(self)@.cols)),
            match r {
                Some(c) => *c == old(self)@.lines[row as int][col as int],
                None => *final(self) == *old(self),
            },
            match r {
                Some(c) => final(self)@ =~~= old(self)@.with_cell(row as int, col as int, *final(c)),
                None => true,
            },
            match r {
                Some(c) => final(self).limits_ok() == old(self).limits_ok(),
                None => true,
            },
    {
        proof {
            reveal(Screen::wf);
        }
        proof {
            if self.wf() && row < self.rows && col < self.cols {
                assert(self.cells@[row as int]@ == self@.lines[row as int]);
            }
        }
        if row < self.cells.len() && col < self.cells[row].len() {
            proof {
                assert(self.cells@[row as int]@ == self@.lines[row as int]);
            }
            let r = &mut self.cells[row][col];
            Some(r)
        } else {
            None
        }
    }

    /// The row `row` as a slice; an empty slice outside the grid.
    pub fn row(&self, row: usize) -> (r: &[Cell])
        ensures
            r@ == (if row < self@.lines.len() {
                self@.lines[row as int]
            } else {
                Seq::<Cell>::empty()
            }),
    {
        proof {
            reveal(Screen::wf);
        }
        if row < self.cells.len() {
            self.cells[row].as_slice()
        } else {
            &[]
        }
    }

    /// Scroll the region [top, bottom) up by one line.
    /// If `to_scrollback` is true and top == 0, the top line goes to scrollback.
    pub fn scroll_up_inner(&mut self, top: usize, bottom: usize, to_scrollback: bool)
        requires
            old(self).wf(),
        ensures
            final(self).wf(),
            final(self)@ == old(self)@.scroll_up(top as int, bottom as int, to_scrollback),
    {
        proof {
            reveal(Screen::wf);
        }
        if top >= bottom || bottom > self.rows {
            return ;
        }
        let ghost old_view = self@;
        let line = self.cells.remove(top);
        if to_scrollback && top == 0 {
            self.scrollback.push_back(line);
            if self.scrollback.len() > self.max_scrollback {
                let _ = self.scrollback.pop_front();
            }
        }
        let blank = blank_row(self.cols);
        self.cells.insert(bottom - 1, blank);
        proof {
            assert(self@.lines =~= old_view.shift_up(top as int, bottom as int, 1).lines);
            if to_scrollback && top == 0 {
                assert(self@.scrollback =~= push_scrollback(old_view.scrollback, old_view.lines[0]));
            } else {
                assert(self@.scrollback =~= old_view.scrollback);
            }
        }
    }

    /// Scroll up with scrollback saving (normal scroll).
    pub fn scroll_up(&mut self, top: usize, bottom: usize)
        requires
            old(self).wf(),
        ensures
            final(self).wf(),
            final(self)@ == old(self)@.scroll_up(top as int, bottom as int, true),
    {
        proof {
            reveal(Screen::wf);
        }
        self.scroll_up_inner(top, bottom, true);
    }

    /// Scroll the region [top, bottom) down by one line.
    /// Bottom line is lost, top gets a blank line.
    pub fn scroll_down(&mut self, top: usize, bottom: usize)
        requires
            old(self).wf(),
        ensures
            final(self).wf(),
            final(self)@ == old(self)@.scroll_down(top as int, bottom as int),
    {
        proof {
            reveal(Screen::wf);
        }
        if top >= bottom || bottom > self.rows {
            return ;
        }
        let ghost old_view = self@;
        let _ = self.cells.remove(bottom - 1);
        let blank = blank_row(self.cols);
        self.cells.insert(top, blank);
        proof {
            assert(self@.lines =~= old_view.shift_down(top as int, bottom as int, 1).lines);
            assert(self@.scrollback =~= old_view.scrollback);
        }
    }

    /// Clear a single row to default cells.
    fn clear_row(&mut self, row: usize)
        requires
            old(self).wf(),
        ensures
            final(self).wf(),
            final(self)@ == (if row < old(self)@.rows {
                old(self)@.with_line(row as int, blank_line(old(self)@.cols))
            } else {
                old(self)@
            }),
    {
        proof {
            reveal(Screen::wf);
        }
        if row < self.cells.len() {
            let ghost old_view = self@;
            assert(self.cells@[row as int]@ == old_view.lines[row as int]);
            let mut line: Vec<Cell> = Vec::new();
            std::mem::swap(&mut line, &mut self.cells[row]);
            assert(line@ == old_view.lines[row as int]);
            let n = line.len();
            reset_cells(&mut line, 0, n);
            self.cells.set(row, line);
            proof {
                assert(self@.lines[row as int] =~= blank_line(old_view.cols));
                assert(self@.lines =~= old_view.with_line(row as int, blank_line(old_view.cols)).lines);
            }
        }
    }

    /// Clear all cells in the grid.
    pub fn clear(&mut self)
        requires
            old(self).wf(),
        ensures
            final(self).wf(),
            final(self)@ == old(self)@.cleared(),
    {
        proof {
            reveal(Screen::wf);
        }
        let ghost old_view = self@;
        let mut row: usize = 0;
        while row < self.rows
            invariant
                self.wf(),
                row <= self@.rows,
                self@.cols == old_view.cols,
                self@.rows == old_view.rows,
                self@.scrollback == old_view.scrollback,
                forall|i: int|
                    0 <= i < old_view.rows ==> (#[trigger] self@.lines[i]) == if i < row {
                        blank_line(old_view.cols)
                    } else {
                        old_view.lines[i]
                    },
            decreases old_view.rows - row,
        {
            proof {
                reveal(Screen::wf);
            }
            self.clear_row(row);
            row += 1;
        }
        proof {
            assert(self@.lines =~= old_view.cleared().lines);
        }
    }

    /// Resize the grid. Tries to preserve content.
    pub fn resize(&mut self, new_cols: usize, new_rows: usize)
        requires
            old(self).wf(),
        ensures
            final(self).wf(),
            final(self)@ == old(self)@.resized(new_cols as int, new_rows as int),
    {
        proof {
            reveal(Screen::wf);
        }
        let new_cols = clamp_dimension(new_cols);
        let new_rows = clamp_dimension(new_rows);
        let ghost old_view = self@;
        let ghost target = old_view.resized(new_cols as int, new_rows as int);

        // Adjust rows
        while self.cells.len() < new_rows
            invariant
                self.cells@.len() >= old_view.rows,
                self.cols == old_view.cols,
                self@.scrollback == old_view.scrollback,
                self.limits_ok(),
                forall|i: int|
                    0 <= i < self.cells@.len() ==> (#[trigger] self.cells@[i])@ == if i
                        < old_view.rows {
                        old_view.lines[i]
                    } else {
                        blank_line(old_view.cols)
                    },
            decreases new_rows - self.cells@.len(),
        {
            proof {
                reveal(Screen::wf);
            }
            let line = blank_row(self.cols);
            self.cells.push(line);
        }
        self.cells.truncate(new_rows);

        // Adjust columns in each row, marking everything dirty
        let mut r: usize = 0;
        while r < new_rows
            invariant
                r <= new_rows,
                self.cells@.len() == new_rows,
                self@.scrollback == old_view.scrollback,
                self.limits_ok(),
                new_rows as nat == target.rows,
                new_cols as nat == target.cols,
                old_view.wf(),
                target == old_view.resized(new_cols as int, new_rows as int),
                forall|i: int|
                    0 <= i < new_rows ==> (#[trigger] self.cells@[i])@ == if i < r {
                        target.lines[i]
                    } else if i < old_view.rows {
                        old_view.lines[i]
                    } else {
                        blank_line(old_view.cols)
                    },
            decreases new_rows - r,
        {
            proof {
                reveal(Screen::wf);
            }
            let mut line: Vec<Cell> = Vec::new();
            std::mem::swap(&mut line, &mut self.cells[r]);
            fit_line(&mut line, new_cols);
            mark_line(&mut line, true);
            self.cells.set(r, line);
            proof {
                assert(self.cells@[r as int]@ =~= target.lines[r as int]);
            }
            r += 1;
        }
        self.cols = new_cols;
        self.rows = new_rows;
        proof {
            assert(self@.lines =~= target.lines);
            assert(self@.scrollback =~= target.scrollback);
        }
    }

    /// Clear all dirty flags (call after rendering).
    pub fn clear_dirty(&mut self)
        requires
            old(self).wf(),
        ensures
            final(self).wf(),
            final(self)@ == old(self)@.dirty_cleared(),
    {
        proof {
            reveal(Screen::wf);
        }
        let ghost old_view = self@;
        let ghost target = old_view.dirty_cleared();
        let mut r: usize = 0;
        while r < self.rows
            invariant
                r <= old_view.rows,
                self.rows == old_view.rows,
                self.cols == old_view.cols,
                self.limits_ok(),
                self@.scrollback == old_view.scrollback,
                old_view.wf(),
                target == old_view.dirty_cleared(),
                self.cells@.len() == old_view.rows,
                forall|i: int|
                    0 <= i < old_view.rows ==> (#[trigger] self.cells@[i])@ == if i < r {
                        target.lines[i]
                    } else {
                        old_view.lines[i]
                    },
            decreases old_view.rows - r,
        {
            proof {
                reveal(Screen::wf);
            }
            let mut line: Vec<Cell> = Vec::new();
            std::mem::swap(&mut line, &mut self.cells[r]);
            mark_line(&mut line, false);
            self.cells.set(r, line);
            proof {
                assert(self.cells@[r as int]@ =~= target.lines[r as int]);
            }
            r += 1;
        }
        proof {
            assert(self@.lines =~= target.lines);
        }
    }

    /// Returns the number of scrollback lines.
    pub fn scrollback_len(&self) -> (n: usize)
        ensures
            n == self@.scrollback.len(),
    {
        proof {
            reveal(Screen::wf);
        }
        self.scrollback.len()
    }

    /// Get a scrollback line (0 = oldest).
    pub fn scrollback_line(&self, index: usize) -> (r: Option<&[Cell]>)
        ensures
            match r {
                Some(line) => index < self@.scrollback.len() && line@ == self@.scrollback[index as int],
                None => index >= self@.scrollback.len(),
            },
    {
        proof {
            reveal(Screen::wf);
        }
        if index < self.scrollback.len() {
            Some(self.scrollback[index].as_slice())
        } else {
            None
        }
    }

    /// Clear the scrollback buffer.
    pub fn clear_scrollback(&mut self)
        requires
            old(self).wf(),
        ensures
            final(self).wf(),
            final(self)@ == old(self)@.without_scrollback(),
    {
        proof {
            reveal(Screen::wf);
        }
        self.scrollback.clear();
        proof {
            assert(self@.scrollback =~= Seq::empty());
        }
    }

    /// Erase cells in a row from `start_col` to `end_col` (exclusive).
    pub fn erase_cells(&mut self, row: usize, start_col: usize, end_col: usize)
        requires
            old(self).wf(),
        ensures
            final(self).wf(),
            final(self)@ == old(self)@.erase_cells(row as int, start_col as int, end_col as int),
    {
        proof {
            reveal(Screen::wf);
        }
        if row >= self.rows {
            return ;
        }
        let ghost old_view = self@;
        let end = if end_col < self.cols {
            end_col
        } else {
            self.cols
        };
        let start = if start_col < end {
            start_col
        } else {
            end
        };
        assert(self.cells@[row as int]@ == old_view.lines[row as int]);
        let mut line: Vec<Cell> = Vec::new();
        std::mem::swap(&mut line, &mut self.cells[row]);
        assert(line@ == old_view.lines[row as int]);
        reset_cells(&mut line, start, end);
        self.cells.set(row, line);
        proof {
            let target = old_view.erase_cells(row as int, start_col as int, end_col as int);
            assert(self@.lines[row as int] =~= target.lines[row as int]);
            assert(self@.lines =~= target.lines);
        }
    }

    /// Delete `count` lines starting at `row`, shifting lines below up.
    /// New blank lines appear at `bottom - 1`. Does NOT save to scrollback.
    pub fn delete_lines(&mut self, row: usize, count: usize, bottom: usize)
        requires
            old(self).wf(),
        ensures
            final(self).wf(),
            final(self)@ == old(self)@.delete_lines(row as int, count as int, bottom as int),
            final(self)@.scrollback == old(self)@.scrollback,
    {
        proof {
            reveal(Screen::wf);
        }
        let ghost old_view = self@;
        let room = if bottom > row {
            bottom - row
        } else {
            0
        };
        let count = if count < room {
            count
        } else {
            room
        };
        let mut k: usize = 0;
        while k < count
            invariant
                self.wf(),
                k <= count,
                count == Screen::line_count(row as int, count as int, bottom as int),
                count <= room,
                room == (if bottom > row { bottom - row } else { 0 }),
                old_view.wf(),
                self@ == (if bottom > old_view.rows {
                    old_view
                } else {
                    old_view.shift_up(row as int, bottom as int, k as int)
                }),
            decreases count - k,
        {
            proof {
                reveal(Screen::wf);
            }
            if row < bottom {
                self.scroll_up_inner(row, bottom, false);
            }
            proof {
                if bottom <= old_view.rows {
                    assert(self@ =~~= old_view.shift_up(row as int, bottom as int, k + 1));
                }
            }
            k += 1;
        }
        proof {
            if count == 0 && bottom <= old_view.rows {
                assert(self@ =~~= old_view);
            }
        }
    }

    /// Insert `count` blank lines at `row`, shifting lines below down.
    /// Lines that fall off `bottom` are lost.
    pub fn insert_lines(&mut self, row: usize, count: usize, bottom: usize)
        requires
            old(self).wf(),
        ensures
            final(self).wf(),
            final(self)@ == old(self)@.insert_lines(row as int, count as int, bottom as int),
    {
        proof {
            reveal(Screen::wf);
        }
        let ghost old_view = self@;
        let room = if bottom > row {
            bottom - row
        } else {
            0
        };
        let count = if count < room {
            count
        } else {
            room
        };
        let mut k: usize = 0;
        while k < count
            invariant
                self.wf(),
                k <= count,
                count == Screen::line_count(row as int, count as int, bottom as int),
                count <= room,
                room == (if bottom > row { bottom - row } else { 0 }),
                old_view.wf(),
                self@ == (if bottom > old_view.rows {
                    old_view
                } else {
                    old_view.shift_down(row as int, bottom as int, k as int)
                }),
            decreases count - k,
        {
            proof {
                reveal(Screen::wf);
            }
            if row < bottom {
                self.scroll_down(row, bottom);
            }
            proof {
                if bottom <= old_view.rows {
                    assert(self@ =~~= old_view.shift_down(row as int, bottom as int, k + 1));
                }
            }
            k += 1;
        }
        proof {
            if count == 0 && bottom <= old_view.rows {
                assert(self@ =~~= old_view);
            }
        }
    }
}

} // verus!
