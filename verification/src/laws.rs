//! Properties of the terminal state machine that span several actions.
use vstd::prelude::*;

use crate::action::Action;
use crate::attr::{Attr, Color};
use crate::cursor::Cursor;
use crate::grid::{Screen, MAX_DIMENSION};
use crate::model::{repeat_count, sgr_code, title_text, TermView, MAX_TITLE_LEN};
use crate::text::decimal;
use crate::text::{lemma_utf8_prefix, utf8_lossy};
use vstd::utf8::{decode_utf8, decode_utf8_encode_utf8, encode_utf8, valid_utf8};

verus! {

/// Whether an action may change which grid is shown: a DEC private mode set
/// or reset (it may name 47, 1047 or 1049), or a full reset (`ESC c`).
pub open spec fn may_switch_screen(a: Action) -> bool {
    match a {
        Action::Csi { intermediates, action, .. } => intermediates@.len() > 0
            && intermediates@[0] == 0x3f && (action == 'h' || action == 'l'),
        Action::Esc { intermediates, action } => intermediates@.len() == 0 && action == 0x63,
        _ => false,
    }
}

/// Whether an action is a cursor save (`ESC 7`) or restore (`ESC 8`).
pub open spec fn saves_or_restores(a: Action) -> bool {
    match a {
        Action::Esc { intermediates, action } => intermediates@.len() == 0 && (action == 0x37
            || action == 0x38),
        _ => false,
    }
}

/// Processing actions in two batches is the same as processing them all
/// at once: the terminal keeps no state between batches but its own.
#[verifier::rlimit(40)]
pub proof fn lemma_run_append(t: TermView, a: Seq<Action>, b: Seq<Action>)
    ensures
        t.run(a + b) == t.run(a).run(b),
    decreases b.len(),
{
    if b.len() == 0 {
        assert(a + b =~= a);
    } else {
        assert((a + b).drop_last() =~= a + b.drop_last());
        assert((a + b).last() == b.last());
        lemma_run_append(t, a, b.drop_last());
    }
}

/// An action that does not switch screens leaves the hidden grid and the
/// alternate-screen flag alone; unless it saves or restores the cursor, it
/// also keeps the saved cursor.
pub proof fn lemma_step_keeps_hidden(t: TermView, a: Action)
    requires
        !may_switch_screen(a),
    ensures
        t.step(a).alt == t.alt,
        t.step(a).modes.alt_screen == t.modes.alt_screen,
        !saves_or_restores(a) ==> t.step(a).cursor.saved == t.cursor.saved,
{
    reveal(TermView::step);
    match a {
        Action::Csi { params, intermediates, action } => {
            lemma_csi_keeps_hidden(t, params@, intermediates@, action);
        },
        Action::Print(c) => {
            lemma_print_keeps_hidden(t, c);
        },
        Action::Execute(b) => {
            lemma_execute_keeps_hidden(t, b);
        },
        Action::Esc { intermediates, action } => {
            lemma_esc_keeps_hidden(t, intermediates@, action);
        },
        Action::Osc(params) => {},
        Action::Dcs { .. } => {},
    }
}

proof fn lemma_print_keeps_hidden(t: TermView, c: char)
    ensures
        t.print(c).alt == t.alt,
        t.print(c).modes.alt_screen == t.modes.alt_screen,
        t.print(c).cursor.saved == t.cursor.saved,
{
}

proof fn lemma_execute_keeps_hidden(t: TermView, b: u8)
    ensures
        t.execute(b).alt == t.alt,
        t.execute(b).modes.alt_screen == t.modes.alt_screen,
        t.execute(b).cursor.saved == t.cursor.saved,
{
}

proof fn lemma_esc_keeps_hidden(t: TermView, inter: Seq<u8>, action: u8)
    requires
        !(inter.len() == 0 && action == 0x63),
    ensures
        t.esc(inter, action).alt == t.alt,
        t.esc(inter, action).modes.alt_screen == t.modes.alt_screen,
        !(inter.len() == 0 && (action == 0x37 || action == 0x38)) ==> t.esc(inter, action).cursor.saved
            == t.cursor.saved,
{
}

proof fn lemma_csi_keeps_hidden(t: TermView, ps: Seq<Vec<u16>>, inter: Seq<u8>, action: char)
    requires
        !(inter.len() > 0 && inter[0] == 0x3f && (action == 'h' || action == 'l')),
    ensures
        t.csi(ps, inter, action).alt == t.alt,
        t.csi(ps, inter, action).modes.alt_screen == t.modes.alt_screen,
        t.csi(ps, inter, action).cursor.saved == t.cursor.saved,
{
    if inter.len() > 0 && inter[0] == 0x3e {
    } else if inter.len() > 0 && inter[0] == 0x3f {
    } else {
        lemma_csi_plain_keeps_hidden(t, ps, inter, action);
    }
}

#[verifier::rlimit(40)]
proof fn lemma_csi_plain_keeps_hidden(t: TermView, ps: Seq<Vec<u16>>, inter: Seq<u8>, action: char)
    ensures
        t.csi_plain(ps, inter, action).alt == t.alt,
        t.csi_plain(ps, inter, action).modes.alt_screen == t.modes.alt_screen,
        t.csi_plain(ps, inter, action).cursor.saved == t.cursor.saved,
{
}

/// The hidden grid, the alternate-screen flag and the saved cursor survive
/// any run of actions that neither switches screens nor saves or restores
/// the cursor.
pub proof fn lemma_run_keeps_hidden(t: TermView, actions: Seq<Action>)
    requires
        forall|i: int|
            0 <= i < actions.len() ==> !may_switch_screen(#[trigger] actions[i])
                && !saves_or_restores(actions[i]),
    ensures
        t.run(actions).alt == t.alt,
        t.run(actions).modes.alt_screen == t.modes.alt_screen,
        t.run(actions).cursor.saved == t.cursor.saved,
    decreases actions.len(),
{
    if actions.len() > 0 {
        let last = actions.last();
        assert(!may_switch_screen(actions[actions.len() - 1]));
        lemma_run_keeps_hidden(t, actions.drop_last());
        lemma_step_keeps_hidden(t.run(actions.drop_last()), last);
    }
}

/// Entering the alternate screen (`CSI ? 1049 h`), doing anything there that
/// neither switches screens nor saves or restores the cursor, and leaving it
/// (`CSI ? 1049 l`) brings back the primary screen exactly as it was, with
/// the cursor where it was and its attributes.
pub proof fn lemma_alt_screen_round_trip(t: TermView, mid: Seq<Action>)
    requires
        t.wf(),
        !t.modes.alt_screen,
        forall|i: int|
            0 <= i < mid.len() ==> !may_switch_screen(#[trigger] mid[i]) && !saves_or_restores(
                mid[i],
            ),
    ensures
        ({
            let back = t.dec_set_one(1049).run(mid).dec_reset_one(1049);
            &&& back.screen == t.screen
            &&& back.cursor.row == t.cursor.row
            &&& back.cursor.col == t.cursor.col
            &&& back.cursor.attr == t.cursor.attr
            &&& !back.modes.alt_screen
        }),
{
    let inside = t.dec_set_one(1049);
    assert(inside.alt == t.screen);
    assert(inside.modes.alt_screen);
    assert(inside.cursor.saved == Some(
        crate::cursor::SavedCursor { col: t.cursor.col, row: t.cursor.row, attr: t.cursor.attr },
    ));
    lemma_run_keeps_hidden(inside, mid);
}

/// The title an OSC command sets is at most `MAX_TITLE_LEN` bytes of UTF-8,
/// and when the (capped) bytes given are valid UTF-8 it is exactly their text.
pub proof fn lemma_title_text(raw: Seq<u8>)
    ensures
        encode_utf8(title_text(raw)).len() <= MAX_TITLE_LEN,
        ({
            let capped = raw.take(if raw.len() < MAX_TITLE_LEN { raw.len() as int } else { MAX_TITLE_LEN as int });
            valid_utf8(capped) ==> title_text(raw) == decode_utf8(capped)
        }),
        raw.len() <= MAX_TITLE_LEN && valid_utf8(raw) ==> title_text(raw) == decode_utf8(raw),
{
    let capped = raw.take(if raw.len() < MAX_TITLE_LEN { raw.len() as int } else { MAX_TITLE_LEN as int });
    let text = if valid_utf8(capped) {
        decode_utf8(capped)
    } else {
        utf8_lossy(capped)
    };
    if valid_utf8(capped) {
        // the decoded text encodes back to the capped bytes, so it fits whole
        decode_utf8_encode_utf8(capped);
    }
    lemma_utf8_prefix(text, MAX_TITLE_LEN as int);
    if raw.len() <= MAX_TITLE_LEN {
        assert(capped =~= raw);
    }
}

/// Both grids have one size, within the bounds.
pub open spec fn size_ok(t: TermView) -> bool {
    &&& 1 <= t.screen.cols <= MAX_DIMENSION
    &&& 1 <= t.screen.rows <= MAX_DIMENSION
    &&& t.alt.cols == t.screen.cols
    &&& t.alt.rows == t.screen.rows
}

proof fn lemma_scroll_times_keep_size(s: Screen, top: int, bottom: int, n: nat)
    ensures
        s.scroll_up_times(top, bottom, n).cols == s.cols,
        s.scroll_up_times(top, bottom, n).rows == s.rows,
        s.scroll_down_times(top, bottom, n).cols == s.cols,
        s.scroll_down_times(top, bottom, n).rows == s.rows,
    decreases n,
{
    if n > 0 {
        lemma_scroll_times_keep_size(s, top, bottom, (n - 1) as nat);
    }
}

proof fn lemma_dec_keeps_size(t: TermView, ps: Seq<Vec<u16>>, n: int)
    requires
        size_ok(t),
    ensures
        size_ok(t.dec_set_upto(ps, n)),
        t.dec_set_upto(ps, n).screen.cols == t.screen.cols,
        t.dec_set_upto(ps, n).screen.rows == t.screen.rows,
        size_ok(t.dec_reset_upto(ps, n)),
        t.dec_reset_upto(ps, n).screen.cols == t.screen.cols,
        t.dec_reset_upto(ps, n).screen.rows == t.screen.rows,
    decreases n,
{
    if n > 0 {
        lemma_dec_keeps_size(t, ps, n - 1);
    }
}

proof fn lemma_csi_plain_keeps_size(t: TermView, ps: Seq<Vec<u16>>, inter: Seq<u8>, action: char)
    ensures
        t.csi_plain(ps, inter, action).screen.cols == t.screen.cols,
        t.csi_plain(ps, inter, action).screen.rows == t.screen.rows,
        t.csi_plain(ps, inter, action).alt == t.alt,
{
    lemma_scroll_times_keep_size(t.screen, t.scroll_top as int, t.scroll_bottom as int, repeat_count(ps) as nat);
    lemma_csi_plain_keeps_hidden(t, ps, inter, action);
}

proof fn lemma_print_keeps_size(t: TermView, c: char)
    ensures
        t.print(c).screen.cols == t.screen.cols,
        t.print(c).screen.rows == t.screen.rows,
{
}

/// Every action keeps the size of both grids.
pub proof fn lemma_step_keeps_size(t: TermView, a: Action)
    requires
        size_ok(t),
    ensures
        size_ok(t.step(a)),
        t.step(a).screen.cols == t.screen.cols,
        t.step(a).screen.rows == t.screen.rows,
{
    reveal(TermView::step);
    match a {
        Action::Csi { params, intermediates, action } => {
            let ps = params@;
            let inter = intermediates@;
            if inter.len() > 0 && inter[0] == 0x3e {
            } else if inter.len() > 0 && inter[0] == 0x3f {
                lemma_dec_keeps_size(t, ps, ps.len() as int);
            } else {
                lemma_csi_plain_keeps_size(t, ps, inter, action);
            }
        },
        Action::Print(c) => {
            lemma_print_keeps_hidden(t, c);
            lemma_print_keeps_size(t, c);
        },
        Action::Execute(b) => {
            lemma_execute_keeps_hidden(t, b);
        },
        Action::Esc { intermediates, action } => {},
        Action::Osc(params) => {},
        Action::Dcs { .. } => {},
    }
}

/// Processing any actions keeps the number of rows and columns.
pub proof fn lemma_run_keeps_size(t: TermView, actions: Seq<Action>)
    requires
        size_ok(t),
    ensures
        size_ok(t.run(actions)),
        t.run(actions).screen.cols == t.screen.cols,
        t.run(actions).screen.rows == t.screen.rows,
    decreases actions.len(),
{
    if actions.len() > 0 {
        lemma_run_keeps_size(t, actions.drop_last());
        lemma_step_keeps_size(t.run(actions.drop_last()), actions.last());
    }
}

/// From a well-formed state, processing any actions keeps the number of
/// rows and columns.
pub proof fn lemma_run_keeps_grid_size(t: TermView, actions: Seq<Action>)
    requires
        t.wf(),
    ensures
        t.run(actions).screen.cols == t.screen.cols,
        t.run(actions).screen.rows == t.screen.rows,
{
    reveal(Screen::wf);
    lemma_run_keeps_size(t, actions);
}

/// Backspace (0x08) moves the cursor one column left on the same row and
/// clears a pending wrap; in the first column it does nothing. The grid
/// content is untouched either way.
pub proof fn lemma_backspace(t: TermView)
    ensures
        t.cursor.col > 0 ==> {
            let b = t.execute(0x08);
            &&& b.cursor.col == t.cursor.col - 1
            &&& b.cursor.row == t.cursor.row
            &&& !b.wrap_pending
            &&& b.screen == t.screen
        },
        t.cursor.col == 0 ==> t.execute(0x08) == t,
{
}

/// Carriage return (0x0D) moves the cursor to the first column of its row,
/// clears a pending wrap and leaves the grid content alone.
pub proof fn lemma_carriage_return(t: TermView)
    ensures
        t.execute(0x0D).cursor.col == 0,
        t.execute(0x0D).cursor.row == t.cursor.row,
        !t.execute(0x0D).wrap_pending,
        t.execute(0x0D).screen == t.screen,
{
}

/// Line feed (0x0A, and 0x0B, 0x0C) keeps the column; it moves the cursor
/// down a row, or, on the last row of the scroll region, keeps the row and
/// scrolls the region instead.
pub proof fn lemma_line_feed(t: TermView, byte: u8)
    requires
        t.wf(),
        byte == 0x0A || byte == 0x0B || byte == 0x0C,
    ensures
        t.execute(byte).cursor.col == t.cursor.col,
        !t.execute(byte).wrap_pending,
        t.cursor.row + 1 < t.scroll_bottom ==> t.execute(byte).cursor.row == t.cursor.row + 1
            && t.execute(byte).screen == t.screen,
        t.cursor.row + 1 >= t.scroll_bottom ==> t.execute(byte).cursor.row == t.cursor.row,
{
    reveal(Screen::wf);
}

/// A horizontal tab (0x09) keeps the row and the grid content, never moves
/// the cursor left, and moves it right whenever it is not in the last column.
pub proof fn lemma_tab(t: TermView)
    requires
        t.wf(),
    ensures
        t.execute(0x09).cursor.row == t.cursor.row,
        t.execute(0x09).screen == t.screen,
        t.cursor.col <= t.execute(0x09).cursor.col < t.screen.cols,
        t.cursor.col + 1 < t.screen.cols ==> t.cursor.col < t.execute(0x09).cursor.col,
{
    reveal(Screen::wf);
    lemma_next_tab_stop_bounds(t.tabs, t.cursor.col + 1, t.screen.cols as int);
}

proof fn lemma_next_tab_stop_bounds(tabs: Seq<bool>, c: int, cols: int)
    ensures
        c <= crate::model::next_tab_stop(tabs, c, cols),
        c <= cols ==> crate::model::next_tab_stop(tabs, c, cols) <= cols,
    decreases cols - c,
{
    if c < cols && !(0 <= c < tabs.len() && tabs[c]) {
        lemma_next_tab_stop_bounds(tabs, c + 1, cols);
    }
}

/// Other C0 control codes (bell, shift in/out and the rest) change nothing.
pub proof fn lemma_other_controls(t: TermView, byte: u8)
    requires
        byte < 0x08 || byte > 0x0D,
    ensures
        t.execute(byte) == t,
{
}

/// SGR colors: 30–37 and 40–47 pick ANSI color `k` for the foreground and
/// background, 90–97 and 100–107 the bright color `k + 8`; 39 and 49 go back
/// to the default color. Nothing else of the attributes changes.
pub proof fn lemma_sgr_colors(a: Attr, k: u16)
    requires
        k < 8,
    ensures
        sgr_code(a, (30 + k) as u16) == (Attr { fg: Color::Indexed(k as u8), ..a }),
        sgr_code(a, (40 + k) as u16) == (Attr { bg: Color::Indexed(k as u8), ..a }),
        sgr_code(a, (90 + k) as u16) == (Attr { fg: Color::Indexed((k + 8) as u8), ..a }),
        sgr_code(a, (100 + k) as u16) == (Attr { bg: Color::Indexed((k + 8) as u8), ..a }),
        sgr_code(a, 39) == (Attr { fg: Color::Default, ..a }),
        sgr_code(a, 49) == (Attr { bg: Color::Default, ..a }),
{
}

/// SGR 0 resets every attribute; each style code turns its attribute on,
/// and its partner 20 higher turns it off again (22 clears bold and dim),
/// leaving the others as they were.
pub proof fn lemma_sgr_styles(a: Attr)
    ensures
        sgr_code(a, 0) == (Attr {
            fg: Color::Default,
            bg: Color::Default,
            bold: false,
            dim: false,
            italic: false,
            underline: false,
            blink: false,
            inverse: false,
            hidden: false,
            strikethrough: false,
        }),
        sgr_code(a, 1) == (Attr { bold: true, ..a }),
        sgr_code(a, 2) == (Attr { dim: true, ..a }),
        sgr_code(a, 3) == (Attr { italic: true, ..a }),
        sgr_code(a, 4) == (Attr { underline: true, ..a }),
        sgr_code(a, 5) == (Attr { blink: true, ..a }),
        sgr_code(a, 7) == (Attr { inverse: true, ..a }),
        sgr_code(a, 8) == (Attr { hidden: true, ..a }),
        sgr_code(a, 9) == (Attr { strikethrough: true, ..a }),
        sgr_code(a, 22) == (Attr { bold: false, dim: false, ..a }),
        sgr_code(a, 23) == (Attr { italic: false, ..a }),
        sgr_code(a, 24) == (Attr { underline: false, ..a }),
        sgr_code(a, 25) == (Attr { blink: false, ..a }),
        sgr_code(a, 27) == (Attr { inverse: false, ..a }),
        sgr_code(a, 28) == (Attr { hidden: false, ..a }),
        sgr_code(a, 29) == (Attr { strikethrough: false, ..a }),
{
}

/// Cursor position (`CSI r ; c H`, also `f`) puts the cursor on row `r`,
/// column `c`, counted from one, when that is on the grid; the grid content
/// is untouched.
pub proof fn lemma_cursor_position(t: TermView, ps: Seq<Vec<u16>>, r: u16, c: u16, action: char)
    requires
        t.wf(),
        action == 'H' || action == 'f',
        ps.len() == 2,
        ps[0]@ == seq![r],
        ps[1]@ == seq![c],
        1 <= r <= t.screen.rows,
        1 <= c <= t.screen.cols,
    ensures
        t.csi(ps, Seq::empty(), action).cursor.row == r - 1,
        t.csi(ps, Seq::empty(), action).cursor.col == c - 1,
        t.csi(ps, Seq::empty(), action).screen == t.screen,
{
}

/// Cursor up and down by `n` (`CSI n A`, `CSI n B`) move along the column,
/// stopping at the first and last row; left and right (`CSI n D`, `CSI n C`)
/// move along the row, stopping at the first and last column.
pub proof fn lemma_cursor_moves(t: TermView, ps: Seq<Vec<u16>>, n: u16)
    requires
        t.wf(),
        ps.len() == 1,
        ps[0]@ == seq![n],
        1 <= n,
    ensures
        t.csi(ps, Seq::empty(), 'A').cursor.row == if t.cursor.row >= n {
            t.cursor.row - n
        } else {
            0
        },
        t.csi(ps, Seq::empty(), 'B').cursor.row == if t.cursor.row + n < t.screen.rows {
            t.cursor.row + n
        } else {
            t.screen.rows - 1
        },
        t.csi(ps, Seq::empty(), 'D').cursor.col == if t.cursor.col >= n {
            t.cursor.col - n
        } else {
            0
        },
        t.csi(ps, Seq::empty(), 'C').cursor.col == if t.cursor.col + n < t.screen.cols {
            t.cursor.col + n
        } else {
            t.screen.cols - 1
        },
        t.csi(ps, Seq::empty(), 'A').cursor.col == t.cursor.col,
        t.csi(ps, Seq::empty(), 'B').cursor.col == t.cursor.col,
        t.csi(ps, Seq::empty(), 'C').cursor.row == t.cursor.row,
        t.csi(ps, Seq::empty(), 'D').cursor.row == t.cursor.row,
{
    reveal(Screen::wf);
}

/// Queries are answered by appending one reply to the queue: primary device
/// attributes (`CSI c`) with `ESC [ ? 6 2 ; 2 2 c`, a status request
/// (`CSI 5 n`) with `ESC [ 0 n`, and a position request (`CSI 6 n`) with
/// `ESC [ row ; col R`, counted from one.
pub proof fn lemma_query_replies(t: TermView, ps: Seq<Vec<u16>>, q: u16)
    requires
        ps.len() == 1,
        ps[0]@ == seq![q],
    ensures
        t.csi(Seq::empty(), Seq::empty(), 'c').responses == t.responses.push(
            seq![0x1bu8, 0x5b, 0x3f, 0x36, 0x32, 0x3b, 0x32, 0x32, 0x63],
        ),
        q == 5 ==> t.csi(ps, Seq::empty(), 'n').responses == t.responses.push(
            seq![0x1bu8, 0x5b, 0x30, 0x6e],
        ),
        q == 6 ==> t.csi(ps, Seq::empty(), 'n').responses == t.responses.push(
            seq![0x1bu8, 0x5b] + decimal((t.cursor.row + 1) as nat) + seq![0x3bu8] + decimal(
                (t.cursor.col + 1) as nat,
            ) + seq![0x52u8],
        ),
{
}

} // verus!
