//! What the browser front end computes from the terminal state: reply and
//! key text, grid dumps, selected text, the URL under the pointer, search
//! results as JSON, the scroll viewport, and per-cell drawing choices.
use vstd::prelude::*;

use crate::attr::{Attr, Color};
use crate::cell::Cell;
use crate::grid::Screen;
use crate::keymap::{encode_key, key_bytes};
use crate::links::{detect_urls, link_spans};
use crate::search::{line_chars, SearchMatch};
use crate::selection::{selection_range, Selection};
use crate::term::Terminal;
use crate::text::{chars_to_string, push_decimal, push_signed_decimal, decimal, signed_decimal};

verus! {

/// Bytes read as Latin-1 text: each byte becomes the character of that code.
pub open spec fn latin1(bytes: Seq<u8>) -> Seq<char> {
    Seq::new(bytes.len(), |i: int| bytes[i] as char)
}

/// All replies, concatenated in order.
pub open spec fn concat_replies(rs: Seq<Seq<u8>>) -> Seq<u8>
    decreases rs.len(),
{
    if rs.len() == 0 {
        Seq::empty()
    } else {
        concat_replies(rs.drop_last()) + rs.last()
    }
}

/// Bytes as text, one character per byte.
pub fn bytes_to_text(bytes: &[u8]) -> (s: String)
    ensures
        s@ == latin1(bytes@),
{
    let mut chars: Vec<char> = Vec::new();
    let mut i: usize = 0;
    while i < bytes.len()
        invariant
            i <= bytes@.len(),
            chars@ == latin1(bytes@.take(i as int)),
        decreases bytes@.len() - i,
    {
        chars.push(bytes[i] as char);
        i += 1;
        assert(chars@ =~= latin1(bytes@.take(i as int)));
    }
    assert(bytes@.take(i as int) =~= bytes@);
    chars_to_string(chars.as_slice())
}

/// Collect queued terminal replies into one string, or nothing when none
/// were queued.
pub fn replies_text(replies: &[Vec<u8>]) -> (s: Option<String>)
    ensures
        match s {
            None => replies@.len() == 0,
            Some(t) => replies@.len() > 0 && t@ == latin1(
                concat_replies(replies@.map_values(|r: Vec<u8>| r@)),
            ),
        },
{
    if replies.len() == 0 {
        return None;
    }
    let ghost rs = replies@.map_values(|r: Vec<u8>| r@);
    let mut combined: Vec<u8> = Vec::new();
    let mut i: usize = 0;
    while i < replies.len()
        invariant
            i <= replies@.len(),
            rs == replies@.map_values(|r: Vec<u8>| r@),
            combined@ == concat_replies(rs.take(i as int)),
        decreases replies@.len() - i,
    {
        let mut j: usize = 0;
        let ghost before = combined@;
        while j < replies[i].len()
            invariant
                i < replies@.len(),
                j <= replies@[i as int]@.len(),
                combined@ == before + replies@[i as int]@.take(j as int),
            decreases replies@[i as int]@.len() - j,
        {
            combined.push(replies[i][j]);
            j += 1;
            assert(combined@ =~= before + replies@[i as int]@.take(j as int));
        }
        assert(replies@[i as int]@.take(j as int) =~= replies@[i as int]@);
        assert(rs.take(i + 1).drop_last() =~= rs.take(i as int));
        i += 1;
    }
    assert(rs.take(i as int) =~= rs);
    Some(bytes_to_text(combined.as_slice()))
}

/// Unicode White_Space, as `char::is_whitespace` and `str::trim_end` use it.
pub open spec fn is_whitespace(c: char) -> bool {
    ('\u{9}' <= c && c <= '\u{d}') || c == ' ' || c == '\u{85}' || c == '\u{a0}' || c
        == '\u{1680}' || ('\u{2000}' <= c && c <= '\u{200a}') || c == '\u{2028}' || c
        == '\u{2029}' || c == '\u{202f}' || c == '\u{205f}' || c == '\u{3000}'
}

/// `t` without its trailing whitespace.
pub open spec fn trim_whitespace_end(t: Seq<char>) -> Seq<char>
    decreases t.len(),
{
    if t.len() > 0 && is_whitespace(t.last()) {
        trim_whitespace_end(t.drop_last())
    } else {
        t
    }
}

/// `t` without its trailing spaces.
pub open spec fn trim_spaces_end(t: Seq<char>) -> Seq<char>
    decreases t.len(),
{
    if t.len() > 0 && t.last() == ' ' {
        trim_spaces_end(t.drop_last())
    } else {
        t
    }
}

/// A visible row as text: NUL shown as a space.
pub open spec fn dump_row(s: Screen, row: int) -> Seq<char> {
    Seq::new(s.cols, |j: int| if s.cell(row, j).c == '\0' { ' ' } else { s.cell(row, j).c })
}

/// The dump of the first `n` rows: each row appended, then all trailing
/// whitespace of the text so far removed, then a newline.
pub open spec fn dump_rows(s: Screen, n: int) -> Seq<char>
    decreases n,
{
    if n <= 0 {
        Seq::empty()
    } else {
        trim_whitespace_end(dump_rows(s, n - 1) + dump_row(s, n - 1)).push('\n')
    }
}

fn whitespace(c: char) -> (b: bool)
    ensures
        b == is_whitespace(c),
{
    ('\u{9}' <= c && c <= '\u{d}') || c == ' ' || c == '\u{85}' || c == '\u{a0}' || c
        == '\u{1680}' || ('\u{2000}' <= c && c <= '\u{200a}') || c == '\u{2028}' || c
        == '\u{2029}' || c == '\u{202f}' || c == '\u{205f}' || c == '\u{3000}'
}

fn trim_end_whitespace(out: &mut Vec<char>)
    ensures
        final(out)@ == trim_whitespace_end(old(out)@),
    decreases old(out)@.len(),
{
    if out.len() > 0 && whitespace(out[out.len() - 1]) {
        let _ = out.pop();
        assert(out@ =~= old(out)@.drop_last());
        trim_end_whitespace(out);
    }
}

fn trim_end_spaces(out: &mut Vec<char>)
    ensures
        final(out)@ == trim_spaces_end(old(out)@),
    decreases old(out)@.len(),
{
    if out.len() > 0 && out[out.len() - 1] == ' ' {
        let _ = out.pop();
        assert(out@ =~= old(out)@.drop_last());
        trim_end_spaces(out);
    }
}

/// Dump the grid content as text lines (for debugging and tests).
pub fn dump_text(term: &Terminal) -> (s: String)
    ensures
        s@ == dump_rows(term@.screen, term@.screen.rows as int),
{
    let grid = term.grid();
    let rows = term.rows();
    let cols = term.cols();
    let ghost s = term@.screen;
    let mut out: Vec<char> = Vec::new();
    let mut r: usize = 0;
    while r < rows
        invariant
            r <= rows,
            rows == s.rows,
            cols == s.cols,
            grid@ == s,
            out@ == dump_rows(s, r as int),
        decreases rows - r,
    {
        let ghost before = out@;
        let mut c: usize = 0;
        while c < cols
            invariant
                c <= cols,
                cols == s.cols,
                grid@ == s,
                out@ == before + dump_row(s, r as int).take(c as int),
            decreases cols - c,
        {
            let cell = grid.cell(r, c);
            let ch = if cell.c == '\0' {
                ' '
            } else {
                cell.c
            };
            out.push(ch);
            c += 1;
            assert(out@ =~= before + dump_row(s, r as int).take(c as int));
        }
        assert(dump_row(s, r as int).take(c as int) =~= dump_row(s, r as int));
        // Trim trailing whitespace
        trim_end_whitespace(&mut out);
        out.push('\n');
        r += 1;
    }
    chars_to_string(out.as_slice())
}

/// The characters of cells `from..to` of a row, skipping the spacer
/// cells (width 0) that follow wide characters.
pub open spec fn row_segment(s: Screen, row: int, from: int, to: int) -> Seq<char>
    decreases to - from,
{
    if to <= from {
        Seq::empty()
    } else {
        let c = s.cell(row, to - 1);
        row_segment(s, row, from, to - 1) + if c.width > 0 {
            seq![c.c]
        } else {
            Seq::empty()
        }
    }
}

/// The selected text up to and including `row` of the range
/// `(sr, sc)..(er, ec)`: each row's segment appended, trailing spaces
/// removed, and a newline between rows.
pub open spec fn selected_upto(
    s: Screen,
    sr: int,
    sc: int,
    er: int,
    ec: int,
    row: int,
) -> Seq<char>
    decreases row - sr,
{
    let prev = if row <= sr {
        Seq::empty()
    } else {
        selected_upto(s, sr, sc, er, ec, row - 1)
    };
    let from = if row == sr {
        sc
    } else {
        0
    };
    let to = if row == er {
        ec
    } else {
        s.cols as int
    };
    let t = trim_spaces_end(prev + row_segment(s, row, from, to));
    if row < er {
        t.push('\n')
    } else {
        t
    }
}

/// The text of a selection: nothing when no selection is active or the
/// text is empty.
pub open spec fn selected_text(s: Screen, range: Option<(usize, usize, usize, usize)>) -> Option<
    Seq<char>,
> {
    match range {
        Some((sr, sc, er, ec)) => {
            let t = selected_upto(s, sr as int, sc as int, er as int, ec as int, er as int);
            if t.len() == 0 {
                None
            } else {
                Some(t)
            }
        },
        None => None,
    }
}

/// Get the selected text content.
pub fn selection_text(term: &Terminal, selection: &Selection) -> (text: Option<String>)
    ensures
        match text {
            Some(t) => selected_text(term@.screen, selection_range(selection@.0, selection@.1))
                == Some(t@),
            None => selected_text(
                term@.screen,
                selection_range(selection@.0, selection@.1),
            ) is None,
        },
{
    let (sr, sc, er, ec) = match selection.range() {
        Some(r) => r,
        None => return None,
    };
    let grid = term.grid();
    let cols = term.cols();
    let ghost s = term@.screen;
    let mut text: Vec<char> = Vec::new();
    let mut row = sr;
    loop
        invariant_except_break
            sr <= row <= er,
            text@ == (if row == sr {
                Seq::empty()
            } else {
                selected_upto(s, sr as int, sc as int, er as int, ec as int, row - 1)
            }),
        invariant
            grid@ == s,
            cols == s.cols,
        ensures
            text@ == selected_upto(s, sr as int, sc as int, er as int, ec as int, er as int),
        decreases er - row,
    {
        let start_col = if row == sr {
            sc
        } else {
            0
        };
        let end_col = if row == er {
            ec
        } else {
            cols
        };
        let ghost before = text@;
        let mut col = start_col;
        while col < end_col
            invariant
                start_col <= col <= end_col || (end_col < start_col && col == start_col),
                grid@ == s,
                text@ == before + row_segment(s, row as int, start_col as int, col as int),
            decreases end_col - col,
        {
            let cell = grid.cell(row, col);
            if cell.width > 0 {
                text.push(cell.c);
            }
            col += 1;
            assert(text@ =~= before + row_segment(s, row as int, start_col as int, col as int));
        }
        proof {
            if end_col < start_col {
                assert(row_segment(s, row as int, start_col as int, end_col as int)
                    =~= Seq::<char>::empty());
                assert(row_segment(s, row as int, start_col as int, col as int)
                    =~= Seq::<char>::empty());
            }
        }
        // Trim trailing spaces on each line
        trim_end_spaces(&mut text);
        if row < er {
            text.push('\n');
        }
        if row == er {
            break;
        }
        row += 1;
    }
    if text.len() == 0 {
        None
    } else {
        Some(chars_to_string(text.as_slice()))
    }
}

/// The first link span of `chars` that covers column `col`.
pub open spec fn span_at(spans: Seq<(int, int)>, col: int) -> Option<(int, int)>
    decreases spans.len(),
{
    if spans.len() == 0 {
        None
    } else if spans[0].0 <= col < spans[0].1 {
        Some(spans[0])
    } else {
        span_at(spans.drop_first(), col)
    }
}

/// The URL under grid position `(row, col)`, if any.
pub fn url_at(term: &Terminal, row: usize, col: usize) -> (url: Option<String>)
    ensures
        ({
            let chars = line_chars_of(term@.screen, row as int);
            match url {
                Some(u) => span_at(link_spans(chars, 0), col as int) matches Some((s, e))
                    && u@ == chars.subrange(s, e),
                None => span_at(link_spans(chars, 0), col as int) is None,
            }
        }),
{
    let grid = term.grid();
    let cols = term.cols();
    let ghost s = term@.screen;
    let mut chars: Vec<char> = Vec::new();
    let mut c: usize = 0;
    while c < cols
        invariant
            c <= cols,
            cols == s.cols,
            grid@ == s,
            chars@ == line_chars_of(s, row as int).take(c as int),
        decreases cols - c,
    {
        chars.push(grid.cell(row, c).c);
        c += 1;
        assert(chars@ =~= line_chars_of(s, row as int).take(c as int));
    }
    assert(chars@ =~= line_chars_of(s, row as int));
    let row_links = detect_urls(row, chars.as_slice());
    let ghost spans = link_spans(chars@, 0);
    assert(spans.subrange(0, spans.len() as int) =~= spans);
    let mut i: usize = 0;
    while i < row_links.len()
        invariant
            i <= row_links@.len(),
            row_links@.len() == spans.len(),
            spans == link_spans(chars@, 0),
            chars@ == line_chars_of(term@.screen, row as int),
            forall|k: int|
                #![trigger row_links@[k]]
                0 <= k < row_links@.len() ==> {
                    &&& row_links@[k].start_col == spans[k].0
                    &&& row_links@[k].end_col == spans[k].1
                    &&& row_links@[k].url@ == chars@.subrange(spans[k].0, spans[k].1)
                },
            span_at(spans, col as int) == span_at(spans.subrange(i as int, spans.len() as int), col as int),
        decreases row_links@.len() - i,
    {
        let link = &row_links[i];
        proof {
            assert(spans.subrange(i as int, spans.len() as int).drop_first() =~= spans.subrange(
                i + 1,
                spans.len() as int,
            ));
        }
        if col >= link.start_col && col < link.end_col {
            assert(spans.subrange(i as int, spans.len() as int)[0] == spans[i as int]);
            return Some(link.url.clone());
        }
        i += 1;
    }
    None
}

/// The characters of a visible row, one per column (blank outside the grid).
pub open spec fn line_chars_of(s: Screen, row: int) -> Seq<char> {
    Seq::new(s.cols, |j: int| s.cell(row, j).c)
}

/// The JSON text of one search match.
pub open spec fn match_json(m: SearchMatch) -> Seq<u8> {
    "{\"row\":"@.map_values(|c: char| c as u8) + signed_decimal(m.row as int)
        + ",\"startCol\":"@.map_values(|c: char| c as u8) + decimal(m.start_col as nat)
        + ",\"endCol\":"@.map_values(|c: char| c as u8) + decimal(m.end_col as nat) + seq![0x7du8]
}

/// The JSON objects of the first `n` matches, comma separated.
pub open spec fn matches_json_upto(ms: Seq<SearchMatch>, n: int) -> Seq<u8>
    decreases n,
{
    if n <= 0 {
        Seq::empty()
    } else if n == 1 {
        match_json(ms[0])
    } else {
        matches_json_upto(ms, n - 1) + seq![0x2cu8] + match_json(ms[n - 1])
    }
}

fn push_ascii(out: &mut Vec<u8>, s: &str)
    requires
        vstd::string::is_ascii(s),
    ensures
        final(out)@ == old(out)@ + s@.map_values(|c: char| c as u8),
{
    let bytes = s.as_bytes();
    proof {
        vstd::string::is_ascii_spec_bytes(s);
    }
    let mut i: usize = 0;
    let ghost start = out@;
    while i < bytes.len()
        invariant
            i <= bytes@.len(),
            bytes@ == Seq::new(s@.len(), |k: int| s@[k] as u8),
            out@ == start + bytes@.take(i as int),
        decreases bytes@.len() - i,
    {
        out.push(bytes[i]);
        i += 1;
        assert(out@ =~= start + bytes@.take(i as int));
    }
    assert(bytes@.take(i as int) =~= s@.map_values(|c: char| c as u8));
}

/// Search matches as a JSON array of `{"row":…,"startCol":…,"endCol":…}`.
pub fn matches_json(matches: &[SearchMatch]) -> (json: String)
    ensures
        json@ == latin1(seq![0x5bu8] + matches_json_upto(matches@, matches@.len() as int) + seq![0x5du8]),
{
    let mut out: Vec<u8> = vec![0x5b];
    let mut i: usize = 0;
    proof {
        reveal_strlit("{\"row\":");
        reveal_strlit(",\"startCol\":");
        reveal_strlit(",\"endCol\":");
    }
    while i < matches.len()
        invariant
            i <= matches@.len(),
            out@ == seq![0x5bu8] + matches_json_upto(matches@, i as int),
            vstd::string::is_ascii("{\"row\":"),
            vstd::string::is_ascii(",\"startCol\":"),
            vstd::string::is_ascii(",\"endCol\":"),
        decreases matches@.len() - i,
    {
        let ghost before = out@;
        if i > 0 {
            out.push(0x2c);
        }
        let m = &matches[i];
        push_ascii(&mut out, "{\"row\":");
        push_signed_decimal(&mut out, m.row);
        push_ascii(&mut out, ",\"startCol\":");
        push_decimal(&mut out, m.start_col as u64);
        push_ascii(&mut out, ",\"endCol\":");
        push_decimal(&mut out, m.end_col as u64);
        out.push(0x7d);
        proof {
            if i == 0 {
                assert(out@ =~= seq![0x5bu8] + match_json(matches@[0]));
            } else {
                assert(out@ =~= before + seq![0x2cu8] + match_json(matches@[i as int]));
            }
        }
        i += 1;
    }
    out.push(0x5d);
    bytes_to_text(out.as_slice())
}

/// The text a key press sends to the PTY: nothing while Meta (Cmd) is held,
/// which belongs to the browser; otherwise the key's byte sequence, one
/// character per byte.
pub fn key_event_text(
    key: &str,
    ctrl: bool,
    alt: bool,
    shift: bool,
    meta: bool,
    app_cursor: bool,
) -> (text: Option<String>)
    ensures
        meta ==> text is None,
        !meta ==> match key_bytes(key@, ctrl, alt, app_cursor) {
            Some(b) => text matches Some(t) && t@ == latin1(b),
            None => text is None,
        },
{
    if meta {
        return None;
    }
    match encode_key(key, ctrl, alt, shift, app_cursor) {
        Some(bytes) => Some(bytes_to_text(bytes.as_slice())),
        None => None,
    }
}

} // verus!
