//! Case-insensitive text search over the grid and its scrollback.
use vstd::prelude::*;

use crate::cell::Cell;
use crate::grid::{Grid, Screen, MAX_SCROLLBACK};
use crate::text::str_chars;

verus! {

/// A search match in the terminal grid or scrollback.
#[derive(Debug, Clone, PartialEq, Eq)]
pub struct SearchMatch {
    /// Row index. Negative values (offset from the end of the scrollback)
    /// are in scrollback; non-negative are in the visible grid.
    pub row: i64,
    pub start_col: usize,
    pub end_col: usize,
}

/// ASCII letters folded to lower case; every other character unchanged.
pub open spec fn ascii_lower(c: char) -> char {
    if 'A' <= c && c <= 'Z' {
        ((c as u8) + 32) as u8 as char
    } else {
        c
    }
}

pub open spec fn lower_text(s: Seq<char>) -> Seq<char> {
    Seq::new(s.len(), |i: int| ascii_lower(s[i]))
}

/// `needle` occurs in `text` starting at `k`.
pub open spec fn occurs_at(text: Seq<char>, needle: Seq<char>, k: int) -> bool {
    0 <= k && k + needle.len() <= text.len() && text.subrange(k, k + needle.len()) == needle
}

/// Start columns of the occurrences of `needle` found scanning `text` left
/// to right from `pos`, each occurrence skipped past once found (so they
/// never overlap). An empty needle has no occurrences.
pub open spec fn occurrences_from(text: Seq<char>, needle: Seq<char>, pos: int) -> Seq<int>
    decreases text.len() - pos,
{
    if needle.len() == 0 || pos < 0 || pos + needle.len() > text.len() {
        Seq::empty()
    } else if occurs_at(text, needle, pos) {
        seq![pos] + occurrences_from(text, needle, pos + needle.len())
    } else {
        occurrences_from(text, needle, pos + 1)
    }
}

/// The match record for an occurrence at column `k` of row `row`.
pub open spec fn match_record(row: int, k: int, n: int) -> SearchMatch {
    SearchMatch { row: row as i64, start_col: k as usize, end_col: (k + n) as usize }
}

/// The matches of `needle` in one row's (already folded) text.
pub open spec fn row_matches(row: int, text: Seq<char>, needle: Seq<char>) -> Seq<SearchMatch> {
    occurrences_from(text, needle, 0).map_values(|k: int| match_record(row, k, needle.len() as int))
}

/// The characters of a line of cells.
pub open spec fn line_chars(line: Seq<Cell>) -> Seq<char> {
    Seq::new(line.len(), |j: int| line[j].c)
}

/// The matches in the first `n` scrollback lines, oldest first. Scrollback
/// line `i` is reported as row `i - scrollback length`.
pub open spec fn scrollback_matches(s: Screen, needle: Seq<char>, n: int) -> Seq<SearchMatch>
    decreases n,
{
    if n <= 0 {
        Seq::empty()
    } else {
        scrollback_matches(s, needle, n - 1) + row_matches(
            (n - 1) - s.scrollback.len(),
            lower_text(line_chars(s.scrollback[n - 1])),
            needle,
        )
    }
}

/// The matches in the first `n` visible rows, top first.
pub open spec fn grid_matches(s: Screen, needle: Seq<char>, n: int) -> Seq<SearchMatch>
    decreases n,
{
    if n <= 0 {
        Seq::empty()
    } else {
        grid_matches(s, needle, n - 1) + row_matches(
            n - 1,
            lower_text(line_chars(s.lines[n - 1])),
            needle,
        )
    }
}

/// Every match of the (folded) needle, from the oldest scrollback line to
/// the last visible row.
pub open spec fn all_matches(s: Screen, needle: Seq<char>) -> Seq<SearchMatch> {
    scrollback_matches(s, needle, s.scrollback.len() as int) + grid_matches(
        s,
        needle,
        s.rows as int,
    )
}

/// The search result: the first `max_results` matches of the needle,
/// ignoring ASCII case; nothing for an empty needle.
pub open spec fn search_results(s: Screen, needle: Seq<char>, max_results: int) -> Seq<
    SearchMatch,
> {
    if needle.len() == 0 {
        Seq::empty()
    } else {
        let all = all_matches(s, lower_text(needle));
        all.take(if max_results < all.len() {
            max_results
        } else {
            all.len() as int
        })
    }
}

fn ascii_lowercase(chars: &[char]) -> (out: Vec<char>)
    ensures
        out@ == lower_text(chars@),
{
    let mut out: Vec<char> = Vec::new();
    let mut i: usize = 0;
    while i < chars.len()
        invariant
            i <= chars@.len(),
            out@ == lower_text(chars@.take(i as int)),
        decreases chars@.len() - i,
    {
        let c = chars[i];
        let l = if 'A' <= c && c <= 'Z' {
            ((c as u8) + 32) as char
        } else {
            c
        };
        out.push(l);
        i += 1;
        assert(out@ =~= lower_text(chars@.take(i as int)));
    }
    assert(chars@.take(i as int) =~= chars@);
    out
}

fn occurs_at_exec(text: &[char], needle: &[char], pos: usize) -> (b: bool)
    requires
        pos + needle@.len() <= text@.len(),
    ensures
        b == occurs_at(text@, needle@, pos as int),
{
    let n = needle.len();
    let len = text.len();
    let mut j: usize = 0;
    while j < n
        invariant
            len == text@.len(),
            j <= n,
            n == needle@.len(),
            pos + n <= text@.len(),
            forall|k: int| 0 <= k < j ==> text@[pos + k] == needle@[k],
        decreases n - j,
    {
        if text[pos + j] != needle[j] {
            assert(text@.subrange(pos as int, pos + n)[j as int] != needle@[j as int]);
            return false;
        }
        j += 1;
    }
    assert(text@.subrange(pos as int, pos + n) =~= needle@);
    true
}

proof fn lemma_occurrences_split(text: Seq<char>, needle: Seq<char>, pos: int)
    requires
        needle.len() > 0,
        0 <= pos,
        pos + needle.len() <= text.len(),
    ensures
        occurs_at(text, needle, pos) ==> occurrences_from(text, needle, pos) == seq![pos]
            + occurrences_from(text, needle, pos + needle.len()),
        !occurs_at(text, needle, pos) ==> occurrences_from(text, needle, pos)
            == occurrences_from(text, needle, pos + 1),
{
}

/// Appends the matches of `needle` in one row's text, stopping once
/// `max` matches have been collected in total.
fn find_in_line(
    text: &[char],
    needle: &[char],
    row: i64,
    matches: &mut Vec<SearchMatch>,
    max: usize,
)
    requires
        needle@.len() > 0,
        old(matches)@.len() < max,
    ensures
        ({
            let all = old(matches)@ + row_matches(row as int, text@, needle@);
            final(matches)@ == all.take(
                if max < all.len() {
                    max as int
                } else {
                    all.len() as int
                },
            )
        }),
{
    let n = needle.len();
    let ghost start = matches@;
    let ghost mk = |k: int| match_record(row as int, k, n as int);
    let ghost full = occurrences_from(text@, needle@, 0);
    let ghost mut done: Seq<int> = Seq::empty();
    let mut pos: usize = 0;
    assert(row_matches(row as int, text@, needle@) == full.map_values(mk));
    while pos <= text.len() && text.len() - pos >= n
        invariant
            n == needle@.len(),
            n > 0,
            pos <= text@.len(),
            start.len() < max,
            full == occurrences_from(text@, needle@, 0),
            done + occurrences_from(text@, needle@, pos as int) == full,
            matches@ == start + done.map_values(mk),
            matches@.len() <= max,
            mk == (|k: int| match_record(row as int, k, n as int)),
        ensures
            pos <= text@.len(),
            matches@ == start + done.map_values(mk),
            done + occurrences_from(text@, needle@, pos as int) == full,
            matches@.len() == max || pos + n > text@.len(),
            matches@.len() <= max,
        decreases text@.len() - pos,
    {
        proof {
            lemma_occurrences_split(text@, needle@, pos as int);
        }
        if occurs_at_exec(text, needle, pos) {
            if matches.len() >= max {
                break;
            }
            matches.push(SearchMatch { row, start_col: pos, end_col: pos + n });
            proof {
                assert((done + seq![pos as int]) + occurrences_from(text@, needle@, pos + n) =~= done
                    + occurrences_from(text@, needle@, pos as int));
                assert((done + seq![pos as int]).map_values(mk) =~= done.map_values(mk).push(
                    mk(pos as int),
                ));
                done = done + seq![pos as int];
            }
            pos = pos + n;
        } else {
            pos = pos + 1;
        }
    }
    proof {
        if pos + n > text@.len() {
            assert(occurrences_from(text@, needle@, pos as int) == Seq::<int>::empty());
            assert(done =~= full);
        }
        let all = start + full.map_values(mk);
        assert(full.map_values(mk) =~= done.map_values(mk) + occurrences_from(
            text@,
            needle@,
            pos as int,
        ).map_values(mk));
        assert(matches@ =~= all.take(
            if max < all.len() {
                max as int
            } else {
                all.len() as int
            },
        ));
    }
}

/// At most the first `m` elements of `s`.
pub open spec fn capped(s: Seq<SearchMatch>, m: int) -> Seq<SearchMatch> {
    s.take(
        if m < s.len() {
            m
        } else {
            s.len() as int
        },
    )
}

proof fn lemma_capped_extend(a: Seq<SearchMatch>, b: Seq<SearchMatch>, m: int)
    requires
        0 <= m,
    ensures
        capped(a, m).len() >= m ==> capped(a + b, m) == capped(a, m),
        capped(a, m).len() < m ==> capped(a, m) == a,
{
    if capped(a, m).len() >= m {
        assert(capped(a + b, m) =~= capped(a, m));
    } else {
        assert(capped(a, m) =~= a);
    }
}

/// The characters of a line of cells.
fn cell_chars(line: &[Cell]) -> (chars: Vec<char>)
    ensures
        chars@ == line_chars(line@),
{
    let mut chars: Vec<char> = Vec::new();
    let mut j: usize = 0;
    while j < line.len()
        invariant
            j <= line@.len(),
            chars@ == line_chars(line@.take(j as int)),
        decreases line@.len() - j,
    {
        chars.push(line[j].c);
        j += 1;
        assert(chars@ =~= line_chars(line@.take(j as int)));
    }
    assert(line@.take(j as int) =~= line@);
    chars
}

/// The characters of a visible row.
fn grid_row_chars(grid: &Grid, row: usize) -> (chars: Vec<char>)
    requires
        grid.wf(),
        row < grid@.rows,
    ensures
        chars@ == line_chars(grid@.lines[row as int]),
{
    proof {
        reveal(Screen::wf);
    }
    let cols = grid.cols();
    let mut chars: Vec<char> = Vec::new();
    let mut j: usize = 0;
    while j < cols
        invariant
            grid@.wf(),
            row < grid@.rows,
            cols == grid@.cols,
            j <= cols,
            chars@ == line_chars(grid@.lines[row as int].take(j as int)),
        decreases cols - j,
    {
        proof {
            reveal(Screen::wf);
        }
        chars.push(grid.cell(row, j).c);
        j += 1;
        assert(chars@ =~= line_chars(grid@.lines[row as int].take(j as int)));
    }
    proof {
        reveal(Screen::wf);
    }
    assert(grid@.lines[row as int].take(j as int) =~= grid@.lines[row as int]);
    chars
}

/// Search the grid and scrollback for a needle string, ignoring ASCII case.
/// Returns matches in order from top (oldest scrollback) to bottom (latest grid row).
/// `max_results` caps the returned matches to prevent OOM on huge scrollback.
pub fn search(grid: &Grid, needle: &str, max_results: usize) -> (matches: Vec<SearchMatch>)
    requires
        grid.wf(),
    ensures
        matches@ == search_results(grid@, needle@, max_results as int),
{
    if needle.is_empty() {
        return Vec::new();
    }
    proof {
        grid@.lemma_dims();
        reveal(Screen::wf);
    }
    let needle_chars = str_chars(needle);
    let needle_lower = ascii_lowercase(needle_chars.as_slice());
    let ghost s = grid@;
    let ghost nl = needle_lower@;
    let mut matches: Vec<SearchMatch> = Vec::new();

    // Search scrollback (row indices are negative: -scrollback_len .. -1)
    let sb_len = grid.scrollback_len();
    let mut i: usize = 0;
    while i < sb_len
        invariant
            i <= sb_len,
            sb_len == s.scrollback.len(),
            sb_len <= MAX_SCROLLBACK,
            s == grid@,
            nl == needle_lower@,
            nl.len() > 0,
            matches@ == capped(scrollback_matches(s, nl, i as int), max_results as int),
        ensures
            matches@ == capped(scrollback_matches(s, nl, sb_len as int), max_results as int),
        decreases sb_len - i,
    {
        proof {
            lemma_capped_extend(
                scrollback_matches(s, nl, i as int),
                row_matches(
                    i - s.scrollback.len(),
                    lower_text(line_chars(s.scrollback[i as int])),
                    nl,
                ),
                max_results as int,
            );
            if matches@.len() >= max_results {
                lemma_scrollback_prefix(s, nl, i as int, sb_len as int, max_results as int);
            }
        }
        if matches.len() >= max_results {
            break;
        }
        if let Some(line) = grid.scrollback_line(i) {
            let chars = cell_chars(line);
            let text = ascii_lowercase(chars.as_slice());
            let row: i64 = i as i64 - sb_len as i64;
            find_in_line(text.as_slice(), needle_lower.as_slice(), row, &mut matches, max_results);
        }
        i += 1;
    }

    // Search visible grid
    let rows = grid.rows();
    let mut row: usize = 0;
    while row < rows
        invariant
            row <= rows,
            rows == s.rows,
            s.wf(),
            s == grid@,
            grid.wf(),
            nl == needle_lower@,
            nl.len() > 0,
            matches@ == capped(
                scrollback_matches(s, nl, s.scrollback.len() as int) + grid_matches(
                    s,
                    nl,
                    row as int,
                ),
                max_results as int,
            ),
        ensures
            matches@ == capped(
                scrollback_matches(s, nl, s.scrollback.len() as int) + grid_matches(
                    s,
                    nl,
                    rows as int,
                ),
                max_results as int,
            ),
        decreases rows - row,
    {
        let ghost sbm = scrollback_matches(s, nl, s.scrollback.len() as int);
        proof {
            let rm = row_matches(row as int, lower_text(line_chars(s.lines[row as int])), nl);
            assert(sbm + grid_matches(s, nl, row + 1) =~= (sbm + grid_matches(s, nl, row as int))
                + rm);
            lemma_capped_extend(sbm + grid_matches(s, nl, row as int), rm, max_results as int);
            if matches@.len() >= max_results {
                lemma_grid_prefix(s, nl, sbm, row as int, rows as int, max_results as int);
            }
        }
        if matches.len() >= max_results {
            break;
        }
        let chars = grid_row_chars(grid, row);
        let text = ascii_lowercase(chars.as_slice());
        find_in_line(text.as_slice(), needle_lower.as_slice(), row as i64, &mut matches, max_results);
        row += 1;
    }
    assert(nl == lower_text(needle@));
    matches
}

/// Once the scrollback matches so far fill the cap, later lines change nothing.
proof fn lemma_scrollback_prefix(s: Screen, nl: Seq<char>, i: int, n: int, m: int)
    requires
        0 <= i <= n,
        0 <= m,
        capped(scrollback_matches(s, nl, i), m).len() >= m,
    ensures
        capped(scrollback_matches(s, nl, n), m) == capped(scrollback_matches(s, nl, i), m),
    decreases n - i,
{
    if i < n {
        lemma_capped_extend(
            scrollback_matches(s, nl, i),
            row_matches(i - s.scrollback.len(), lower_text(line_chars(s.scrollback[i])), nl),
            m,
        );
        lemma_scrollback_prefix(s, nl, i + 1, n, m);
    }
}

/// Once the matches so far fill the cap, later rows change nothing.
proof fn lemma_grid_prefix(
    s: Screen,
    nl: Seq<char>,
    sbm: Seq<SearchMatch>,
    r: int,
    n: int,
    m: int,
)
    requires
        0 <= r <= n,
        0 <= m,
        capped(sbm + grid_matches(s, nl, r), m).len() >= m,
    ensures
        capped(sbm + grid_matches(s, nl, n), m) == capped(sbm + grid_matches(s, nl, r), m),
    decreases n - r,
{
    if r < n {
        let rm = row_matches(r, lower_text(line_chars(s.lines[r])), nl);
        assert(sbm + grid_matches(s, nl, r + 1) =~= (sbm + grid_matches(s, nl, r)) + rm);
        lemma_capped_extend(sbm + grid_matches(s, nl, r), rm, m);
        lemma_grid_prefix(s, nl, sbm, r + 1, n, m);
    }
}

/// `m` names a real occurrence of the (folded) `needle`: in scrollback line
/// `row + scrollback length` when `row` is negative, in visible row `row`
/// otherwise, starting at `start_col` and ending at `end_col`.
pub open spec fn is_real_match(s: Screen, needle: Seq<char>, m: SearchMatch) -> bool {
    &&& m.end_col as int == m.start_col as int + needle.len()
    &&& if m.row < 0 {
        let i = m.row + s.scrollback.len();
        0 <= i && occurs_at(lower_text(line_chars(s.scrollback[i])), needle, m.start_col as int)
    } else {
        m.row < s.rows && occurs_at(lower_text(line_chars(s.lines[m.row as int])), needle, m.start_col as int)
    }
}

proof fn lemma_occurrences_sound(text: Seq<char>, needle: Seq<char>, pos: int)
    ensures
        forall|i: int|
            0 <= i < occurrences_from(text, needle, pos).len() ==> occurs_at(
                text,
                needle,
                #[trigger] occurrences_from(text, needle, pos)[i],
            ),
    decreases text.len() - pos,
{
    if needle.len() == 0 || pos < 0 || pos + needle.len() > text.len() {
    } else if occurs_at(text, needle, pos) {
        lemma_occurrences_sound(text, needle, pos + needle.len());
        let rest = occurrences_from(text, needle, pos + needle.len());
        let all = occurrences_from(text, needle, pos);
        assert(all == seq![pos] + rest);
        assert forall|i: int| 0 <= i < all.len() implies occurs_at(
            text,
            needle,
            #[trigger] all[i],
        ) by {
            if i > 0 {
                assert(all[i] == rest[i - 1]);
            } else {
                assert(all[i] == pos);
            }
        }
    } else {
        lemma_occurrences_sound(text, needle, pos + 1);
        assert(occurrences_from(text, needle, pos) == occurrences_from(text, needle, pos + 1));
    }
}

proof fn lemma_row_matches_sound(s: Screen, needle: Seq<char>, row: int, text: Seq<char>)
    requires
        text.len() <= usize::MAX,
        i64::MIN <= row <= i64::MAX,
    ensures
        forall|j: int|
            0 <= j < row_matches(row, text, needle).len() ==> {
                let m = #[trigger] row_matches(row, text, needle)[j];
                &&& m.row == row
                &&& m.end_col as int == m.start_col as int + needle.len()
                &&& occurs_at(text, needle, m.start_col as int)
            },
{
    lemma_occurrences_sound(text, needle, 0);
    assert forall|j: int| 0 <= j < row_matches(row, text, needle).len() implies {
        let m = #[trigger] row_matches(row, text, needle)[j];
        &&& m.row == row
        &&& m.end_col as int == m.start_col as int + needle.len()
        &&& occurs_at(text, needle, m.start_col as int)
    } by {
        let k = occurrences_from(text, needle, 0)[j];
        assert(occurs_at(text, needle, k));
    }
}

proof fn lemma_scrollback_matches_sound(s: Screen, needle: Seq<char>, n: int)
    requires
        s.wf(),
        n <= s.scrollback.len(),
        forall|i: int| 0 <= i < s.scrollback.len() ==> (#[trigger] s.scrollback[i]).len() <= usize::MAX,
    ensures
        forall|j: int|
            0 <= j < scrollback_matches(s, needle, n).len() ==> is_real_match(
                s,
                needle,
                #[trigger] scrollback_matches(s, needle, n)[j],
            ),
    decreases n,
{
    reveal(Screen::wf);
    if n > 0 {
        lemma_scrollback_matches_sound(s, needle, n - 1);
        let prev = scrollback_matches(s, needle, n - 1);
        let text = lower_text(line_chars(s.scrollback[n - 1]));
        let row = (n - 1) - s.scrollback.len();
        lemma_row_matches_sound(s, needle, row, text);
        let last = row_matches(row, text, needle);
        assert forall|j: int| 0 <= j < scrollback_matches(s, needle, n).len() implies is_real_match(
            s,
            needle,
            #[trigger] scrollback_matches(s, needle, n)[j],
        ) by {
            if j >= prev.len() {
                assert(scrollback_matches(s, needle, n)[j] == last[j - prev.len()]);
            } else {
                assert(scrollback_matches(s, needle, n)[j] == prev[j]);
            }
        }
    }
}

proof fn lemma_grid_matches_sound(s: Screen, needle: Seq<char>, n: int)
    requires
        s.wf(),
        n <= s.rows,
    ensures
        forall|j: int|
            0 <= j < grid_matches(s, needle, n).len() ==> is_real_match(
                s,
                needle,
                #[trigger] grid_matches(s, needle, n)[j],
            ),
    decreases n,
{
    reveal(Screen::wf);
    if n > 0 {
        lemma_grid_matches_sound(s, needle, n - 1);
        let prev = grid_matches(s, needle, n - 1);
        let text = lower_text(line_chars(s.lines[n - 1]));
        lemma_row_matches_sound(s, needle, n - 1, text);
        let last = row_matches(n - 1, text, needle);
        assert forall|j: int| 0 <= j < grid_matches(s, needle, n).len() implies is_real_match(
            s,
            needle,
            #[trigger] grid_matches(s, needle, n)[j],
        ) by {
            if j >= prev.len() {
                assert(grid_matches(s, needle, n)[j] == last[j - prev.len()]);
            } else {
                assert(grid_matches(s, needle, n)[j] == prev[j]);
            }
        }
    }
}

/// Search reports no more than `max_results` matches, and each one is a
/// real occurrence of the needle, ASCII case ignored, in the row it names.
pub proof fn lemma_search_sound(s: Screen, needle: Seq<char>, max_results: int)
    requires
        s.wf(),
        0 <= max_results,
        forall|i: int| 0 <= i < s.scrollback.len() ==> (#[trigger] s.scrollback[i]).len() <= usize::MAX,
    ensures
        search_results(s, needle, max_results).len() <= max_results,
        forall|j: int|
            0 <= j < search_results(s, needle, max_results).len() ==> is_real_match(
                s,
                lower_text(needle),
                #[trigger] search_results(s, needle, max_results)[j],
            ),
{
    if needle.len() > 0 {
        let nl = lower_text(needle);
        reveal(Screen::wf);
        lemma_scrollback_matches_sound(s, nl, s.scrollback.len() as int);
        lemma_grid_matches_sound(s, nl, s.rows as int);
        let a = scrollback_matches(s, nl, s.scrollback.len() as int);
        let b = grid_matches(s, nl, s.rows as int);
        let all = all_matches(s, nl);
        assert forall|j: int| 0 <= j < search_results(s, needle, max_results).len() implies is_real_match(
            s,
            nl,
            #[trigger] search_results(s, needle, max_results)[j],
        ) by {
            assert(search_results(s, needle, max_results)[j] == all[j]);
            if j < a.len() {
                assert(all[j] == a[j]);
            } else {
                assert(all[j] == b[j - a.len()]);
            }
        }
    }
}

/// Two characters that are equal, or the same ASCII letter in the two cases.
pub open spec fn same_ignoring_ascii_case(a: char, b: char) -> bool {
    a == b || ('A' <= a && a <= 'Z' && b as u32 == a as u32 + 32) || ('A' <= b && b <= 'Z' && a as u32
        == b as u32 + 32)
}

proof fn lemma_fold_equal(a: char, b: char)
    requires
        ascii_lower(a) == ascii_lower(b),
    ensures
        same_ignoring_ascii_case(a, b),
{
}

/// The characters of the line a match row names: scrollback line
/// `row + scrollback length` for a negative row, visible row `row` otherwise.
pub open spec fn named_line(s: Screen, row: i64) -> Seq<char> {
    if row < 0 {
        line_chars(s.scrollback[row + s.scrollback.len()])
    } else {
        line_chars(s.lines[row as int])
    }
}

/// Every match search reports is the needle, up to ASCII letter case and
/// nothing else, at its place in the scrollback line or visible row it
/// names: character `i` of the match and character `i` of the needle are
/// equal or the same letter in two cases.
pub proof fn lemma_search_ignores_only_case(s: Screen, needle: Seq<char>, max_results: int)
    requires
        s.wf(),
        0 <= max_results,
        forall|i: int| 0 <= i < s.scrollback.len() ==> (#[trigger] s.scrollback[i]).len() <= usize::MAX,
    ensures
        forall|j: int, i: int|
            #![trigger search_results(s, needle, max_results)[j], needle[i]]
            0 <= j < search_results(s, needle, max_results).len() && 0 <= i < needle.len() ==> {
                &&& search_results(s, needle, max_results)[j].start_col + i < named_line(
                    s,
                    search_results(s, needle, max_results)[j].row,
                ).len()
                &&& same_ignoring_ascii_case(
                    named_line(s, search_results(s, needle, max_results)[j].row)[search_results(
                        s,
                        needle,
                        max_results,
                    )[j].start_col + i],
                    needle[i],
                )
            },
{
    lemma_search_sound(s, needle, max_results);
    assert forall|j: int, i: int|
        0 <= j < search_results(s, needle, max_results).len() && 0 <= i < needle.len() implies {
            &&& search_results(s, needle, max_results)[j].start_col + i < named_line(
                s,
                search_results(s, needle, max_results)[j].row,
            ).len()
            &&& same_ignoring_ascii_case(
                named_line(s, search_results(s, needle, max_results)[j].row)[search_results(
                    s,
                    needle,
                    max_results,
                )[j].start_col + i],
                needle[i],
            )
        } by {
        let m = search_results(s, needle, max_results)[j];
        let line = named_line(s, m.row);
        let nl = lower_text(needle);
        assert(is_real_match(s, nl, m));
        let k = m.start_col as int;
        assert(occurs_at(lower_text(line), nl, k));
        assert(lower_text(line).subrange(k, k + nl.len())[i] == nl[i]);
        assert(lower_text(line)[k + i] == ascii_lower(line[k + i]));
        lemma_fold_equal(line[k + i], needle[i]);
    }
}

} // verus!
