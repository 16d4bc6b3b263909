//! URL detection in a row of terminal text.
use vstd::prelude::*;
use vstd::utf8::{encode_scalar, encode_utf8};

use crate::text::{char_utf8_width, chars_to_string, lemma_encode_push, utf8_width};

verus! {

/// Detected link in the terminal grid.
#[derive(Debug, Clone)]
pub struct Link {
    pub row: usize,
    pub start_col: usize,
    pub end_col: usize,
    pub url: String,
}

/// `p` occurs in `s` at position `k`.
pub open spec fn has_at(s: Seq<char>, p: Seq<char>, k: int) -> bool {
    0 <= k && k + p.len() <= s.len() && s.subrange(k, k + p.len()) == p
}

/// A URL scheme (`https://`, `http://`, `ftp://`, `file://`) starts at `k`.
pub open spec fn scheme_at(s: Seq<char>, k: int) -> bool {
    has_at(s, seq!['h', 't', 't', 'p', 's', ':', '/', '/'], k) || has_at(
        s,
        seq!['h', 't', 't', 'p', ':', '/', '/'],
        k,
    ) || has_at(s, seq!['f', 't', 'p', ':', '/', '/'], k) || has_at(
        s,
        seq!['f', 'i', 'l', 'e', ':', '/', '/'],
        k,
    )
}

/// The earliest position at or after `pos` where a URL scheme starts.
pub open spec fn url_start_from(s: Seq<char>, pos: int) -> Option<int>
    decreases s.len() - pos,
{
    if pos < 0 || pos >= s.len() {
        None
    } else if scheme_at(s, pos) {
        Some(pos)
    } else {
        url_start_from(s, pos + 1)
    }
}

/// Characters that end a URL.
pub open spec fn stops_url(c: char) -> bool {
    c == ' ' || c == '\t' || c == '\n' || c == '\r' || c == '\0' || c == '<' || c == '>' || c
        == '"' || c == '\'' || c == '`' || c == '|'
}

/// How many characters from `i` on belong to the URL: up to a stop
/// character, or a `)` that closes no `(` opened within the URL.
pub open spec fn url_run(s: Seq<char>, i: int, depth: int) -> int
    decreases s.len() - i,
{
    if i < 0 || i >= s.len() {
        0
    } else {
        let c = s[i];
        if stops_url(c) {
            0
        } else if c == '(' {
            1 + url_run(s, i + 1, depth + 1)
        } else if c == ')' {
            if depth <= 0 {
                0
            } else {
                1 + url_run(s, i + 1, depth - 1)
            }
        } else {
            1 + url_run(s, i + 1, depth)
        }
    }
}

/// Sentence punctuation dropped from the end of a URL.
pub open spec fn trailing_punct(c: char) -> bool {
    c == '.' || c == ',' || c == ';' || c == ':' || c == '!' || c == '?'
}

/// `n` cut back past trailing punctuation of `s[start..start + n]`.
pub open spec fn trim_trailing(s: Seq<char>, start: int, n: int) -> int
    decreases n,
{
    if n > 0 && trailing_punct(s[start + n - 1]) {
        trim_trailing(s, start, n - 1)
    } else {
        n
    }
}

/// The length in characters of the URL starting at `start`.
pub open spec fn url_len(s: Seq<char>, start: int) -> int {
    trim_trailing(s, start, url_run(s, start, 0))
}

pub proof fn lemma_url_run_bounds(s: Seq<char>, i: int, depth: int)
    requires
        0 <= i,
    ensures
        0 <= url_run(s, i, depth) <= if i < s.len() {
            s.len() - i
        } else {
            0
        },
    decreases s.len() - i,
{
    if 0 <= i < s.len() {
        lemma_url_run_bounds(s, i + 1, depth + 1);
        lemma_url_run_bounds(s, i + 1, depth);
        lemma_url_run_bounds(s, i + 1, depth - 1);
    }
}

pub proof fn lemma_trim_bounds(s: Seq<char>, start: int, n: int)
    requires
        0 <= n,
    ensures
        0 <= trim_trailing(s, start, n) <= n,
        n > 0 && !trailing_punct(s[start]) ==> trim_trailing(s, start, n) >= 1,
    decreases n,
{
    if n > 0 && trailing_punct(s[start + n - 1]) {
        lemma_trim_bounds(s, start, n - 1);
    }
}

pub proof fn lemma_start_found(s: Seq<char>, pos: int)
    ensures
        url_start_from(s, pos) matches Some(k) ==> pos <= k < s.len() && scheme_at(s, k),
    decreases s.len() - pos,
{
    if 0 <= pos < s.len() && !scheme_at(s, pos) {
        lemma_start_found(s, pos + 1);
    }
}

/// A URL found at a scheme is at least one character long and stays on the row.
pub proof fn lemma_url_len_bounds(s: Seq<char>, k: int)
    requires
        0 <= k < s.len(),
        scheme_at(s, k),
    ensures
        1 <= url_len(s, k) <= s.len() - k,
{
    lemma_url_run_bounds(s, k + 1, 0);
    lemma_url_run_bounds(s, k, 0);
    assert(s[k] == 'h' || s[k] == 'f') by {
        if has_at(s, seq!['h', 't', 't', 'p', 's', ':', '/', '/'], k) {
            assert(s.subrange(k, k + 8)[0] == s[k]);
        } else if has_at(s, seq!['h', 't', 't', 'p', ':', '/', '/'], k) {
            assert(s.subrange(k, k + 7)[0] == s[k]);
        } else if has_at(s, seq!['f', 't', 'p', ':', '/', '/'], k) {
            assert(s.subrange(k, k + 6)[0] == s[k]);
        } else {
            assert(s.subrange(k, k + 7)[0] == s[k]);
        }
    }
    lemma_trim_bounds(s, k, url_run(s, k, 0));
}

/// The `(start, end)` columns of the links found scanning from `pos`:
/// each URL is skipped past, and kept when its UTF-8 form is longer than
/// eight bytes.
pub open spec fn link_spans(s: Seq<char>, pos: int) -> Seq<(int, int)>
    decreases s.len() - pos,
{
    match url_start_from(s, pos) {
        Some(k) => {
            proof {
                lemma_start_found(s, pos);
                lemma_url_len_bounds(s, k);
            }
            let e = url_len(s, k);
            let rest = link_spans(s, k + e);
            if encode_utf8(s.subrange(k, k + e)).len() > 8 {
                seq![(k, k + e)] + rest
            } else {
                rest
            }
        },
        None => Seq::empty(),
    }
}

/// A character that never belongs to a detected URL: blanks, NUL, angle
/// brackets, quotes, backquote and the pipe.
pub open spec fn never_in_url(c: char) -> bool {
    c == ' ' || c == '\t' || c == '\n' || c == '\r' || c == '\0' || c == '<' || c == '>' || c == '"'
        || c == '\'' || c == '`' || c == '|'
}

proof fn lemma_url_run_clean(s: Seq<char>, i: int, depth: int)
    requires
        0 <= i,
    ensures
        forall|j: int| i <= j < i + url_run(s, i, depth) ==> !never_in_url(#[trigger] s[j]),
    decreases s.len() - i,
{
    if 0 <= i < s.len() && !stops_url(s[i]) {
        lemma_url_run_clean(s, i + 1, depth + 1);
        lemma_url_run_clean(s, i + 1, depth);
        lemma_url_run_clean(s, i + 1, depth - 1);
    }
}

proof fn lemma_trim_end(s: Seq<char>, start: int, n: int)
    requires
        0 <= n,
    ensures
        trim_trailing(s, start, n) > 0 ==> !trailing_punct(s[start + trim_trailing(s, start, n) - 1]),
    decreases n,
{
    if n > 0 && trailing_punct(s[start + n - 1]) {
        lemma_trim_end(s, start, n - 1);
    }
}

/// Every link found scanning from `pos` starts with `https://`, `http://`,
/// `ftp://` or `file://`, lies inside the row, holds none of the characters
/// that end a URL, and does not end in sentence punctuation.
pub proof fn lemma_link_spans_shape(s: Seq<char>, pos: int)
    requires
        0 <= pos,
    ensures
        forall|k: int|
            0 <= k < link_spans(s, pos).len() ==> {
                let (a, e) = #[trigger] link_spans(s, pos)[k];
                &&& pos <= a < e <= s.len()
                &&& (has_at(s, seq!['h', 't', 't', 'p', 's', ':', '/', '/'], a) || has_at(
                    s,
                    seq!['h', 't', 't', 'p', ':', '/', '/'],
                    a,
                ) || has_at(s, seq!['f', 't', 'p', ':', '/', '/'], a) || has_at(
                    s,
                    seq!['f', 'i', 'l', 'e', ':', '/', '/'],
                    a,
                ))
                &&& forall|j: int| a <= j < e ==> !never_in_url(#[trigger] s[j])
                &&& !(s[e - 1] == '.' || s[e - 1] == ',' || s[e - 1] == ';' || s[e - 1] == ':'
                    || s[e - 1] == '!' || s[e - 1] == '?')
            },
    decreases s.len() - pos,
{
    match url_start_from(s, pos) {
        Some(k) => {
            lemma_start_found(s, pos);
            lemma_url_len_bounds(s, k);
            let e = url_len(s, k);
            lemma_url_run_bounds(s, k, 0);
            lemma_trim_bounds(s, k, url_run(s, k, 0));
            lemma_url_run_clean(s, k, 0);
            lemma_trim_end(s, k, url_run(s, k, 0));
            lemma_link_spans_shape(s, k + e);
            let rest = link_spans(s, k + e);
            let all = link_spans(s, pos);
            assert forall|q: int| 0 <= q < all.len() implies {
                let (a, f) = #[trigger] all[q];
                &&& pos <= a < f <= s.len()
                &&& (has_at(s, seq!['h', 't', 't', 'p', 's', ':', '/', '/'], a) || has_at(
                    s,
                    seq!['h', 't', 't', 'p', ':', '/', '/'],
                    a,
                ) || has_at(s, seq!['f', 't', 'p', ':', '/', '/'], a) || has_at(
                    s,
                    seq!['f', 'i', 'l', 'e', ':', '/', '/'],
                    a,
                ))
                &&& forall|j: int| a <= j < f ==> !never_in_url(#[trigger] s[j])
                &&& !(s[f - 1] == '.' || s[f - 1] == ',' || s[f - 1] == ';' || s[f - 1] == ':'
                    || s[f - 1] == '!' || s[f - 1] == '?')
            } by {
                if encode_utf8(s.subrange(k, k + e)).len() > 8 {
                    if q == 0 {
                        assert(all[q] == (k, k + e));
                    } else {
                        assert(all[q] == rest[q - 1]);
                    }
                } else {
                    assert(all[q] == rest[q]);
                }
            }
        },
        None => {},
    }
}

/// Find the start of the earliest URL at or after `from`.
fn find_url_start(chars: &[char], from: usize) -> (start: Option<usize>)
    ensures
        match start {
            Some(k) => url_start_from(chars@, from as int) == Some(k as int),
            None => url_start_from(chars@, from as int) is None,
        },
{
    let n = chars.len();
    let mut k = from;
    while k < n
        invariant
            n == chars@.len(),
            from <= k,
            url_start_from(chars@, from as int) == url_start_from(chars@, k as int),
        decreases n - k,
    {
        if starts_with(chars, k, &['h', 't', 't', 'p', 's', ':', '/', '/']) || starts_with(
            chars,
            k,
            &['h', 't', 't', 'p', ':', '/', '/'],
        ) || starts_with(chars, k, &['f', 't', 'p', ':', '/', '/']) || starts_with(
            chars,
            k,
            &['f', 'i', 'l', 'e', ':', '/', '/'],
        ) {
            return Some(k);
        }
        k += 1;
    }
    None
}

fn starts_with(chars: &[char], k: usize, p: &[char]) -> (b: bool)
    ensures
        b == has_at(chars@, p@, k as int),
{
    let n = chars.len();
    if k > n || n - k < p.len() {
        return false;
    }
    let mut j: usize = 0;
    while j < p.len()
        invariant
            n == chars@.len(),
            k + p@.len() <= n,
            j <= p@.len(),
            forall|t: int| 0 <= t < j ==> chars@[k + t] == p@[t],
        decreases p@.len() - j,
    {
        if chars[k + j] != p[j] {
            assert(chars@.subrange(k as int, k + p@.len())[j as int] != p@[j as int]);
            return false;
        }
        j += 1;
    }
    assert(chars@.subrange(k as int, k + p@.len()) =~= p@);
    true
}

/// Find the end of a URL starting at `start`: its length in characters.
/// Stops at whitespace and characters that are unlikely to be part of a
/// URL, and drops trailing sentence punctuation.
fn find_url_end(chars: &[char], start: usize) -> (len: usize)
    requires
        start <= chars@.len(),
    ensures
        len == url_len(chars@, start as int),
        start + len <= chars@.len(),
{
    let n = chars.len();
    let mut i = start;
    let mut depth: usize = 0;
    proof {
        lemma_url_run_bounds(chars@, start as int, 0);
    }
    while i < n
        invariant
            n == chars@.len(),
            start <= i <= n,
            depth <= i - start,
            url_run(chars@, start as int, 0) == (i - start) + url_run(
                chars@,
                i as int,
                depth as int,
            ),
        ensures
            start <= i <= n,
            url_run(chars@, start as int, 0) == i - start,
        decreases n - i,
    {
        let c = chars[i];
        if c == ' ' || c == '\t' || c == '\n' || c == '\r' || c == '\0' || c == '<' || c == '>'
            || c == '"' || c == '\'' || c == '`' || c == '|' {
            break;
        }
        if c == '(' {
            depth += 1;
        } else if c == ')' {
            if depth == 0 {
                break;  // trailing paren, not part of URL
            }
            depth -= 1;
        }
        i += 1;
    }
    // Strip trailing punctuation that's likely sentence-ending
    let mut end = i - start;
    proof {
        lemma_trim_bounds(chars@, start as int, end as int);
    }
    while end > 0
        invariant
            start + end <= n,
            n == chars@.len(),
            trim_trailing(chars@, start as int, (i - start) as int) == trim_trailing(
                chars@,
                start as int,
                end as int,
            ),
        ensures
            start + end <= n,
            trim_trailing(chars@, start as int, (i - start) as int) == end,
        decreases end,
    {
        let c = chars[start + end - 1];
        if !(c == '.' || c == ',' || c == ';' || c == ':' || c == '!' || c == '?') {
            break;
        }
        end -= 1;
    }
    end
}

/// The number of bytes in the UTF-8 form of `chars[start..end]`.
fn utf8_byte_len(chars: &[char], start: usize, end: usize) -> (n: u128)
    requires
        start <= end <= chars@.len(),
    ensures
        n == encode_utf8(chars@.subrange(start as int, end as int)).len(),
{
    let mut total: u128 = 0;
    let mut k = start;
    assert(chars@.subrange(start as int, start as int) =~= Seq::<char>::empty());
    while k < end
        invariant
            start <= k <= end,
            end <= chars@.len(),
            total == encode_utf8(chars@.subrange(start as int, k as int)).len(),
            total <= 4 * (k - start),
        decreases end - k,
    {
        proof {
            assert(chars@.subrange(start as int, k + 1) =~= chars@.subrange(
                start as int,
                k as int,
            ).push(chars@[k as int]));
            lemma_encode_push(chars@.subrange(start as int, k as int), chars@[k as int]);
        }
        total = total + char_utf8_width(chars[k]) as u128;
        k += 1;
    }
    total
}

/// Scan a row of characters for URLs.
pub fn detect_urls(row_idx: usize, chars: &[char]) -> (links: Vec<Link>)
    ensures
        links@.len() == link_spans(chars@, 0).len(),
        forall|i: int|
            #![trigger links@[i]]
            0 <= i < links@.len() ==> {
                &&& links@[i].row == row_idx
                &&& links@[i].start_col == link_spans(chars@, 0)[i].0
                &&& links@[i].end_col == link_spans(chars@, 0)[i].1
                &&& links@[i].url@ == chars@.subrange(
                    link_spans(chars@, 0)[i].0,
                    link_spans(chars@, 0)[i].1,
                )
            },
{
    let mut links: Vec<Link> = Vec::new();
    let n = chars.len();
    let mut pos: usize = 0;
    let ghost mut found: Seq<(int, int)> = Seq::empty();
    while pos < n
        invariant
            n == chars@.len(),
            pos <= n,
            found + link_spans(chars@, pos as int) == link_spans(chars@, 0),
            links@.len() == found.len(),
            forall|i: int|
                #![trigger links@[i]]
                0 <= i < links@.len() ==> {
                    &&& links@[i].row == row_idx
                    &&& links@[i].start_col == found[i].0
                    &&& links@[i].end_col == found[i].1
                    &&& links@[i].url@ == chars@.subrange(found[i].0, found[i].1)
                },
        ensures
            found + link_spans(chars@, pos as int) == link_spans(chars@, 0),
            link_spans(chars@, pos as int).len() == 0,
            links@.len() == found.len(),
            forall|i: int|
                #![trigger links@[i]]
                0 <= i < links@.len() ==> {
                    &&& links@[i].row == row_idx
                    &&& links@[i].start_col == found[i].0
                    &&& links@[i].end_col == found[i].1
                    &&& links@[i].url@ == chars@.subrange(found[i].0, found[i].1)
                },
        decreases n - pos,
    {
        // Look for scheme-based URLs
        match find_url_start(chars, pos) {
            Some(start) => {
                proof {
                    lemma_start_found(chars@, pos as int);
                    lemma_url_len_bounds(chars@, start as int);
                }
                let end = find_url_end(chars, start);
                let bytes = utf8_byte_len(chars, start, start + end);
                let ghost old_links = links@;
                if bytes > 8 {
                    // Minimum meaningful URL length
                    let url = chars_to_string(vstd::slice::slice_subrange(chars, start, start + end));
                    links.push(Link { row: row_idx, start_col: start, end_col: start + end, url });
                    proof {
                        let nf = found.push((start as int, start + end));
                        assert forall|i: int| 0 <= i < links@.len() implies {
                            &&& links@[i].row == row_idx
                            &&& links@[i].start_col == nf[i].0
                            &&& links@[i].end_col == nf[i].1
                            &&& links@[i].url@ == chars@.subrange(nf[i].0, nf[i].1)
                        } by {
                            if i < found.len() {
                                assert(links@[i] == old_links[i]);
                                assert(nf[i] == found[i]);
                            } else {
                                assert(i == found.len());
                                assert(nf[i] == (start as int, start + end));
                            }
                        }
                        assert(found.push((start as int, start + end)) + link_spans(
                            chars@,
                            start + end,
                        ) =~= found + link_spans(chars@, pos as int));
                        found = found.push((start as int, start + end));
                    }
                } else {
                    assert(found + link_spans(chars@, start + end) == found + link_spans(
                        chars@,
                        pos as int,
                    ));
                }
                pos = start + end;
            },
            None => {
                assert(link_spans(chars@, pos as int) =~= Seq::<(int, int)>::empty());
                break;
            },
        }
    }
    proof {
        if pos >= n {
            assert(link_spans(chars@, pos as int) =~= Seq::<(int, int)>::empty());
        }
        assert(found =~= link_spans(chars@, 0));
    }
    links
}

} // verus!
