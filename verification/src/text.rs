//! Small text utilities: decimal digits, UTF-8 encoding of a character,
//! character sequences of strings, and the conversions from bytes and
//! characters to `String`.
use vstd::prelude::*;
use vstd::utf8::*;

verus! {

/// ASCII decimal digits of `n`, most significant first, no leading zeros.
pub open spec fn decimal(n: nat) -> Seq<u8>
    decreases n,
{
    if n < 10 {
        seq![(48 + n) as u8]
    } else {
        decimal(n / 10).push((48 + n % 10) as u8)
    }
}

/// ASCII decimal digits of a signed number, with a leading `-` when negative.
pub open spec fn signed_decimal(n: int) -> Seq<u8> {
    if n < 0 {
        seq![45u8] + decimal((-n) as nat)
    } else {
        decimal(n as nat)
    }
}

/// Appends the decimal digits of `n` to `out`.
pub fn push_decimal(out: &mut Vec<u8>, n: u64)
    ensures
        final(out)@ == old(out)@ + decimal(n as nat),
    decreases n,
{
    if n >= 10 {
        push_decimal(out, n / 10);
    }
    let d: u8 = (n % 10) as u8;
    out.push(48 + d);
    proof {
        if n < 10 {
            assert(decimal(n as nat) == seq![(48 + n) as u8]);
        }
    }
    assert(out@ =~= old(out)@ + decimal(n as nat));
}

/// Appends the decimal digits of `n` as characters.
pub fn push_decimal_chars(out: &mut Vec<char>, n: u64)
    ensures
        final(out)@ == old(out)@ + decimal(n as nat).map_values(|x: u8| x as char),
{
    let mut digits: Vec<u8> = Vec::new();
    push_decimal(&mut digits, n);
    let mut i: usize = 0;
    let ghost start = out@;
    while i < digits.len()
        invariant
            i <= digits@.len(),
            digits@ == decimal(n as nat),
            out@ == start + digits@.take(i as int).map_values(|x: u8| x as char),
        decreases digits@.len() - i,
    {
        out.push(digits[i] as char);
        i += 1;
        assert(digits@.take(i as int).map_values(|x: u8| x as char) =~= digits@.take(
            (i - 1) as int,
        ).map_values(|x: u8| x as char).push(digits@[i - 1] as char));
    }
    assert(digits@.take(i as int) =~= digits@);
}

/// Appends the decimal digits of a signed number to `out`.
pub fn push_signed_decimal(out: &mut Vec<u8>, n: i64)
    ensures
        final(out)@ == old(out)@ + signed_decimal(n as int),
{
    if n < 0 {
        out.push(45);
        let wide: i128 = n as i128;
        let magnitude: u64 = (-wide) as u64;
        push_decimal(out, magnitude);
        assert(out@ =~= old(out)@ + signed_decimal(n as int));
    } else {
        push_decimal(out, n as u64);
    }
}

/// The number of bytes in the UTF-8 encoding of `c`.
pub open spec fn utf8_width(c: char) -> nat {
    encode_scalar(c as u32).len()
}

/// The UTF-8 encoding of a character.
pub fn encode_char(c: char) -> (bytes: Vec<u8>)
    ensures
        bytes@ == encode_utf8(seq![c]),
{
    let v: u32 = c as u32;
    let mut out: Vec<u8> = Vec::new();
    if v <= 0x7F {
        out.push((v & 0x7F) as u8);
    } else if v <= 0x7FF {
        out.push(0xC0 | ((v >> 6) & 0x1F) as u8);
        out.push(0x80 | (v & 0x3F) as u8);
    } else if v <= 0xFFFF {
        out.push(0xE0 | ((v >> 12) & 0x0F) as u8);
        out.push(0x80 | ((v >> 6) & 0x3F) as u8);
        out.push(0x80 | (v & 0x3F) as u8);
    } else {
        out.push(0xF0 | ((v >> 18) & 0x7) as u8);
        out.push(0x80 | ((v >> 12) & 0x3F) as u8);
        out.push(0x80 | ((v >> 6) & 0x3F) as u8);
        out.push(0x80 | (v & 0x3F) as u8);
    }
    proof {
        char_is_scalar(c);
        let s = seq![c];
        assert(s.drop_first() =~= Seq::<char>::empty());
        assert(encode_utf8(s) == encode_scalar(v) + encode_utf8(s.drop_first()));
        assert(out@ =~= encode_scalar(v));
        assert(encode_scalar(v) + Seq::<u8>::empty() =~= encode_scalar(v));
    }
    out
}

/// The number of bytes in the UTF-8 encoding of a character.
pub fn char_utf8_width(c: char) -> (n: usize)
    ensures
        n == utf8_width(c),
        1 <= n <= 4,
{
    let v: u32 = c as u32;
    proof {
        char_is_scalar(c);
    }
    if v <= 0x7F {
        1
    } else if v <= 0x7FF {
        2
    } else if v <= 0xFFFF {
        3
    } else {
        4
    }
}

/// The characters of a string slice.
pub fn str_chars(s: &str) -> (chars: Vec<char>)
    ensures
        chars@ == s@,
{
    let mut chars: Vec<char> = Vec::new();
    for c in it: s.chars()
        invariant
            it.seq() == s@,
            chars@ == it.seq().take(it.index() as int),
    {
        chars.push(c);
    }
    assert(chars@ =~= s@);
    chars
}

/// Whether the characters `text` spell out the string `lit`.
pub fn chars_match_str(text: &[char], lit: &str) -> (same: bool)
    ensures
        same == (text@ == lit@),
{
    let want = str_chars(lit);
    if text.len() != want.len() {
        return false;
    }
    let mut i: usize = 0;
    while i < text.len()
        invariant
            text@.len() == want@.len(),
            want@ == lit@,
            i <= text@.len(),
            forall|k: int| 0 <= k < i ==> text@[k] == want@[k],
        decreases text@.len() - i,
    {
        if text[i] != want[i] {
            return false;
        }
        i += 1;
    }
    assert(text@ =~= want@);
    true
}

/// Appending a character adds its UTF-8 width to the encoded length.
pub proof fn lemma_encode_push(s: Seq<char>, c: char)
    ensures
        encode_utf8(s.push(c)).len() == encode_utf8(s).len() + utf8_width(c),
    decreases s.len(),
{
    reveal_with_fuel(encode_utf8, 2);
    if s.len() == 0 {
        assert(s.push(c).drop_first() =~= Seq::<char>::empty());
        assert(s.push(c)[0] == c);
        assert(encode_utf8(Seq::<char>::empty()) == Seq::<u8>::empty());
    } else {
        assert(s.push(c)[0] == s[0]);
        assert(s.push(c).drop_first() =~= s.drop_first().push(c));
        lemma_encode_push(s.drop_first(), c);
    }
}

/// How many characters of `s` fit in `max` bytes of UTF-8, counting on
/// from the first `i` (which are taken to fit).
pub open spec fn fit_len(s: Seq<char>, max: int, i: int) -> int
    decreases s.len() - i,
{
    if 0 <= i < s.len() && encode_utf8(s.take(i + 1)).len() <= max {
        fit_len(s, max, i + 1)
    } else {
        i
    }
}

/// The longest prefix of `s` whose UTF-8 encoding is at most `max` bytes.
pub open spec fn utf8_prefix(s: Seq<char>, max: int) -> Seq<char> {
    s.take(fit_len(s, max, 0))
}

proof fn lemma_fit_len_fits(s: Seq<char>, max: int, i: int)
    requires
        0 <= i <= s.len(),
        encode_utf8(s.take(i)).len() <= max,
    ensures
        i <= fit_len(s, max, i) <= s.len(),
        encode_utf8(s.take(fit_len(s, max, i))).len() <= max,
    decreases s.len() - i,
{
    if i < s.len() && encode_utf8(s.take(i + 1)).len() <= max {
        lemma_fit_len_fits(s, max, i + 1);
    }
}

proof fn lemma_encode_prefix_grows(s: Seq<char>, j: int)
    requires
        0 <= j <= s.len(),
    ensures
        encode_utf8(s.take(j)).len() <= encode_utf8(s).len(),
    decreases s.len() - j,
{
    if j < s.len() {
        lemma_encode_prefix_grows(s, j + 1);
        assert(s.take(j + 1) =~= s.take(j).push(s[j]));
        lemma_encode_push(s.take(j), s[j]);
    } else {
        assert(s.take(j) =~= s);
    }
}

proof fn lemma_fit_len_all(s: Seq<char>, max: int, i: int)
    requires
        0 <= i <= s.len(),
        encode_utf8(s).len() <= max,
    ensures
        fit_len(s, max, i) == s.len(),
    decreases s.len() - i,
{
    if i < s.len() {
        lemma_encode_prefix_grows(s, i + 1);
        lemma_fit_len_all(s, max, i + 1);
    }
}

/// The prefix fits in `max` bytes, and text that already fits is kept whole.
pub proof fn lemma_utf8_prefix(s: Seq<char>, max: int)
    requires
        0 <= max,
    ensures
        encode_utf8(utf8_prefix(s, max)).len() <= max,
        encode_utf8(s).len() <= max ==> utf8_prefix(s, max) == s,
{
    assert(s.take(0) =~= Seq::<char>::empty());
    assert(encode_utf8(Seq::<char>::empty()) =~= Seq::<u8>::empty());
    lemma_fit_len_fits(s, max, 0);
    if encode_utf8(s).len() <= max {
        lemma_fit_len_all(s, max, 0);
        assert(s.take(s.len() as int) =~= s);
    }
}

/// The longest prefix of `chars` whose UTF-8 form is at most `max` bytes.
pub fn utf8_truncate(chars: &[char], max: usize) -> (out: Vec<char>)
    ensures
        out@ == utf8_prefix(chars@, max as int),
{
    let mut out: Vec<char> = Vec::new();
    let mut used: usize = 0;
    let mut i: usize = 0;
    proof {
        assert(chars@.take(0) =~= Seq::<char>::empty());
        assert(encode_utf8(Seq::<char>::empty()) =~= Seq::<u8>::empty());
    }
    while i < chars.len()
        invariant
            i <= chars@.len(),
            out@ == chars@.take(i as int),
            used == encode_utf8(chars@.take(i as int)).len(),
            used <= max,
            fit_len(chars@, max as int, 0) == fit_len(chars@, max as int, i as int),
        decreases chars@.len() - i,
    {
        let w = char_utf8_width(chars[i]);
        proof {
            assert(chars@.take(i + 1) =~= chars@.take(i as int).push(chars@[i as int]));
            lemma_encode_push(chars@.take(i as int), chars@[i as int]);
        }
        if w > max - used {
            return out;
        }
        out.push(chars[i]);
        used = used + w;
        i += 1;
        assert(out@ =~= chars@.take(i as int));
    }
    out
}

/// Appends one character to a string (`String::push`). Trusted: the
/// string's characters afterwards are the old ones followed by `c`.
#[verifier::external_body]
fn push_char(s: &mut String, c: char)
    ensures
        final(s)@ == old(s)@.push(c),
{
    s.push(c);
}

/// A `String` holding exactly the given characters, in order.
pub fn chars_to_string(chars: &[char]) -> (s: String)
    ensures
        s@ == chars@,
{
    let mut s = String::new();
    let mut i: usize = 0;
    while i < chars.len()
        invariant
            i <= chars@.len(),
            s@ == chars@.take(i as int),
        decreases chars@.len() - i,
    {
        push_char(&mut s, chars[i]);
        i += 1;
        assert(s@ =~= chars@.take(i as int));
    }
    assert(chars@.take(i as int) =~= chars@);
    s
}

/// What `String::from_utf8_lossy` makes of a byte sequence: the decoded
/// characters, with each maximal invalid sequence replaced by U+FFFD.
pub uninterp spec fn utf8_lossy(bytes: Seq<u8>) -> Seq<char>;

/// Decodes bytes as UTF-8, replacing invalid sequences
/// (`String::from_utf8_lossy`, then `Cow::into_owned`). Trusted: the result
/// is `utf8_lossy` of the bytes, and for valid UTF-8 it is exactly the
/// decoded text, as the std documentation states.
#[verifier::external_body]
pub(crate) fn string_from_utf8_lossy(bytes: &[u8]) -> (s: String)
    ensures
        s@ == utf8_lossy(bytes@),
        valid_utf8(bytes@) ==> s@ == decode_utf8(bytes@),
{
    String::from_utf8_lossy(bytes).into_owned()
}

/// The display width `UnicodeWidthChar::width` (unicode-width) gives a
/// character, in columns; nothing for a control character.
pub uninterp spec fn display_width(c: char) -> Option<usize>;

/// The display width of a character (`UnicodeWidthChar::width`). Trusted:
/// the result is `display_width(c)`; it is `None` exactly for the control
/// characters U+0000–U+001F and U+007F–U+009F, and 1 for printable ASCII,
/// as the crate's source shows. The widths of other characters come from
/// the crate's Unicode tables and are not stated.
#[verifier::external_body]
pub(crate) fn char_display_width(c: char) -> (w: Option<usize>)
    ensures
        w == display_width(c),
        w is None <==> (c <= '\u{1f}' || ('\u{7f}' <= c && c <= '\u{9f}')),
        (' ' <= c && c <= '~') ==> w == Some(1usize),
{
    unicode_width::UnicodeWidthChar::width(c)
}

} // verus!
