//! Keyboard input → escape sequence mapping.
use vstd::prelude::*;
use vstd::utf8::encode_utf8;

use crate::text::{chars_match_str, encode_char, str_chars};

verus! {

/// With Alt held, output is prefixed with ESC.
pub open spec fn with_alt(alt: bool, bytes: Seq<u8>) -> Seq<u8> {
    if alt {
        seq![0x1bu8] + bytes
    } else {
        bytes
    }
}

pub open spec fn is_ascii_letter(c: char) -> bool {
    ('a' <= c && c <= 'z') || ('A' <= c && c <= 'Z')
}

pub open spec fn is_ascii_letter_or_digit(c: char) -> bool {
    is_ascii_letter(c) || ('0' <= c && c <= '9')
}

/// Unicode general category Cc: U+0000–U+001F and U+007F–U+009F.
pub open spec fn is_control(c: char) -> bool {
    c <= '\u{1f}' || ('\u{7f}' <= c && c <= '\u{9f}')
}

/// Ctrl+letter: the C0 code 0x01–0x1A of the letter, either case.
pub open spec fn ctrl_letter_code(c: char) -> u8 {
    if 'a' <= c && c <= 'z' {
        (c as u32 - 96) as u8
    } else {
        (c as u32 - 64) as u8
    }
}

/// Ctrl with a non-letter: the C0 codes reachable from the keyboard.
pub open spec fn ctrl_symbol_code(c: char) -> Option<u8> {
    if c == '[' || c == '3' {
        Some(0x1b)  // ESC
    } else if c == '\\' || c == '4' {
        Some(0x1c)  // FS
    } else if c == ']' || c == '5' {
        Some(0x1d)  // GS
    } else if c == '6' {
        Some(0x1e)  // RS
    } else if c == '/' || c == '7' {
        Some(0x1f)  // US
    } else if c == ' ' || c == '2' || c == '@' {
        Some(0x00)  // NUL
    } else {
        None
    }
}

/// Arrow key encoding: SS3 in application cursor mode, CSI otherwise.
pub open spec fn arrow_bytes(code: u8, app_cursor: bool) -> Seq<u8> {
    if app_cursor {
        seq![0x1bu8, 0x4f, code]
    } else {
        seq![0x1bu8, 0x5b, code]
    }
}

/// The bytes of a named (non-character) key, before any Alt prefix.
pub open spec fn named_key_bytes(key: Seq<char>, ctrl: bool, app_cursor: bool) -> Option<Seq<u8>> {
    if key == "Enter"@ {
        Some(seq![0x0du8])
    } else if key == "Backspace"@ {
        Some(
            if ctrl {
                seq![0x08u8]
            } else {
                seq![0x7fu8]
            },
        )
    } else if key == "Tab"@ {
        Some(seq![0x09u8])
    } else if key == "Escape"@ {
        Some(seq![0x1bu8])
    } else if key == "Delete"@ {
        Some(seq![0x1bu8, 0x5b, 0x33, 0x7e])
    } else if key == "ArrowUp"@ {
        Some(arrow_bytes(0x41, app_cursor))
    } else if key == "ArrowDown"@ {
        Some(arrow_bytes(0x42, app_cursor))
    } else if key == "ArrowRight"@ {
        Some(arrow_bytes(0x43, app_cursor))
    } else if key == "ArrowLeft"@ {
        Some(arrow_bytes(0x44, app_cursor))
    } else if key == "Home"@ {
        Some(seq![0x1bu8, 0x5b, 0x48])
    } else if key == "End"@ {
        Some(seq![0x1bu8, 0x5b, 0x46])
    } else if key == "PageUp"@ {
        Some(seq![0x1bu8, 0x5b, 0x35, 0x7e])
    } else if key == "PageDown"@ {
        Some(seq![0x1bu8, 0x5b, 0x36, 0x7e])
    } else if key == "Insert"@ {
        Some(seq![0x1bu8, 0x5b, 0x32, 0x7e])
    } else if key == "F1"@ {
        Some(seq![0x1bu8, 0x4f, 0x50])
    } else if key == "F2"@ {
        Some(seq![0x1bu8, 0x4f, 0x51])
    } else if key == "F3"@ {
        Some(seq![0x1bu8, 0x4f, 0x52])
    } else if key == "F4"@ {
        Some(seq![0x1bu8, 0x4f, 0x53])
    } else if key == "F5"@ {
        Some(seq![0x1bu8, 0x5b, 0x31, 0x35, 0x7e])
    } else if key == "F6"@ {
        Some(seq![0x1bu8, 0x5b, 0x31, 0x37, 0x7e])
    } else if key == "F7"@ {
        Some(seq![0x1bu8, 0x5b, 0x31, 0x38, 0x7e])
    } else if key == "F8"@ {
        Some(seq![0x1bu8, 0x5b, 0x31, 0x39, 0x7e])
    } else if key == "F9"@ {
        Some(seq![0x1bu8, 0x5b, 0x32, 0x30, 0x7e])
    } else if key == "F10"@ {
        Some(seq![0x1bu8, 0x5b, 0x32, 0x31, 0x7e])
    } else if key == "F11"@ {
        Some(seq![0x1bu8, 0x5b, 0x32, 0x33, 0x7e])
    } else if key == "F12"@ {
        Some(seq![0x1bu8, 0x5b, 0x32, 0x34, 0x7e])
    } else {
        None
    }
}

/// What a key press sends to the terminal.
///
/// A dead key sends nothing. A single character: with Ctrl, a letter gives
/// its C0 code (ESC-prefixed with Alt) and a few symbols give fixed codes;
/// without Ctrl, any character but a C1 control is sent as UTF-8, ESC-prefixed
/// with Alt only for ASCII letters and digits (other Alt characters are
/// composed characters). Named keys have fixed sequences, ESC-prefixed with Alt.
pub open spec fn key_bytes(key: Seq<char>, ctrl: bool, alt: bool, app_cursor: bool) -> Option<
    Seq<u8>,
> {
    if key == "Dead"@ {
        None
    } else if key.len() == 1 {
        let c = key[0];
        if ctrl {
            if is_ascii_letter(c) {
                Some(with_alt(alt, seq![ctrl_letter_code(c)]))
            } else {
                match ctrl_symbol_code(c) {
                    Some(b) => Some(seq![b]),
                    None => None,
                }
            }
        } else if (c as u32) < 128 || !is_control(c) {
            if alt && !is_ascii_letter_or_digit(c) {
                Some(encode_utf8(seq![c]))
            } else {
                Some(with_alt(alt, encode_utf8(seq![c])))
            }
        } else {
            None
        }
    } else {
        match named_key_bytes(key, ctrl, app_cursor) {
            Some(b) => Some(with_alt(alt, b)),
            None => None,
        }
    }
}

fn wrap_alt(alt: bool, bytes: Vec<u8>) -> (out: Vec<u8>)
    ensures
        out@ == with_alt(alt, bytes@),
{
    if alt {
        let mut out = vec![0x1b];
        let mut i: usize = 0;
        while i < bytes.len()
            invariant
                i <= bytes@.len(),
                out@ == seq![0x1bu8] + bytes@.take(i as int),
            decreases bytes@.len() - i,
        {
            out.push(bytes[i]);
            i += 1;
            assert(out@ =~= seq![0x1bu8] + bytes@.take(i as int));
        }
        assert(bytes@.take(i as int) =~= bytes@);
        out
    } else {
        bytes
    }
}

/// Arrow key encoding — normal mode vs application cursor mode (DECCKM).
fn arrow_key(code: u8, app_cursor: bool) -> (bytes: Vec<u8>)
    ensures
        bytes@ == arrow_bytes(code, app_cursor),
{
    if app_cursor {
        vec![0x1b, 0x4f, code]  // SS3

    } else {
        vec![0x1b, 0x5b, code]  // CSI

    }
}

fn named_key(key: &[char], ctrl: bool, app_cursor: bool) -> (bytes: Option<Vec<u8>>)
    ensures
        match bytes {
            Some(b) => named_key_bytes(key@, ctrl, app_cursor) == Some(b@),
            None => named_key_bytes(key@, ctrl, app_cursor) is None,
        },
{
    let r = if chars_match_str(key, "Enter") {
        vec![0x0d]
    } else if chars_match_str(key, "Backspace") {
        if ctrl {
            vec![0x08]
        } else {
            vec![0x7f]
        }
    } else if chars_match_str(key, "Tab") {
        vec![0x09]
    } else if chars_match_str(key, "Escape") {
        vec![0x1b]
    } else if chars_match_str(key, "Delete") {
        vec![0x1b, 0x5b, 0x33, 0x7e]
    } else if chars_match_str(key, "ArrowUp") {
        arrow_key(0x41, app_cursor)
    } else if chars_match_str(key, "ArrowDown") {
        arrow_key(0x42, app_cursor)
    } else if chars_match_str(key, "ArrowRight") {
        arrow_key(0x43, app_cursor)
    } else if chars_match_str(key, "ArrowLeft") {
        arrow_key(0x44, app_cursor)
    } else if chars_match_str(key, "Home") {
        vec![0x1b, 0x5b, 0x48]
    } else if chars_match_str(key, "End") {
        vec![0x1b, 0x5b, 0x46]
    } else if chars_match_str(key, "PageUp") {
        vec![0x1b, 0x5b, 0x35, 0x7e]
    } else if chars_match_str(key, "PageDown") {
        vec![0x1b, 0x5b, 0x36, 0x7e]
    } else if chars_match_str(key, "Insert") {
        vec![0x1b, 0x5b, 0x32, 0x7e]
    } else if chars_match_str(key, "F1") {
        vec![0x1b, 0x4f, 0x50]
    } else if chars_match_str(key, "F2") {
        vec![0x1b, 0x4f, 0x51]
    } else if chars_match_str(key, "F3") {
        vec![0x1b, 0x4f, 0x52]
    } else if chars_match_str(key, "F4") {
        vec![0x1b, 0x4f, 0x53]
    } else if chars_match_str(key, "F5") {
        vec![0x1b, 0x5b, 0x31, 0x35, 0x7e]
    } else if chars_match_str(key, "F6") {
        vec![0x1b, 0x5b, 0x31, 0x37, 0x7e]
    } else if chars_match_str(key, "F7") {
        vec![0x1b, 0x5b, 0x31, 0x38, 0x7e]
    } else if chars_match_str(key, "F8") {
        vec![0x1b, 0x5b, 0x31, 0x39, 0x7e]
    } else if chars_match_str(key, "F9") {
        vec![0x1b, 0x5b, 0x32, 0x30, 0x7e]
    } else if chars_match_str(key, "F10") {
        vec![0x1b, 0x5b, 0x32, 0x31, 0x7e]
    } else if chars_match_str(key, "F11") {
        vec![0x1b, 0x5b, 0x32, 0x33, 0x7e]
    } else if chars_match_str(key, "F12") {
        vec![0x1b, 0x5b, 0x32, 0x34, 0x7e]
    } else {
        // Modifier-only keys (Shift, Control, Alt, Meta, CapsLock, NumLock)
        // and unknown keys produce nothing.
        return None;
    };
    Some(r)
}

/// Encode a browser keyboard event into terminal escape sequence bytes.
///
/// `key` — the `KeyboardEvent.key` value (e.g. "a", "Enter", "ArrowUp")
/// `ctrl` — Ctrl key held
/// `alt` — Alt/Option key held
/// `shift` — Shift key held
/// `app_cursor` — application cursor mode (DECCKM) is active
///
/// Returns `None` for keys that don't produce terminal output (e.g. bare Shift).
pub fn encode_key(key: &str, ctrl: bool, alt: bool, _shift: bool, app_cursor: bool) -> (bytes:
    Option<Vec<u8>>)
    ensures
        match bytes {
            Some(b) => key_bytes(key@, ctrl, alt, app_cursor) == Some(b@),
            None => key_bytes(key@, ctrl, alt, app_cursor) is None,
        },
{
    let chars = str_chars(key);
    // Dead key (^, ~, `) — no character yet, wait for composition
    if chars_match_str(chars.as_slice(), "Dead") {
        return None;
    }
    // Single printable character
    if chars.len() == 1 {
        let c = chars[0];
        if ctrl {
            // Ctrl+letter → C0 control codes (0x01-0x1A)
            if ('a' <= c && c <= 'z') || ('A' <= c && c <= 'Z') {
                let v = c as u32;
                let code: u8 = if 'a' <= c && c <= 'z' {
                    (v - 96) as u8
                } else {
                    (v - 64) as u8
                };
                return Some(wrap_alt(alt, vec![code]));
            }
            // Ctrl+special
            return if c == '[' || c == '3' {
                Some(vec![0x1b])  // ESC
            } else if c == '\\' || c == '4' {
                Some(vec![0x1c])  // FS
            } else if c == ']' || c == '5' {
                Some(vec![0x1d])  // GS
            } else if c == '6' {
                Some(vec![0x1e])  // RS
            } else if c == '/' || c == '7' {
                Some(vec![0x1f])  // US
            } else if c == ' ' || c == '2' || c == '@' {
                Some(vec![0x00])  // NUL
            } else {
                None
            };
        }
        let v = c as u32;
        let control = c <= '\u{1f}' || ('\u{7f}' <= c && c <= '\u{9f}');
        if v < 128 || !control {
            let bytes = encode_char(c);
            // Alt+letter/digit = ESC prefix (terminal modifier: Alt+b, Alt+f, etc.)
            // Alt+anything else = composed character (AZERTY: |, ~, {, }, €) — no ESC
            let alnum = ('a' <= c && c <= 'z') || ('A' <= c && c <= 'Z') || ('0' <= c && c
                <= '9');
            if alt && !alnum {
                return Some(bytes);
            }
            return Some(wrap_alt(alt, bytes));
        }
        return None;
    }
    // Named keys
    match named_key(chars.as_slice(), ctrl, app_cursor) {
        Some(b) => Some(wrap_alt(alt, b)),
        None => None,
    }
}

/// Alt sends ESC before what the key sends without it, for named keys,
/// Ctrl+letter, and plain ASCII letters and digits.
pub proof fn lemma_alt_adds_escape(key: Seq<char>, ctrl: bool, app_cursor: bool)
    requires
        key != "Dead"@,
        key.len() != 1 || is_ascii_letter(key[0]) || (!ctrl && is_ascii_letter_or_digit(key[0])),
    ensures
        key_bytes(key, ctrl, true, app_cursor) == match key_bytes(key, ctrl, false, app_cursor) {
            Some(b) => Some(seq![0x1bu8] + b),
            None => None,
        },
{
}

/// A character typed with Alt that is not an ASCII letter or digit (a
/// composed character such as `|` or `€` on many layouts) is sent as it is.
pub proof fn lemma_alt_composed_unchanged(c: char, app_cursor: bool)
    requires
        !is_ascii_letter_or_digit(c),
    ensures
        key_bytes(seq![c], false, true, app_cursor) == key_bytes(seq![c], false, false, app_cursor),
{
    reveal_strlit("Dead");
    assert(seq![c] != "Dead"@) by {
        assert(seq![c].len() != "Dead"@.len());
    }
}

/// The xterm sequences of the named keys, whatever Ctrl and the cursor mode:
/// Home is `ESC [ H`, End `ESC [ F`, the arrows `ESC [ A`–`D` (`ESC O A`–`D`
/// in application cursor mode), F1–F4 `ESC O P`–`S`, F5–F12 `ESC [ n ~`,
/// and so on; Backspace sends DEL, or BS with Ctrl.
pub proof fn lemma_named_key_sequences(ctrl: bool, app_cursor: bool)
    ensures
        key_bytes("Enter"@, ctrl, false, app_cursor) == Some(seq![0x0du8]),
        key_bytes("Backspace"@, false, false, app_cursor) == Some(seq![0x7fu8]),
        key_bytes("Backspace"@, true, false, app_cursor) == Some(seq![0x08u8]),
        key_bytes("Tab"@, ctrl, false, app_cursor) == Some(seq![0x09u8]),
        key_bytes("Escape"@, ctrl, false, app_cursor) == Some(seq![0x1bu8]),
        key_bytes("Delete"@, ctrl, false, app_cursor) == Some(seq![0x1bu8, 0x5b, 0x33, 0x7e]),
        key_bytes("Home"@, ctrl, false, app_cursor) == Some(seq![0x1bu8, 0x5b, 0x48]),
        key_bytes("End"@, ctrl, false, app_cursor) == Some(seq![0x1bu8, 0x5b, 0x46]),
        key_bytes("PageUp"@, ctrl, false, app_cursor) == Some(seq![0x1bu8, 0x5b, 0x35, 0x7e]),
        key_bytes("PageDown"@, ctrl, false, app_cursor) == Some(seq![0x1bu8, 0x5b, 0x36, 0x7e]),
        key_bytes("Insert"@, ctrl, false, app_cursor) == Some(seq![0x1bu8, 0x5b, 0x32, 0x7e]),
        key_bytes("F1"@, ctrl, false, app_cursor) == Some(seq![0x1bu8, 0x4f, 0x50]),
        key_bytes("F2"@, ctrl, false, app_cursor) == Some(seq![0x1bu8, 0x4f, 0x51]),
        key_bytes("F3"@, ctrl, false, app_cursor) == Some(seq![0x1bu8, 0x4f, 0x52]),
        key_bytes("F4"@, ctrl, false, app_cursor) == Some(seq![0x1bu8, 0x4f, 0x53]),
        key_bytes("F5"@, ctrl, false, app_cursor) == Some(seq![0x1bu8, 0x5b, 0x31, 0x35, 0x7e]),
        key_bytes("F6"@, ctrl, false, app_cursor) == Some(seq![0x1bu8, 0x5b, 0x31, 0x37, 0x7e]),
        key_bytes("F7"@, ctrl, false, app_cursor) == Some(seq![0x1bu8, 0x5b, 0x31, 0x38, 0x7e]),
        key_bytes("F8"@, ctrl, false, app_cursor) == Some(seq![0x1bu8, 0x5b, 0x31, 0x39, 0x7e]),
        key_bytes("F9"@, ctrl, false, app_cursor) == Some(seq![0x1bu8, 0x5b, 0x32, 0x30, 0x7e]),
        key_bytes("F10"@, ctrl, false, app_cursor) == Some(seq![0x1bu8, 0x5b, 0x32, 0x31, 0x7e]),
        key_bytes("F11"@, ctrl, false, app_cursor) == Some(seq![0x1bu8, 0x5b, 0x32, 0x33, 0x7e]),
        key_bytes("F12"@, ctrl, false, app_cursor) == Some(seq![0x1bu8, 0x5b, 0x32, 0x34, 0x7e]),
        key_bytes("ArrowUp"@, ctrl, false, false) == Some(seq![0x1bu8, 0x5b, 0x41]),
        key_bytes("ArrowUp"@, ctrl, false, true) == Some(seq![0x1bu8, 0x4f, 0x41]),
        key_bytes("ArrowDown"@, ctrl, false, false) == Some(seq![0x1bu8, 0x5b, 0x42]),
        key_bytes("ArrowDown"@, ctrl, false, true) == Some(seq![0x1bu8, 0x4f, 0x42]),
        key_bytes("ArrowRight"@, ctrl, false, false) == Some(seq![0x1bu8, 0x5b, 0x43]),
        key_bytes("ArrowRight"@, ctrl, false, true) == Some(seq![0x1bu8, 0x4f, 0x43]),
        key_bytes("ArrowLeft"@, ctrl, false, false) == Some(seq![0x1bu8, 0x5b, 0x44]),
        key_bytes("ArrowLeft"@, ctrl, false, true) == Some(seq![0x1bu8, 0x4f, 0x44]),
{
    reveal_strlit("Dead");
    reveal_strlit("Enter");
    reveal_strlit("Backspace");
    reveal_strlit("Tab");
    reveal_strlit("Escape");
    reveal_strlit("Delete");
    reveal_strlit("ArrowUp");
    reveal_strlit("ArrowDown");
    reveal_strlit("ArrowRight");
    reveal_strlit("ArrowLeft");
    reveal_strlit("Home");
    reveal_strlit("End");
    reveal_strlit("PageUp");
    reveal_strlit("PageDown");
    reveal_strlit("Insert");
    reveal_strlit("F1");
    reveal_strlit("F2");
    reveal_strlit("F3");
    reveal_strlit("F4");
    reveal_strlit("F5");
    reveal_strlit("F6");
    reveal_strlit("F7");
    reveal_strlit("F8");
    reveal_strlit("F9");
    reveal_strlit("F10");
    reveal_strlit("F11");
    reveal_strlit("F12");
    assert("Delete"@[0] != "Escape"@[0]);
    assert("ArrowDown"@[0] != "Backspace"@[0]);
    assert("ArrowLeft"@[0] != "Backspace"@[0]);
    assert("ArrowLeft"@[5] != "ArrowDown"@[5]);
    assert("Home"@[0] != "Dead"@[0]);
    assert("End"@[0] != "Tab"@[0]);
    assert("PageUp"@[0] != "Escape"@[0]);
    assert("PageUp"@[0] != "Delete"@[0]);
    assert("Insert"@[0] != "Escape"@[0]);
    assert("Insert"@[0] != "Delete"@[0]);
    assert("Insert"@[0] != "PageUp"@[0]);
    assert("F2"@[1] != "F1"@[1]);
    assert("F3"@[1] != "F1"@[1]);
    assert("F3"@[1] != "F2"@[1]);
    assert("F4"@[1] != "F1"@[1]);
    assert("F4"@[1] != "F2"@[1]);
    assert("F4"@[1] != "F3"@[1]);
    assert("F5"@[1] != "F1"@[1]);
    assert("F5"@[1] != "F2"@[1]);
    assert("F5"@[1] != "F3"@[1]);
    assert("F5"@[1] != "F4"@[1]);
    assert("F6"@[1] != "F1"@[1]);
    assert("F6"@[1] != "F2"@[1]);
    assert("F6"@[1] != "F3"@[1]);
    assert("F6"@[1] != "F4"@[1]);
    assert("F6"@[1] != "F5"@[1]);
    assert("F7"@[1] != "F1"@[1]);
    assert("F7"@[1] != "F2"@[1]);
    assert("F7"@[1] != "F3"@[1]);
    assert("F7"@[1] != "F4"@[1]);
    assert("F7"@[1] != "F5"@[1]);
    assert("F7"@[1] != "F6"@[1]);
    assert("F8"@[1] != "F1"@[1]);
    assert("F8"@[1] != "F2"@[1]);
    assert("F8"@[1] != "F3"@[1]);
    assert("F8"@[1] != "F4"@[1]);
    assert("F8"@[1] != "F5"@[1]);
    assert("F8"@[1] != "F6"@[1]);
    assert("F8"@[1] != "F7"@[1]);
    assert("F9"@[1] != "F1"@[1]);
    assert("F9"@[1] != "F2"@[1]);
    assert("F9"@[1] != "F3"@[1]);
    assert("F9"@[1] != "F4"@[1]);
    assert("F9"@[1] != "F5"@[1]);
    assert("F9"@[1] != "F6"@[1]);
    assert("F9"@[1] != "F7"@[1]);
    assert("F9"@[1] != "F8"@[1]);
    assert("F10"@[0] != "Tab"@[0]);
    assert("F10"@[0] != "End"@[0]);
    assert("F11"@[0] != "Tab"@[0]);
    assert("F11"@[0] != "End"@[0]);
    assert("F11"@[2] != "F10"@[2]);
    assert("F12"@[0] != "Tab"@[0]);
    assert("F12"@[0] != "End"@[0]);
    assert("F12"@[2] != "F10"@[2]);
    assert("F12"@[2] != "F11"@[2]);
}

/// Ctrl with a letter sends the letter's position in the alphabet (1 for A,
/// 26 for Z), whatever its case.
pub proof fn lemma_ctrl_letter(c: char, app_cursor: bool)
    requires
        ('a' <= c && c <= 'z') || ('A' <= c && c <= 'Z'),
    ensures
        key_bytes(seq![c], true, false, app_cursor) == Some(seq![(c as u32 % 32) as u8]),
        1 <= (c as u32 % 32) <= 26,
{
    reveal_strlit("Dead");
    assert(seq![c].len() != "Dead"@.len());
}

/// A single character typed without Ctrl or Alt is sent as its UTF-8 bytes,
/// unless it is a C1 control character (U+0080–U+009F), which is not sent.
pub proof fn lemma_plain_character(c: char, app_cursor: bool)
    ensures
        !('\u{80}' <= c && c <= '\u{9f}') ==> key_bytes(seq![c], false, false, app_cursor) == Some(
            encode_utf8(seq![c]),
        ),
        ('\u{80}' <= c && c <= '\u{9f}') ==> key_bytes(seq![c], false, false, app_cursor) is None,
{
    reveal_strlit("Dead");
    assert(seq![c].len() != "Dead"@.len());
}

} // verus!
