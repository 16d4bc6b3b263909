use crytter::encode_key;

#[test]
fn printable_char() {
    assert_eq!(encode_key("a", false, false, false, false), Some(vec![b'a']));
    assert_eq!(encode_key("Z", false, false, false, false), Some(vec![b'Z']));
}

#[test]
fn ctrl_c() {
    assert_eq!(encode_key("c", true, false, false, false), Some(vec![0x03]));
}

#[test]
fn ctrl_a() {
    assert_eq!(encode_key("a", true, false, false, false), Some(vec![0x01]));
}

#[test]
fn enter() {
    assert_eq!(encode_key("Enter", false, false, false, false), Some(vec![0x0d]));
}

#[test]
fn backspace() {
    assert_eq!(encode_key("Backspace", false, false, false, false), Some(vec![0x7f]));
}

#[test]
fn arrow_keys_normal() {
    assert_eq!(encode_key("ArrowUp", false, false, false, false), Some(vec![0x1b, b'[', b'A']));
}

#[test]
fn arrow_keys_app_cursor() {
    assert_eq!(encode_key("ArrowUp", false, false, false, true), Some(vec![0x1b, b'O', b'A']));
}

#[test]
fn alt_wraps_with_esc() {
    assert_eq!(encode_key("a", false, true, false, false), Some(vec![0x1b, b'a']));
}

#[test]
fn function_keys() {
    assert_eq!(encode_key("F1", false, false, false, false), Some(vec![0x1b, b'O', b'P']));
    assert_eq!(
        encode_key("F12", false, false, false, false),
        Some(vec![0x1b, b'[', b'2', b'4', b'~'])
    );
}

#[test]
fn modifier_only_returns_none() {
    assert_eq!(encode_key("Shift", false, false, true, false), None);
    assert_eq!(encode_key("Control", true, false, false, false), None);
    assert_eq!(encode_key("Alt", false, true, false, false), None);
}

#[test]
fn accented_characters() {
    assert_eq!(encode_key("é", false, false, false, false), Some(vec![0xC3, 0xA9]));
    assert_eq!(encode_key("ç", false, false, false, false), Some(vec![0xC3, 0xA7]));
}

#[test]
fn dead_key_returns_none() {
    assert_eq!(encode_key("Dead", false, false, false, false), None);
}

#[test]
fn alt_composed_chars() {
    assert_eq!(encode_key("|", false, true, false, false), Some(vec![b'|']));
    assert_eq!(encode_key("~", false, true, false, false), Some(vec![b'~']));
    assert_eq!(encode_key("{", false, true, false, false), Some(vec![b'{']));
    assert_eq!(encode_key("}", false, true, false, false), Some(vec![b'}']));
    assert_eq!(encode_key("[", false, true, false, false), Some(vec![b'[']));
    assert_eq!(encode_key("]", false, true, false, false), Some(vec![b']']));
    assert_eq!(encode_key("\\", false, true, false, false), Some(vec![b'\\']));
    assert_eq!(encode_key("@", false, true, false, false), Some(vec![b'@']));
    assert_eq!(encode_key("#", false, true, false, false), Some(vec![b'#']));
    assert_eq!(encode_key("€", false, true, false, false), Some(vec![0xE2, 0x82, 0xAC]));
    assert_eq!(encode_key("a", false, true, false, false), Some(vec![0x1b, b'a']));
    assert_eq!(encode_key("f", false, true, false, false), Some(vec![0x1b, b'f']));
}

#[test]
fn delete_key() {
    assert_eq!(encode_key("Delete", false, false, false, false), Some(vec![0x1b, b'[', b'3', b'~']));
}

#[test]
fn ctrl_symbols_and_alt_ctrl_letter() {
    assert_eq!(encode_key("[", true, false, false, false), Some(vec![0x1b]));
    assert_eq!(encode_key("4", true, false, false, false), Some(vec![0x1c]));
    assert_eq!(encode_key("]", true, false, false, false), Some(vec![0x1d]));
    assert_eq!(encode_key("6", true, false, false, false), Some(vec![0x1e]));
    assert_eq!(encode_key("/", true, false, false, false), Some(vec![0x1f]));
    assert_eq!(encode_key(" ", true, false, false, false), Some(vec![0x00]));
    assert_eq!(encode_key("x", true, true, false, false), Some(vec![0x1b, 0x18]));
    assert_eq!(encode_key("Z", true, false, false, false), Some(vec![0x1a]));
    // Ctrl with an unmapped symbol sends nothing, even with Alt
    assert_eq!(encode_key("=", true, true, false, false), None);
    assert_eq!(encode_key("[", true, true, false, false), Some(vec![0x1b]));
}

#[test]
fn special_keys_with_modifiers() {
    assert_eq!(encode_key("Backspace", true, false, false, false), Some(vec![0x08]));
    assert_eq!(encode_key("Tab", false, true, false, false), Some(vec![0x1b, 0x09]));
    assert_eq!(encode_key("ArrowLeft", false, true, false, true), Some(vec![0x1b, 0x1b, b'O', b'D']));
    assert_eq!(encode_key("PageDown", false, false, false, false), Some(vec![0x1b, b'[', b'6', b'~']));
    assert_eq!(encode_key("F5", false, false, false, false), Some(vec![0x1b, b'[', b'1', b'5', b'~']));
    assert_eq!(encode_key("Meta", false, false, false, false), None);
    assert_eq!(encode_key("Unidentified", false, false, false, false), None);
    assert_eq!(encode_key("7", false, true, false, false), Some(vec![0x1b, b'7']));
    // an ASCII control character goes through; a non-ASCII one does not
    assert_eq!(encode_key("\u{7}", false, false, false, false), Some(vec![0x07]));
    assert_eq!(encode_key("\u{85}", false, false, false, false), None);
}
