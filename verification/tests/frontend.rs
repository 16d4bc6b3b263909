use crytter::frontend::{
    bytes_to_text, dump_text, key_event_text, matches_json, replies_text, selection_text, url_at,
};
use crytter::search::{search, SearchMatch};
use crytter::selection::Selection;
use crytter::{Action, Terminal};

fn type_text(term: &mut Terminal, text: &str) {
    let actions: Vec<Action> = text
        .chars()
        .map(|c| match c {
            '\n' => Action::Execute(b'\n'),
            '\r' => Action::Execute(b'\r'),
            _ => Action::Print(c),
        })
        .collect();
    term.process(&actions);
}

#[test]
fn bytes_are_read_as_latin1() {
    assert_eq!(bytes_to_text(b"\x1b[0n"), "\u{1b}[0n");
    assert_eq!(bytes_to_text(&[0xe9, 0x41]), "\u{e9}A");
}

#[test]
fn replies_are_concatenated() {
    assert_eq!(replies_text(&[]), None);
    let got = replies_text(&[b"\x1b[0n".to_vec(), Vec::new(), b"\x1b[3;4R".to_vec()]);
    assert_eq!(got, Some("\u{1b}[0n\u{1b}[3;4R".to_string()));
}

#[test]
fn dump_trims_each_line() {
    let mut term = Terminal::new(6, 3);
    type_text(&mut term, "ab  c\r\n\r\n x");
    // trailing whitespace is trimmed from the text so far, so a blank row
    // also swallows the newline before it
    assert_eq!(dump_text(&term), "ab  c\n x\n");
}

#[test]
fn dump_of_fresh_terminal_is_one_newline() {
    let term = Terminal::new(4, 2);
    assert_eq!(dump_text(&term), "\n");
}

#[test]
fn selection_text_spans_rows() {
    let mut term = Terminal::new(8, 3);
    type_text(&mut term, "hello  w\r\nsecond\r\nthird");
    let mut sel = Selection::new();
    assert_eq!(selection_text(&term, &sel), None);
    sel.start(0, 3);
    sel.update(2, 2);
    assert_eq!(selection_text(&term, &sel), Some("lo  w\nsecond\nth".to_string()));
    sel.start(0, 5);
    sel.update(0, 7);
    // only spaces selected: trimmed away, nothing left
    assert_eq!(selection_text(&term, &sel), None);
}

#[test]
fn selection_text_trims_trailing_spaces() {
    let mut term = Terminal::new(6, 1);
    type_text(&mut term, "ab");
    let mut sel = Selection::new();
    sel.start(0, 0);
    sel.update(0, 6);
    assert_eq!(selection_text(&term, &sel), Some("ab".to_string()));
}

#[test]
fn url_under_pointer() {
    let mut term = Terminal::new(40, 2);
    type_text(&mut term, "go https://example.com/x now");
    assert_eq!(url_at(&term, 0, 3), Some("https://example.com/x".to_string()));
    assert_eq!(url_at(&term, 0, 23), Some("https://example.com/x".to_string()));
    assert_eq!(url_at(&term, 0, 24), None);
    assert_eq!(url_at(&term, 0, 2), None);
    assert_eq!(url_at(&term, 1, 5), None);
    assert_eq!(url_at(&term, 99, 5), None);
}

#[test]
fn search_results_as_json() {
    assert_eq!(matches_json(&[]), "[]");
    let ms = vec![
        SearchMatch { row: -12, start_col: 0, end_col: 3 },
        SearchMatch { row: 4, start_col: 10, end_col: 15 },
    ];
    assert_eq!(
        matches_json(&ms),
        "[{\"row\":-12,\"startCol\":0,\"endCol\":3},{\"row\":4,\"startCol\":10,\"endCol\":15}]"
    );
}

#[test]
fn search_then_json() {
    let mut term = Terminal::new(20, 2);
    type_text(&mut term, "find the thing");
    let ms = search(term.grid(), "THE", 1000);
    assert_eq!(matches_json(&ms), "[{\"row\":0,\"startCol\":5,\"endCol\":8}]");
}

#[test]
fn key_event_text_respects_meta() {
    assert_eq!(key_event_text("c", false, false, false, true, false), None);
    assert_eq!(key_event_text("c", true, false, false, false, false), Some("\u{3}".to_string()));
    assert_eq!(
        key_event_text("ArrowDown", false, false, false, false, true),
        Some("\u{1b}OB".to_string())
    );
    // multi-byte keys go out one character per byte
    assert_eq!(key_event_text("é", false, false, false, false, false), Some("\u{c3}\u{a9}".to_string()));
    assert_eq!(key_event_text("Shift", false, false, true, false, false), None);
}

#[test]
fn selection_text_of_wide_characters() {
    let mut term = Terminal::new(10, 1);
    type_text(&mut term, "a中b");
    let mut sel = Selection::new();
    sel.start(0, 0);
    sel.update(0, 4);
    // the spacer cell after the wide character adds nothing
    assert_eq!(selection_text(&term, &sel), Some("a中b".to_string()));
    assert_eq!(dump_text(&term), "a中 b\n");
}
