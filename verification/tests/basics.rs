use crytter::{Attr, Cell, Color, Cursor, CursorShape, Modes};

#[test]
fn defaults() {
    let a = Attr::default();
    assert_eq!(a.fg, Color::Default);
    assert_eq!(a.bg, Color::Default);
    assert!(!a.bold && !a.italic && !a.underline && !a.inverse && !a.hidden);
    let c = Cell::default();
    assert_eq!(c.c, ' ');
    assert_eq!(c.width, 1);
    assert!(c.dirty);
    let cur = Cursor::default();
    assert_eq!((cur.row, cur.col), (0, 0));
    assert_eq!(cur.shape, CursorShape::Block);
    assert!(cur.visible);
    let m = Modes::default();
    assert!(m.autowrap);
    assert!(!m.alt_screen && !m.insert && !m.app_cursor && !m.bracket_paste);
}

#[test]
fn resets() {
    let mut a = Attr::default();
    a.bold = true;
    a.fg = Color::Rgb(1, 2, 3);
    a.reset();
    assert_eq!(a, Attr::default());
    let mut c = Cell { c: 'q', attr: a, width: 2, dirty: false };
    c.attr.italic = true;
    c.reset();
    assert_eq!(c, Cell::default());
}

#[test]
fn cursor_save_then_restore() {
    let mut cur = Cursor::default();
    cur.row = 3;
    cur.col = 7;
    cur.attr.underline = true;
    cur.save();
    cur.row = 0;
    cur.col = 0;
    cur.attr.underline = false;
    cur.restore();
    assert_eq!((cur.row, cur.col), (3, 7));
    assert!(cur.attr.underline);
    // the saved slot is emptied: a second restore changes nothing
    cur.row = 1;
    cur.restore();
    assert_eq!(cur.row, 1);
}
