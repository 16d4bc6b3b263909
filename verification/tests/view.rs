use crytter::attr::{Attr, Color};
use crytter::cell::Cell;
use crytter::view::{
    background_fill, cell_paint, font_style, row_source, scroll_indicator_text, FontStyle,
    RowSource, Viewport,
};

#[test]
fn viewport_scrolls_within_bounds() {
    let mut v = Viewport::new();
    assert_eq!(v.scroll_offset(), 0);
    assert!(!v.is_scrolled());
    assert_eq!(v.scroll_up(5, 100), 5);
    assert_eq!(v.scroll_up(500, 100), 100);
    assert!(v.is_scrolled());
    assert_eq!(v.scroll_down(30), 70);
    assert_eq!(v.scroll_down(1000), 0);
    assert_eq!(v.scroll_up(usize::MAX, usize::MAX - 1), usize::MAX - 1);
    v.clamp(10);
    assert_eq!(v.scroll_offset(), 10);
    v.clamp(20);
    assert_eq!(v.scroll_offset(), 10);
    v.scroll_to_bottom();
    assert_eq!(v.scroll_offset(), 0);
}

#[test]
fn scroll_up_past_a_shrunk_history_snaps_to_it() {
    let mut v = Viewport::new();
    v.scroll_up(50, 50);
    assert_eq!(v.scroll_up(1, 20), 20);
}

#[test]
fn rows_map_into_history_then_live_grid() {
    // 3 rows, 5 lines of history, scrolled back 2
    assert_eq!(row_source(2, 5, 3, 0), RowSource::History(3));
    assert_eq!(row_source(2, 5, 3, 1), RowSource::History(4));
    assert_eq!(row_source(2, 5, 3, 2), RowSource::Live(0));
    // not scrolled: the live grid row for row
    assert_eq!(row_source(0, 5, 3, 2), RowSource::Live(2));
    // scrolled further than the history: it starts at the oldest line
    assert_eq!(row_source(9, 1, 2, 0), RowSource::History(0));
    assert_eq!(row_source(9, 1, 2, 1), RowSource::Live(0));
    assert_eq!(row_source(9, 1, 2, 3), RowSource::Blank);
}

#[test]
fn cell_painting() {
    let mut attr = Attr::default();
    attr.fg = Color::Indexed(1);
    attr.bg = Color::Rgb(1, 2, 3);
    attr.inverse = true;
    attr.bold = true;
    attr.underline = true;
    let cell = Cell { c: 'x', attr, width: 2, dirty: false };
    let p = cell_paint(&cell).unwrap();
    assert_eq!(p.fg, Color::Rgb(1, 2, 3));
    assert_eq!(p.bg, Color::Indexed(1));
    assert!(p.wide);
    assert!(p.glyph);
    assert_eq!(p.font, FontStyle::Bold);
    assert!(p.underline);
    assert!(!p.strikethrough);

    let spacer = Cell { c: ' ', attr: Attr::default(), width: 0, dirty: false };
    assert!(cell_paint(&spacer).is_none());

    let mut hidden = Attr::default();
    hidden.hidden = true;
    let cell = Cell { c: 'h', attr: hidden, width: 1, dirty: true };
    assert!(!cell_paint(&cell).unwrap().glyph);
    let blank = Cell::default();
    assert!(!cell_paint(&blank).unwrap().glyph);
    assert_eq!(cell_paint(&blank).unwrap().fg, Color::Default);
}

#[test]
fn font_styles() {
    assert_eq!(font_style(false, false), FontStyle::Normal);
    assert_eq!(font_style(true, false), FontStyle::Bold);
    assert_eq!(font_style(false, true), FontStyle::Italic);
    assert_eq!(font_style(true, true), FontStyle::BoldItalic);
}

#[test]
fn background_fill_only_when_different() {
    assert_eq!(background_fill(Color::Default, "#1e1e1e"), None);
    assert_eq!(background_fill(Color::Indexed(2), "#1e1e1e"), Some("rgb(0,205,0)".to_string()));
    assert_eq!(background_fill(Color::Rgb(0, 205, 0), "rgb(0,205,0)"), None);
}

#[test]
fn indicator_text() {
    assert_eq!(scroll_indicator_text(12, 300), "\u{2191}12/300");
    assert_eq!(scroll_indicator_text(0, 0), "\u{2191}0/0");
}
