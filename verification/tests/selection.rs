use crytter::selection::Selection;

#[test]
fn empty_selection() {
    let sel = Selection::new();
    assert!(!sel.is_active());
    assert_eq!(sel.range(), None);
}

#[test]
fn single_line_selection() {
    let mut sel = Selection::new();
    sel.start(5, 10);
    sel.update(5, 20);
    assert!(sel.is_active());
    assert_eq!(sel.range(), Some((5, 10, 5, 20)));
    assert!(sel.contains(5, 10));
    assert!(sel.contains(5, 15));
    assert!(!sel.contains(5, 20)); // end is exclusive
    assert!(!sel.contains(4, 15));
}

#[test]
fn multiline_selection() {
    let mut sel = Selection::new();
    sel.start(2, 5);
    sel.update(4, 10);
    assert!(sel.contains(2, 5));
    assert!(sel.contains(2, 79));
    assert!(sel.contains(3, 0));
    assert!(sel.contains(3, 79));
    assert!(sel.contains(4, 0));
    assert!(sel.contains(4, 9));
    assert!(!sel.contains(4, 10));
}

#[test]
fn reverse_selection() {
    let mut sel = Selection::new();
    sel.start(5, 20);
    sel.update(5, 10);
    assert_eq!(sel.range(), Some((5, 10, 5, 20)));
}

#[test]
fn reversed_multiline_range_is_ordered() {
    let mut sel = Selection::new();
    sel.start(7, 1);
    sel.update(3, 9);
    assert_eq!(sel.range(), Some((3, 9, 7, 1)));
    assert!(sel.contains(3, 9));
    assert!(!sel.contains(3, 8));
    assert!(!sel.contains(7, 1));
    assert!(!sel.contains(8, 0));
}

#[test]
fn update_without_start_and_clear() {
    let mut sel = Selection::new();
    sel.update(1, 1);
    assert!(!sel.is_active());
    sel.start(1, 1);
    // a click without a drag selects nothing
    assert!(!sel.is_active());
    assert_eq!(sel.range(), None);
    assert!(!sel.contains(1, 1));
    sel.update(1, 3);
    assert!(sel.is_active());
    sel.clear();
    assert!(!sel.is_active());
    assert_eq!(sel.range(), None);
}
